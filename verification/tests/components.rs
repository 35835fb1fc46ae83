use sha2::Digest;
use streamcdn::api::cdn::{edge_endpoint, edge_nodes_health, stream_cache_stats, top_streams};
use streamcdn::api::health::{assess_health, health_http_status, health_report, uptime_between, HealthStatus};
use streamcdn::api::hls::{
    choose_master_playlist, is_safe_segment_name, media_playlist_quality, segment_content_type, segment_file_path,
};
use streamcdn::api::streams::CreateStreamResponse;
use streamcdn::api::websocket::{
    hls_encoder_command, is_segment_file, quality_from_lowercase_name, quality_request, signal_action,
    watched_segment, parse_quality, SegmentWatcher, SignalAction,
};
use streamcdn::cdn::cache::{CacheStats, EdgeCache};
use streamcdn::cdn::edge_manager::{EdgeNodeManager, LoadBalancingStrategy};
use streamcdn::config::env::{parse_bool, parse_unsigned, env_var_or};
use streamcdn::config::settings::{Config, NodeType, ServerConfig, CdnConfig, RedisConfig, StreamingConfig};
use streamcdn::domain::edge_node::EdgeNode;
use streamcdn::domain::quality::StreamQuality;
use streamcdn::domain::stream::{StreamMetadata, VideoSegment};
use streamcdn::ingest::rtmp::{handshake_response, stream_key_from_chunk};
use streamcdn::ingest::segment_buffer::SegmentBuffer;
use streamcdn::ingest::transcoder::WorkerLoads;
use streamcdn::streaming::webrtc::{sdp_answer_text, WebRTCManager};

fn vars(pairs: &[(&str, &str)]) -> Vec<(String, String)> {
    pairs.iter().map(|(k, v)| (k.to_string(), v.to_string())).collect()
}

fn seg(sequence: u64) -> VideoSegment {
    VideoSegment { sequence, data: vec![1, 2], duration_ms: 33, keyframe: false, timestamp: 0, quality: StreamQuality::Low }
}

fn meta(id: &str, kbps: u32, viewers: usize) -> StreamMetadata {
    StreamMetadata {
        stream_id: id.to_string(),
        broadcaster_id: "b".to_string(),
        title: "t".to_string(),
        viewers,
        started_at: 0,
        bitrate_kbps: kbps,
        resolution: "1280x720".to_string(),
        codec: "H264".to_string(),
    }
}

#[test]
fn lowercase_names_map_to_qualities() {
    assert_eq!(quality_from_lowercase_name("4k"), Some(StreamQuality::Ultra));
    assert_eq!(quality_from_lowercase_name("2160p"), Some(StreamQuality::Ultra));
    assert_eq!(quality_from_lowercase_name("LOW"), None);
    assert_eq!(streamcdn::api::websocket::parse_quality("HiGh"), Some(StreamQuality::High));
}

#[test]
fn viewer_quality_requests() {
    assert_eq!(quality_request("quality:1080p"), Some(Some(StreamQuality::High)));
    assert_eq!(quality_request("quality:MEDIUM"), Some(Some(StreamQuality::Medium)));
    assert_eq!(quality_request("quality:8k"), Some(None));
    assert_eq!(quality_request("hello"), None);
}

#[test]
fn signal_types() {
    assert_eq!(signal_action("offer"), SignalAction::Offer);
    assert_eq!(signal_action("ice"), SignalAction::Ice);
    assert_eq!(signal_action("answer"), SignalAction::Answer);
    assert_eq!(signal_action("bye"), SignalAction::Unknown);
}

#[test]
fn encoder_command_and_watched_segments() {
    let args = hls_encoder_command("../hls_output/s/720p");
    assert_eq!(args.len(), 52);
    assert_eq!(args[0], "-loglevel");
    assert_eq!(args[49], "-hls_segment_filename");
    assert_eq!(args[50], "../hls_output/s/720p/segment_%01d.ts");
    assert_eq!(args[51], "../hls_output/s/720p/index.m3u8");
    assert!(is_segment_file("segment_3.ts"));
    assert!(!is_segment_file("index.m3u8"));
    let s = watched_segment(4, vec![9; 3]);
    assert_eq!(s.timestamp, 8000);
    assert_eq!(s.duration_ms, 2000);
    assert!(s.keyframe);
    assert_eq!(s.quality, StreamQuality::Medium);
}

#[test]
fn hls_request_helpers() {
    assert_eq!(media_playlist_quality("720p"), Ok(StreamQuality::Medium));
    assert_eq!(media_playlist_quality("medium"), Err(400));
    assert_eq!(choose_master_playlist(false, None), Err(404));
    assert_eq!(choose_master_playlist(true, Some("X".to_string())), Ok("X".to_string()));
    assert_eq!(
        choose_master_playlist(true, None).unwrap(),
        "#EXTM3U\n#EXT-X-VERSION:3\n#EXT-X-STREAM-INF:BANDWIDTH=2800000,RESOLUTION=1280x720,NAME=\"720p\"\n720p/index.m3u8\n"
    );
    assert!(is_safe_segment_name("segment_1.ts"));
    assert!(!is_safe_segment_name("../secret"));
    assert!(!is_safe_segment_name("a/b.ts"));
    assert_eq!(segment_file_path("s", "720p", "x.ts"), "./hls_output/s/720p/x.ts");
    assert_eq!(segment_content_type("index.m3u8"), "application/vnd.apple.mpegurl");
    assert_eq!(segment_content_type("a.ts"), "video/MP2T");
    assert_eq!(segment_content_type("a.mp4"), "application/octet-stream");
}

#[test]
fn create_stream_response_urls() {
    let r = CreateStreamResponse::for_stream("abc");
    assert_eq!(r.stream_id, "abc");
    assert_eq!(r.rtmp_url, "rtmp://localhost:1935/live");
    assert_eq!(r.stream_key, "abc");
    assert_eq!(r.hls_url, "http://localhost:3000/hls/abc/master.m3u8");
    assert_eq!(r.dash_url, "http://localhost:3000/dash/abc/manifest.mpd");
    assert_eq!(r.webrtc_url, "ws://localhost:3000/webrtc/abc");
}

#[test]
fn health_assessment() {
    assert_eq!(assess_health(false, 0, 10), HealthStatus::Unhealthy);
    assert_eq!(assess_health(true, 11, 10), HealthStatus::Degraded);
    assert_eq!(assess_health(true, 10, 10), HealthStatus::Healthy);
    assert_eq!(health_http_status(HealthStatus::Degraded), 200);
    assert_eq!(health_http_status(HealthStatus::Unhealthy), 503);
    assert_eq!(uptime_between(1_000_000_000, 3_500_000_000), 2);
    assert_eq!(uptime_between(5, 1), 0);
    let mut config = Config::default();
    config.server.node_type = NodeType::Edge;
    let (code, r) = health_report(&config, true, 2, 3, 9, "1.0");
    assert_eq!(code, 200);
    assert_eq!(r.status, HealthStatus::Healthy);
    assert_eq!(r.node_type, "edge");
    assert_eq!(r.version, "1.0");
}

#[test]
fn cdn_helpers() {
    assert_eq!(edge_endpoint("n1"), "https://n1.cdn.example.com");
    let stats = vec![
        ("segment:ab:360p:1".to_string(), CacheStats { hits: 1, misses: 0, evictions: 0 }),
        ("segment:abc:360p:1".to_string(), CacheStats { hits: 2, misses: 0, evictions: 0 }),
        ("segment:x:360p:1".to_string(), CacheStats { hits: 3, misses: 0, evictions: 0 }),
    ];
    let kept = stream_cache_stats(stats.clone(), "ab").unwrap();
    assert_eq!(kept.len(), 2);
    assert_eq!(stream_cache_stats(stats, "zz").unwrap_err(), 404);

    let mut fresh = EdgeNode::with_heartbeat("a".to_string(), "EU".to_string(), 10, 100_000_000_000);
    fresh.update_load_at(1, 100_000_000_000);
    let stale = EdgeNode::with_heartbeat("b".to_string(), "EU".to_string(), 10, 50_000_000_000);
    let (healthy, statuses) = edge_nodes_health(&vec![fresh, stale], 110_000_000_000);
    assert_eq!(healthy, 1);
    assert!(statuses[0].healthy);
    assert_eq!(statuses[0].last_heartbeat_seconds, 10);
    assert!(!statuses[1].healthy);
    assert_eq!(statuses[1].last_heartbeat_seconds, 60);
}

#[test]
fn busiest_streams_first_ties_in_order() {
    let streams = vec![meta("a", 1000, 1), meta("b", 3000, 2), meta("c", 2000, 3), meta("d", 6000, 1)];
    let top = top_streams(&streams);
    let ids: Vec<&str> = top.iter().map(|s| s.stream_id.as_str()).collect();
    assert_eq!(ids, vec!["b", "c", "d", "a"]);
    let many: Vec<StreamMetadata> = (0..12).map(|i| meta(&format!("s{}", i), 1000, i % 3)).collect();
    let top = top_streams(&many);
    assert_eq!(top.len(), 10);
    let ids: Vec<&str> = top.iter().map(|s| s.stream_id.as_str()).collect();
    assert_eq!(ids, vec!["s2", "s5", "s8", "s11", "s1", "s4", "s7", "s10", "s0", "s3"]);
}

#[test]
fn env_numbers_and_flags() {
    assert_eq!(parse_unsigned("3000", 65535), Some(3000));
    assert_eq!(parse_unsigned("+7", 65535), Some(7));
    assert_eq!(parse_unsigned("65536", 65535), None);
    assert_eq!(parse_unsigned("", 65535), None);
    assert_eq!(parse_unsigned("+", 65535), None);
    assert_eq!(parse_unsigned("-1", 65535), None);
    assert_eq!(parse_unsigned("12a", 65535), None);
    assert_eq!(parse_unsigned("18446744073709551615", u64::MAX), Some(u64::MAX));
    assert_eq!(parse_unsigned("18446744073709551616", u64::MAX), None);
    assert_eq!(parse_bool("true"), Some(true));
    assert_eq!(parse_bool("false"), Some(false));
    assert_eq!(parse_bool("TRUE"), None);
    let v = vars(&[("A", "1"), ("A", "2")]);
    assert_eq!(env_var_or(&v, "A", "x"), "1");
    assert_eq!(env_var_or(&v, "B", "x"), "x");
}

#[test]
fn config_from_environment() {
    let v = vars(&[("HTTP_PORT", "8080"), ("NODE_TYPE", "edge"), ("NODE_ID", "n7"), ("REDIS_CLUSTER", "true"),
        ("ORIGIN_URL", "http://o"), ("CACHE_SIZE", "5"), ("ENABLE_DASH", "false")]);
    let s = ServerConfig::from_env(&v);
    assert_eq!(s.http_port, 8080);
    assert_eq!(s.rtmp_port, 1935);
    assert_eq!(s.node_type, NodeType::Edge);
    assert_eq!(s.node_id, "n7");
    assert_eq!(s.bind_addr, "0.0.0.0");
    assert_eq!(s.location, "UNKNOWN");
    let d = ServerConfig::from_env(&vec![]);
    assert!(d.node_id.starts_with("node-"));
    assert_eq!(d.node_id.len(), 41);
    assert_eq!(d.node_type, NodeType::Origin);
    let r = RedisConfig::from_env(&v);
    assert!(r.cluster_mode);
    assert_eq!(r.pool_size, 10);
    let c = CdnConfig::from_env(&v, 0);
    assert_eq!(c.memory_cache_size, 5);
    assert_eq!(c.origin_url, Some("http://o".to_string()));
    assert_eq!(c.heartbeat_timeout_seconds, 30);
    let st = StreamingConfig::from_env(&v);
    assert!(!st.enable_dash);
    assert_eq!(st.profiles.len(), 4);
    let all = Config::load_from_env(&v, 0);
    assert!(all.validate().is_ok());
    assert_eq!(all.http_addr_text(), "0.0.0.0:8080");
    assert_eq!(all.rtmp_addr_text(), "0.0.0.0:1935");
}

#[test]
fn webrtc_offer_gets_an_answer() {
    let mut w = WebRTCManager::new();
    assert!(w.set_offer("p1", "v=0".to_string()).is_none());
    assert_eq!(w.create_connection("p1".to_string(), "s".to_string()), "p1");
    let answer = w.set_offer("p1", "v=0 offer".to_string()).unwrap();
    let fingerprint = hex::encode(sha2::Sha256::digest("v=0 offer".as_bytes()));
    assert!(answer.starts_with("v=0\no=- "));
    assert!(answer.contains(&format!("a=fingerprint:sha-256 {}\n", fingerprint)));
    assert!(answer.ends_with("a=rtpmap:96 VP8/90000\n"));
    let ufrag_line = answer.lines().find(|l| l.starts_with("a=ice-ufrag:")).unwrap();
    assert_eq!(ufrag_line.len(), "a=ice-ufrag:".len() + 8);
    w.add_ice_candidate("p1", "candidate:1".to_string());
    w.add_ice_candidate("nobody", "candidate:2".to_string());
}

#[test]
fn sdp_answer_layout() {
    let s = sdp_answer_text(17, "abcd1234", "pwd", "ff");
    assert_eq!(
        s,
        "v=0\no=- 17 2 IN IP4 127.0.0.1\ns=-\nt=0 0\na=group:BUNDLE 0\nm=video 9 UDP/TLS/RTP/SAVPF 96\nc=IN IP4 0.0.0.0\na=rtcp:9 IN IP4 0.0.0.0\na=ice-ufrag:abcd1234\na=ice-pwd:pwd\na=fingerprint:sha-256 ff\na=setup:active\na=mid:0\na=sendrecv\na=rtcp-mux\na=rtpmap:96 VP8/90000\n"
    );
}

#[test]
fn rtmp_handshake_and_stream_key() {
    let mut c0c1 = vec![3u8];
    c0c1.extend((0..1536).map(|i| (i % 200) as u8));
    let reply = handshake_response(&c0c1, 0x01020304).unwrap();
    assert_eq!(reply.len(), 1 + 1536 + 1536);
    assert_eq!(&reply[..5], &[3, 1, 2, 3, 4]);
    assert_eq!(&reply[1537..], &c0c1[1..]);
    c0c1[0] = 6;
    assert!(handshake_response(&c0c1, 0).is_err());
    assert_eq!(stream_key_from_chunk(b"..publish.."), Some("demo-stream-id".to_string()));
    assert_eq!(stream_key_from_chunk(b"connect rtmp://x"), Some("demo-stream-id".to_string()));
    assert_eq!(stream_key_from_chunk(b"connect"), None);
}

#[test]
fn segment_buffer_is_fifo_and_bounded() {
    let mut b = SegmentBuffer::new(2, 1_000);
    assert!(!b.is_expired());
    assert!(b.push(seg(1)));
    assert!(b.push(seg(2)));
    assert!(!b.push(seg(3)));
    assert!(b.is_full());
    assert!(b.is_expired_after(1_001));
    assert!(!b.is_expired_after(1_000));
    assert_eq!(b.pop().unwrap().sequence, 1);
    assert_eq!(b.pop().unwrap().sequence, 2);
    assert!(b.pop().is_none());
    b.clear();
    assert_eq!(b.len(), 0);
    assert!(!b.is_expired_after(5_000));
}

#[test]
fn worker_loads_go_to_the_least_loaded() {
    let mut w = WorkerLoads::new(3);
    let mut first = vec![w.assign(), w.assign(), w.assign()];
    first.sort();
    assert_eq!(first, vec![0, 1, 2]);
    let fourth = w.assign();
    assert!(fourth < 3);
    let stats = w.stats(3, 4);
    let mut loads = stats.worker_loads.clone();
    loads.sort();
    assert_eq!(loads, vec![1, 1, 2]);
    assert_eq!(stats.worker_count, 3);
    assert_eq!(stats.total_sessions, 4);
}

#[test]
fn edge_cache_tiers_and_counts() {
    let mut c = EdgeCache::new(2);
    c.set("k1", vec![1]);
    c.set("k2", vec![2]);
    assert_eq!(c.get_cached("k1"), Some(vec![1]));
    c.set("k3", vec![3]);
    assert_eq!(c.get_cached("k2"), None);
    assert_eq!(c.finish_lookup("k2", Some(vec![22])), Some(vec![22]));
    assert_eq!(c.get_cached("k2"), Some(vec![22]));
    assert_eq!(c.finish_lookup("k9", None), None);
    c.invalidate("k");
    assert_eq!(c.get_cached("k2"), None);
    let stats = c.get_stats();
    let k2 = stats.iter().find(|(k, _)| k == "k2").unwrap().1;
    assert_eq!((k2.hits, k2.misses), (2, 0));
    let k9 = stats.iter().find(|(k, _)| k == "k9").unwrap().1;
    assert_eq!((k9.hits, k9.misses), (0, 1));
}

#[test]
fn edge_registry_reads_back_what_was_registered() {
    let mut m = EdgeNodeManager::new(LoadBalancingStrategy::Geographic);
    let mut n = EdgeNode::with_heartbeat("n1".to_string(), "EU-WEST".to_string(), 100, 1_000);
    n.update_load_at(95, 1_000);
    m.register_node(n);
    m.register_node(EdgeNode::with_heartbeat("n2".to_string(), "EU-WEST".to_string(), 100, 1_000));
    let got = m.get_node("n1").unwrap();
    assert_eq!(got.current_load, 95);
    assert_eq!(got.location, "EU-WEST");
    assert_eq!(m.get_nodes_in_region("EU-WEST"), vec!["n1".to_string(), "n2".to_string()]);

    let report = m.run_health_check_at(2_000);
    assert_eq!(report.healthy_nodes, vec!["n2".to_string()]);
    assert_eq!(report.unhealthy_nodes, vec![("n1".to_string(), "Overloaded".to_string())]);
    let stale = m.run_health_check_at(40_000_000_000);
    assert_eq!(stale.healthy_nodes.len(), 0);
    assert_eq!(stale.total_nodes(), 2);

    let stats = m.get_cluster_stats_at(2_000);
    assert_eq!((stats.total_nodes, stats.healthy_nodes, stats.total_capacity, stats.used_capacity), (2, 1, 200, 95));
    assert_eq!(stats.available_capacity, 105);

    let sel = m.select_node_at("EU-WEST", 2_000, 0).unwrap();
    assert_eq!(sel.node.node_id, "n2");

    assert!(m.unregister_node("n1"));
    assert!(m.get_node("n1").is_none());
    assert!(!m.unregister_node("n1"));
    assert_eq!(m.get_nodes_in_region("EU-WEST"), vec!["n2".to_string()]);
}

#[test]
fn strategy_can_be_changed() {
    let mut m = EdgeNodeManager::new(LoadBalancingStrategy::LeastConnections);
    m.set_strategy(LoadBalancingStrategy::RoundRobin);
    assert_eq!(m.get_strategy(), LoadBalancingStrategy::RoundRobin);
    m.register_node(EdgeNode::with_heartbeat("a".to_string(), "EU".to_string(), 10, 5_000_000_000));
    m.register_node(EdgeNode::with_heartbeat("b".to_string(), "EU".to_string(), 10, 5_000_000_000));
    let at6 = m.select_node_at("EU", 6_000_000_000, 0).unwrap();
    let at7 = m.select_node_at("EU", 7_000_000_000, 0).unwrap();
    assert_ne!(at6.node.node_id, at7.node.node_id);
    assert_eq!(at6.alternatives.len(), 1);
}

#[test]
fn worker_release_undoes_assign() {
    let mut w = WorkerLoads::new(2);
    let a = w.assign();
    let b = w.assign();
    assert_ne!(a, b);
    let c = w.assign();
    w.release(c);
    assert_eq!(w.stats(2, 2).worker_loads, vec![1, 1]);
    w.release(a);
    w.release(a);
    let mut loads = w.stats(2, 1).worker_loads;
    loads.sort();
    assert_eq!(loads, vec![0, 1]);
    assert_eq!(w.assign(), a);
    w.release(7);
    assert_eq!(w.stats(2, 2).worker_loads, vec![1, 1]);
}

#[test]
fn segment_watcher_takes_each_file_once() {
    let mut w = SegmentWatcher::new();
    assert!(w.wants("segment000.ts"));
    assert!(!w.wants("index.m3u8"));
    let s0 = w.take("segment000.ts".to_string(), vec![7, 8]);
    assert_eq!(s0.sequence, 0);
    assert_eq!(s0.timestamp, 0);
    assert_eq!(s0.data, vec![7, 8]);
    assert!(!w.wants("segment000.ts"));
    assert!(w.wants("segment001.ts"));
    let s1 = w.take("segment001.ts".to_string(), vec![9]);
    assert_eq!(s1.sequence, 1);
    assert_eq!(s1.timestamp, 2000);
    assert_eq!(s1.duration_ms, 2000);
    assert!(s1.keyframe);
    assert_eq!(s1.quality, StreamQuality::Medium);
    assert_eq!(w.next_sequence(), 2);
}

#[test]
fn quality_names_in_capitals_parse() {
    assert_eq!(parse_quality("2160P"), Some(StreamQuality::Ultra));
    assert_eq!(parse_quality("2160p"), Some(StreamQuality::Ultra));
    assert_eq!(parse_quality("LOW"), Some(StreamQuality::Low));
    assert_eq!(parse_quality("Medium"), Some(StreamQuality::Medium));
    assert_eq!(parse_quality("1080P"), Some(StreamQuality::High));
    assert_eq!(parse_quality("4K"), Some(StreamQuality::Ultra));
    assert_eq!(parse_quality("8k"), None);
}

#[test]
fn healthy_nodes_have_distinct_ids() {
    let mut m = EdgeNodeManager::new(LoadBalancingStrategy::LeastConnections);
    m.register_node(EdgeNode::new("a".to_string(), "EU".to_string(), 10));
    m.register_node(EdgeNode::new("b".to_string(), "EU".to_string(), 10));
    m.register_node(EdgeNode::new("a".to_string(), "US".to_string(), 10));
    let mut ids: Vec<String> = m.get_healthy_nodes().into_iter().map(|n| n.node_id).collect();
    ids.sort();
    assert_eq!(ids, vec!["a".to_string(), "b".to_string()]);
}

#[test]
fn least_loaded_offers_up_to_three_other_nodes() {
    let mut m = EdgeNodeManager::new(LoadBalancingStrategy::LeastConnections);
    for (id, load) in [("a", 5usize), ("b", 1), ("c", 7), ("d", 3), ("e", 9)] {
        let mut n = EdgeNode::with_heartbeat(id.to_string(), "EU".to_string(), 10, 1_000);
        n.update_load_at(load, 1_000);
        m.register_node(n);
    }
    let sel = m.select_least_loaded_at(2_000).unwrap();
    assert_eq!(sel.node.node_id, "b");
    assert_eq!(sel.alternatives.len(), 3);
    assert!(!sel.alternatives.contains(&"b".to_string()));
    let mut alts = sel.alternatives.clone();
    alts.sort();
    alts.dedup();
    assert_eq!(alts.len(), 3);

    let mut two = EdgeNodeManager::new(LoadBalancingStrategy::LeastConnections);
    two.register_node(EdgeNode::with_heartbeat("x".to_string(), "EU".to_string(), 10, 1_000));
    two.register_node(EdgeNode::with_heartbeat("y".to_string(), "EU".to_string(), 10, 1_000));
    assert_eq!(two.select_least_loaded_at(2_000).unwrap().alternatives.len(), 1);
}

#[test]
fn geographic_falls_back_to_a_same_prefix_region() {
    let mut m = EdgeNodeManager::new(LoadBalancingStrategy::Geographic);
    let mut north = EdgeNode::with_heartbeat("north".to_string(), "EU-NORTH".to_string(), 10, 1_000);
    north.update_load_at(8, 1_000);
    m.register_node(north);
    m.register_node(EdgeNode::with_heartbeat("east".to_string(), "US-EAST".to_string(), 10, 1_000));
    let sel = m.select_by_geography_at("EU-CENTRAL", 2_000).unwrap();
    assert_eq!(sel.node.node_id, "north");
    assert_eq!(sel.alternatives, vec!["east".to_string()]);
    let any = m.select_node_at("EU-CENTRAL", 2_000, 0).unwrap();
    assert_eq!(any.node.node_id, "north");
}

#[test]
fn random_choice_offers_no_alternatives() {
    let mut m = EdgeNodeManager::new(LoadBalancingStrategy::Random);
    m.register_node(EdgeNode::with_heartbeat("a".to_string(), "EU".to_string(), 10, 1_000));
    m.register_node(EdgeNode::with_heartbeat("b".to_string(), "EU".to_string(), 10, 1_000));
    let sel = m.select_node_at("EU", 2_000, 5).unwrap();
    assert!(sel.alternatives.is_empty());
}
