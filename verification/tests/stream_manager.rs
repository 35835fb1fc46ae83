use streamcdn::api::streams::{create_stream, CreateStreamRequest};
use streamcdn::config::settings::Config;
use streamcdn::domain::edge_node::EdgeNode;
use streamcdn::domain::quality::StreamQuality;
use streamcdn::domain::stream::VideoSegment;
use streamcdn::manager::stream_manager::{
    segment_key_string, strategy_from_name, StreamManager, DVR_WINDOW_SEGMENTS,
};
use streamcdn::cdn::edge_manager::LoadBalancingStrategy;

fn manager() -> StreamManager {
    let mut config = Config::default();
    config.cdn.memory_cache_size = 100;
    StreamManager::new(&config)
}

fn segment(sequence: u64, len: usize) -> VideoSegment {
    VideoSegment {
        sequence,
        data: (0..len).map(|i| (i % 251) as u8).collect(),
        duration_ms: 2000,
        keyframe: true,
        timestamp: sequence * 2000,
        quality: StreamQuality::Medium,
    }
}

#[test]
fn create_stream_records_metadata() {
    let mut m = manager();
    assert!(m.create_stream_at("s1".to_string(), "bob".to_string(), "Live".to_string(), 42).is_ok());
    let meta = m.get_stream_metadata("s1").unwrap();
    assert_eq!(meta.stream_id, "s1");
    assert_eq!(meta.broadcaster_id, "bob");
    assert_eq!(meta.title, "Live");
    assert_eq!(meta.viewers, 0);
    assert_eq!(meta.started_at, 42);
    assert_eq!(meta.bitrate_kbps, 3000);
    assert_eq!(meta.resolution, "1280x720");
    assert_eq!(meta.codec, "H264");
    assert_eq!(m.list_streams().len(), 1);
}

#[test]
fn create_stream_twice_fails() {
    let mut m = manager();
    assert!(m.create_stream("s1".to_string(), "a".to_string(), "t".to_string()).is_ok());
    let err = m.create_stream("s1".to_string(), "b".to_string(), "u".to_string()).unwrap_err();
    assert_eq!(err, "Stream already exists");
    assert_eq!(m.get_stream_metadata("s1").unwrap().broadcaster_id, "a");
}

#[test]
fn ingest_unknown_stream_fails() {
    let mut m = manager();
    let err = m.ingest_segment("nope", segment(0, 10)).unwrap_err();
    assert_eq!(err, "Stream not found");
}

#[test]
fn ingest_writes_one_entry_per_quality() {
    let mut m = manager();
    m.create_stream_at("s1".to_string(), "b".to_string(), "t".to_string(), 0).unwrap();
    let writes = m.ingest_segment("s1", segment(7, 1000)).unwrap();
    let keys: Vec<&str> = writes.iter().map(|(k, _)| k.as_str()).collect();
    assert_eq!(keys, vec!["segment:s1:360p:7", "segment:s1:720p:7", "segment:s1:1080p:7", "segment:s1:2160p:7"]);
    let lens: Vec<usize> = writes.iter().map(|(_, d)| d.len()).collect();
    assert_eq!(lens, vec![300, 500, 800, 1000]);
    assert_eq!(&writes[0].1[..], &segment(7, 1000).data[..300]);
}

#[test]
fn media_playlist_lists_ingested_segments() {
    let mut m = manager();
    m.create_stream_at("s1".to_string(), "b".to_string(), "t".to_string(), 0).unwrap();
    m.ingest_segment("s1", segment(3, 10)).unwrap();
    m.ingest_segment("s1", segment(4, 10)).unwrap();
    let p = m.get_hls_media_playlist("s1", StreamQuality::High).unwrap();
    assert_eq!(
        p,
        "#EXTM3U\n#EXT-X-VERSION:3\n#EXT-X-TARGETDURATION:6\n#EXT-X-MEDIA-SEQUENCE:3\n\n#EXTINF:2.000,\nsegment_3.ts\n#EXTINF:2.000,\nsegment_4.ts\n"
    );
    assert!(m.get_hls_media_playlist("other", StreamQuality::High).is_none());
}

#[test]
fn master_playlist_and_manifest_need_a_stream() {
    let mut m = manager();
    assert!(m.get_hls_master_playlist("s1").is_none());
    assert!(m.get_dash_manifest("s1").is_none());
    m.create_stream_at("s1".to_string(), "b".to_string(), "t".to_string(), 0).unwrap();
    let master = m.get_hls_master_playlist("s1").unwrap();
    assert!(master.starts_with("#EXTM3U\n#EXT-X-VERSION:3\n\n#EXT-X-STREAM-INF:BANDWIDTH=1000000,RESOLUTION=640x360,NAME=\"360p\"\n360p/index.m3u8\n\n"));
    assert!(master.ends_with("NAME=\"2160p\"\n2160p/index.m3u8\n\n"));
    let mpd = m.get_dash_manifest("s1").unwrap();
    assert!(mpd.contains("<SegmentTemplate media=\"s1/720p/segment_$Number$.m4s\" startNumber=\"1\"/>"));
}

#[test]
fn window_keeps_the_last_sixty_segments() {
    let mut m = manager();
    m.create_stream_at("s1".to_string(), "b".to_string(), "t".to_string(), 0).unwrap();
    for seq in 0..61u64 {
        m.ingest_segment("s1", segment(seq, 4)).unwrap();
    }
    let p = m.get_hls_media_playlist("s1", StreamQuality::Low).unwrap();
    assert_eq!(p.matches("#EXTINF").count(), DVR_WINDOW_SEGMENTS);
    assert!(p.contains("#EXT-X-MEDIA-SEQUENCE:1\n"));
    assert!(!p.contains("segment_0.ts"));
}

#[test]
fn segment_lookup_hits_memory_then_falls_back_to_window() {
    let mut m = manager();
    m.create_stream_at("s1".to_string(), "b".to_string(), "t".to_string(), 0).unwrap();
    m.ingest_segment("s1", segment(5, 100)).unwrap();
    let hit = m.get_segment_cached("s1", StreamQuality::Ultra, 5).unwrap();
    assert_eq!(hit.len(), 100);
    assert!(m.get_segment_cached("s1", StreamQuality::Ultra, 6).is_none());
    m.invalidate_cache("s1");
    assert!(m.get_segment_cached("s1", StreamQuality::Low, 5).is_none());
    let stored = m.finish_segment_lookup("s1", StreamQuality::Low, 5, None).unwrap();
    assert_eq!(stored.len(), 30);
    let remote = m.finish_segment_lookup("s1", StreamQuality::Low, 9, Some(vec![1, 2, 3])).unwrap();
    assert_eq!(remote, vec![1, 2, 3]);
    assert_eq!(m.get_segment_cached("s1", StreamQuality::Low, 9).unwrap(), vec![1, 2, 3]);
    assert!(m.finish_segment_lookup("s1", StreamQuality::Low, 77, None).is_none());
    let key = segment_key_string("s1", StreamQuality::Low, 77);
    let stats = m.get_cache_stats();
    let entry = stats.iter().find(|(k, _)| *k == key).unwrap();
    assert_eq!(entry.1.misses, 1);
}

#[test]
fn viewers_are_counted_per_stream() {
    let mut m = manager();
    assert_eq!(m.subscribe_to_stream("s1", StreamQuality::Medium).unwrap_err(), "Stream not found");
    m.create_stream_at("s1".to_string(), "b".to_string(), "t".to_string(), 0).unwrap();
    m.subscribe_to_stream("s1", StreamQuality::Medium).unwrap();
    m.subscribe_to_stream("s1", StreamQuality::Low).unwrap();
    assert_eq!(m.get_stream_metadata("s1").unwrap().viewers, 2);
    assert_eq!(m.get_current_load(), 2);
    m.unsubscribe_from_stream("s1");
    assert_eq!(m.get_stream_metadata("s1").unwrap().viewers, 1);
    m.unsubscribe_from_stream("s1");
    m.unsubscribe_from_stream("s1");
    assert_eq!(m.get_stream_metadata("s1").unwrap().viewers, 0);
    m.unsubscribe_from_stream("unknown");
    assert!(m.get_stream_metadata("unknown").is_none());
}

#[test]
fn end_stream_forgets_the_stream_and_its_segments() {
    let mut m = manager();
    m.create_stream_at("s1".to_string(), "b".to_string(), "t".to_string(), 0).unwrap();
    m.create_stream_at("s2".to_string(), "b".to_string(), "t".to_string(), 0).unwrap();
    m.ingest_segment("s1", segment(1, 10)).unwrap();
    m.ingest_segment("s2", segment(1, 10)).unwrap();
    assert!(m.end_stream("s1").is_ok());
    assert!(m.get_stream_metadata("s1").is_none());
    assert!(m.get_segment_cached("s1", StreamQuality::Ultra, 1).is_none());
    assert!(m.get_segment_cached("s2", StreamQuality::Ultra, 1).is_some());
    assert_eq!(m.get_metrics().active_streams, 1);
}

#[test]
fn edge_node_choice_prefers_least_loaded_with_room() {
    let mut m = manager();
    assert!(m.select_edge_node("EU").is_none());
    let mut a = EdgeNode::with_heartbeat("a".to_string(), "EU".to_string(), 10, 0);
    a.update_load_at(10, 0);
    let mut b = EdgeNode::with_heartbeat("b".to_string(), "EU".to_string(), 10, 0);
    b.update_load_at(7, 0);
    let mut c = EdgeNode::with_heartbeat("c".to_string(), "US".to_string(), 10, 0);
    c.update_load_at(3, 0);
    m.register_edge_node(a);
    assert!(m.select_edge_node("EU").is_none());
    m.register_edge_node(b);
    m.register_edge_node(c);
    assert_eq!(m.select_edge_node("EU").unwrap().node_id, "c");
    assert_eq!(m.get_all_edge_nodes().len(), 3);
}

#[test]
fn metrics_sum_viewers_and_cache_counts() {
    let mut m = manager();
    m.create_stream_at("s1".to_string(), "b".to_string(), "t".to_string(), 0).unwrap();
    m.create_stream_at("s2".to_string(), "b".to_string(), "t".to_string(), 0).unwrap();
    m.subscribe_to_stream("s1", StreamQuality::Low).unwrap();
    m.subscribe_to_stream("s2", StreamQuality::Low).unwrap();
    m.subscribe_to_stream("s2", StreamQuality::Low).unwrap();
    m.ingest_segment("s1", segment(0, 10)).unwrap();
    m.get_segment_cached("s1", StreamQuality::Low, 0);
    m.get_segment_cached("s1", StreamQuality::Low, 1);
    m.finish_segment_lookup("s1", StreamQuality::Low, 1, None);
    let metrics = m.get_metrics();
    assert_eq!(metrics.active_streams, 2);
    assert_eq!(metrics.total_viewers, 3);
    assert_eq!(metrics.total_hits, 1);
    assert_eq!(metrics.total_misses, 1);
    assert!(m.cleanup_cache().is_ok());
}

#[test]
fn strategy_names() {
    assert_eq!(strategy_from_name("round-robin"), LoadBalancingStrategy::RoundRobin);
    assert_eq!(strategy_from_name("least-connections"), LoadBalancingStrategy::LeastConnections);
    assert_eq!(strategy_from_name("geographic"), LoadBalancingStrategy::Geographic);
    assert_eq!(strategy_from_name("weighted"), LoadBalancingStrategy::Weighted);
    assert_eq!(strategy_from_name("random"), LoadBalancingStrategy::Random);
    assert_eq!(strategy_from_name("Random"), LoadBalancingStrategy::LeastConnections);
}

#[test]
fn manager_uses_configured_strategy() {
    let mut config = Config::default();
    config.cdn.load_balancing_strategy = "weighted".to_string();
    let m = StreamManager::new(&config);
    assert_eq!(m.edge_manager.get_strategy(), LoadBalancingStrategy::Weighted);
}

#[test]
fn api_create_stream_uses_a_fresh_uuid() {
    let mut m = manager();
    let resp = create_stream(&mut m, CreateStreamRequest { broadcaster_id: "b".to_string(), title: "t".to_string() }).unwrap();
    assert_eq!(resp.stream_id.len(), 36);
    assert_eq!(resp.stream_key, resp.stream_id);
    assert_eq!(resp.hls_url, format!("http://localhost:3000/hls/{}/master.m3u8", resp.stream_id));
    let meta = m.get_stream_metadata(&resp.stream_id).unwrap();
    assert_eq!(meta.broadcaster_id, "b");
    let other = create_stream(&mut m, CreateStreamRequest { broadcaster_id: "c".to_string(), title: "u".to_string() }).unwrap();
    assert_ne!(other.stream_id, resp.stream_id);
}
