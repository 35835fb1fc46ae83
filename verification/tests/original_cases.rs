use streamcdn::api::websocket::parse_quality;
use streamcdn::cdn::edge_manager::{EdgeNodeManager, LoadBalancingStrategy};
use streamcdn::config::settings::{Config, NodeType};
use streamcdn::domain::edge_node::EdgeNode;
use streamcdn::domain::quality::StreamQuality;
use streamcdn::ingest::rtmp::is_keyframe_data;
use streamcdn::ingest::transcoder::{HardwareAcceleration, SimpleTranscoder};

#[test]
fn test_parse_quality() {
    assert_eq!(parse_quality("low"), Some(StreamQuality::Low));
    assert_eq!(parse_quality("360p"), Some(StreamQuality::Low));
    assert_eq!(parse_quality("medium"), Some(StreamQuality::Medium));
    assert_eq!(parse_quality("720p"), Some(StreamQuality::Medium));
    assert_eq!(parse_quality("high"), Some(StreamQuality::High));
    assert_eq!(parse_quality("1080p"), Some(StreamQuality::High));
    assert_eq!(parse_quality("ultra"), Some(StreamQuality::Ultra));
    assert_eq!(parse_quality("4k"), Some(StreamQuality::Ultra));
    assert_eq!(parse_quality("invalid"), None);
}

#[test]
fn test_keyframe_detection() {
    // FLV keyframe tag
    let keyframe_data = vec![0x17, 0x00, 0x00, 0x00, 0x00];
    assert!(is_keyframe_data(&keyframe_data));

    // FLV inter frame tag
    let inter_frame_data = vec![0x27, 0x00, 0x00, 0x00, 0x00];
    assert!(!is_keyframe_data(&inter_frame_data));
}

#[test]
fn test_register_and_unregister() {
    let mut manager = EdgeNodeManager::new(LoadBalancingStrategy::LeastConnections);

    let node = EdgeNode::new("test-node-1".to_string(), "EU-WEST".to_string(), 1000);

    manager.register_node(node);
    assert_eq!(manager.get_all_nodes().len(), 1);

    assert!(manager.unregister_node("test-node-1"));
    assert_eq!(manager.get_all_nodes().len(), 0);
}

#[test]
fn test_least_connections_selection() {
    let mut manager = EdgeNodeManager::new(LoadBalancingStrategy::LeastConnections);

    // Register nodes with different loads
    let mut node1 = EdgeNode::new("node-1".to_string(), "EU".to_string(), 100);
    node1.update_load(50); // 50% load

    let mut node2 = EdgeNode::new("node-2".to_string(), "EU".to_string(), 100);
    node2.update_load(20); // 20% load

    manager.register_node(node1);
    manager.register_node(node2);

    // Should select node-2 (lower load)
    let selection = manager.select_least_loaded().unwrap();
    assert_eq!(selection.node.node_id, "node-2");
}

#[test]
fn test_geographic_selection() {
    let mut manager = EdgeNodeManager::new(LoadBalancingStrategy::Geographic);

    let node1 = EdgeNode::new("node-1".to_string(), "EU-WEST".to_string(), 100);
    let node2 = EdgeNode::new("node-2".to_string(), "US-EAST".to_string(), 100);

    manager.register_node(node1);
    manager.register_node(node2);

    // Should select EU node for EU viewer
    let selection = manager.select_by_geography("EU-WEST").unwrap();
    assert_eq!(selection.node.location, "EU-WEST");
}

#[test]
fn test_health_check() {
    let mut manager = EdgeNodeManager::new(LoadBalancingStrategy::LeastConnections);

    let node = EdgeNode::new("test-node".to_string(), "EU".to_string(), 100);
    manager.register_node(node);

    let report = manager.run_health_check();
    assert_eq!(report.healthy_nodes.len(), 1);
    assert_eq!(report.unhealthy_nodes.len(), 0);
}

#[test]
fn test_default_config() {
    let config = Config::default();
    assert_eq!(config.server.http_port, 3000);
    assert_eq!(config.server.rtmp_port, 1935);
    assert_eq!(config.server.node_type, NodeType::Origin);
}

#[test]
fn test_config_validation() {
    let mut config = Config::default();
    assert!(config.validate().is_ok());

    // Invalid port
    config.server.http_port = 0;
    assert!(config.validate().is_err());

    // Edge without origin
    config.server.http_port = 3000;
    config.server.node_type = NodeType::Edge;
    assert!(config.validate().is_err());

    // Edge with origin
    config.cdn.origin_url = Some("http://origin:3000".to_string());
    assert!(config.validate().is_ok());
}

#[test]
fn test_node_type_helpers() {
    let mut config = Config::default();

    config.server.node_type = NodeType::Origin;
    assert!(config.is_origin());
    assert!(!config.is_edge());

    config.server.node_type = NodeType::Edge;
    assert!(!config.is_origin());
    assert!(config.is_edge());
}

#[test]
fn test_simple_transcoder() {
    let data = vec![0u8; 1000];

    let low = SimpleTranscoder::transcode(&data, StreamQuality::Low);
    assert!(low.len() < data.len());

    let medium = SimpleTranscoder::transcode(&data, StreamQuality::Medium);
    assert!(low.len() < medium.len());

    let high = SimpleTranscoder::transcode(&data, StreamQuality::High);
    assert!(medium.len() < high.len());
}

#[test]
fn test_addresses() {
    let config = Config::default();
    let http_addr = config.http_addr_text();
    let http_port: u16 = http_addr.rsplit(':').next().unwrap().parse().unwrap();
    assert_eq!(http_port, 3000);

    let rtmp_addr = config.rtmp_addr_text();
    let rtmp_port: u16 = rtmp_addr.rsplit(':').next().unwrap().parse().unwrap();
    assert_eq!(rtmp_port, 1935);
}

#[test]
fn test_hw_accel_detection() {
    let hw_accel = HardwareAcceleration::from_detection(false, false, false);
    println!("Detected hardware acceleration: {:?}", hw_accel);
}
