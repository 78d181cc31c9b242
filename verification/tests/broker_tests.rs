use processor::connection::{
    file_message_payload, handle_message, BrokerSetup, Compression, ConnectionDetails, MessageExpiry,
    PollingState, TopicSizeLimit,
};
use processor::ingress::{is_scan_request, ScanLog};

#[test]
fn connection_defaults() {
    let d = ConnectionDetails::default();
    assert_eq!((d.stream_id, d.topic_id, d.partition_id), (1, 1, 1));
}

#[test]
fn broker_setup_names() {
    let d = ConnectionDetails { stream_id: 4, topic_id: 5, partition_id: 6 };
    let s = BrokerSetup::new(&d);
    assert_eq!(s.stream_name, "test-stream");
    assert_eq!(s.topic_name, "test-stream");
    assert_eq!((s.stream_id, s.topic_id, s.partitions_count), (4, 5, 1));
    assert!(matches!(s.compression, Compression::Uncompressed));
    assert!(s.replication_factor.is_none());
    assert!(matches!(s.message_expiry, MessageExpiry::NeverExpire));
    assert!(matches!(s.max_topic_size, TopicSizeLimit::ServerDefault));
}

#[test]
fn polling_offsets_advance() {
    let d = ConnectionDetails::default();
    let mut p = PollingState::new();
    let r = p.poll_request(&d);
    assert_eq!((r.offset, r.count, r.auto_commit, r.partition_id), (0, 1, false, 1));
    assert!(!p.on_polled(0));
    assert_eq!(p.offset, 0);
    assert!(p.on_polled(1));
    assert!(p.on_polled(3));
    assert_eq!(p.poll_request(&d).offset, 4);
}

#[test]
fn message_payload_round_trip() {
    let path = "./files_to_process/ünï.json";
    let payload = file_message_payload(path);
    assert_eq!(payload, path.as_bytes().to_vec());
    assert_eq!(handle_message(&payload), Some(path.to_string()));
}

#[test]
fn invalid_payload_is_rejected() {
    assert_eq!(handle_message(&[0x66, 0xff, 0x66]), None);
    assert_eq!(handle_message(&[]), Some(String::new()));
}

#[test]
fn scan_requests() {
    assert!(is_scan_request("a\n"));
    assert!(is_scan_request("  x \t\r\n"));
    assert!(!is_scan_request("ab\n"));
    assert!(!is_scan_request("\n"));
    assert!(!is_scan_request("é\n"));
    assert!(is_scan_request("\u{3000}z\u{2028}"));
}

#[test]
fn scan_log_skips_seen_files() {
    let mut log = ScanLog::new();
    let first = log.fresh(vec!["a".to_string(), "b".to_string(), "a".to_string()]);
    assert_eq!(first, vec!["a", "b"]);
    let second = log.fresh(vec!["b".to_string(), "c".to_string(), "a".to_string(), "c".to_string()]);
    assert_eq!(second, vec!["c"]);
    assert_eq!(log.seen(), &vec!["a".to_string(), "b".to_string(), "c".to_string()]);
    assert!(log.fresh(vec![]).is_empty());
}
