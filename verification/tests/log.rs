use arcella::arcella_daemon::{
    default_alme_buffer_size, default_dir, default_file, default_stderr, default_structured,
    filter_directives, format_event_line, record_event, timestamp_text, AlmeBufferLayer, EventVisitor, LogBuffer,
    LogLevel, TracingConfig,
};

#[test]
fn defaults() {
    let cfg = TracingConfig::default();
    assert_eq!(cfg.default_level, LogLevel::Info);
    assert!(!cfg.structured && !default_structured());
    assert_eq!(cfg.dir, default_dir());
    assert_eq!(cfg.dir, "dir");
    assert!(cfg.stderr && default_stderr());
    assert!(cfg.file && default_file());
    assert_eq!(cfg.alme_buffer_size, 100);
    assert_eq!(default_alme_buffer_size(), 100);
    assert!(cfg.internal.is_empty());
    assert_eq!(AlmeBufferLayer::new(7).max_size, 7);
}

#[test]
fn directives() {
    let mut cfg = TracingConfig::default();
    assert_eq!(filter_directives(&cfg), "arcella=info");
    cfg.default_level = LogLevel::Warn;
    cfg.internal = vec![
        ("arcella::runtime".to_string(), LogLevel::Debug),
        ("arcella::alme".to_string(), LogLevel::Trace),
    ];
    assert_eq!(filter_directives(&cfg), "arcella=warn,arcella::runtime=debug,arcella::alme=trace");
    assert_eq!(LogLevel::Off.as_str(), "off");
    assert_eq!(LogLevel::Error.as_str(), "error");
}

#[test]
fn ring_buffer_keeps_the_most_recent() {
    let mut buf = LogBuffer::new(2);
    assert!(buf.recent(10).is_empty());
    buf.push("a".to_string());
    buf.push("b".to_string());
    buf.push("c".to_string());
    assert_eq!(buf.len(), 2);
    assert_eq!(buf.recent(10), vec!["c".to_string(), "b".to_string()]);
    assert_eq!(buf.recent(1), vec!["c".to_string()]);
    assert!(buf.recent(0).is_empty());
}

#[test]
fn event_lines() {
    let mut v = EventVisitor::new();
    let empty = format_event_line("T", "INFO", "arcella", &v);
    assert_eq!(empty, "T INFO arcella: no message");
    v.record_str("message", "started");
    v.record_str("port", "8080");
    v.record_debug("id", "Some(1)");
    assert_eq!(v.message, "started");
    assert_eq!(v.fields, vec!["port=8080".to_string(), "id=Some(1)".to_string()]);
    let line = format_event_line("T", "WARN", "arcella::x", &v);
    assert_eq!(line, "T WARN arcella::x: started {port=8080, id=Some(1)}");

    let mut buf = LogBuffer::new(3);
    record_event(&mut buf, 0, 0, "INFO", "arcella", &v);
    assert_eq!(buf.recent(1), vec!["1970-01-01T00:00:00Z INFO arcella: started {port=8080, id=Some(1)}".to_string()]);
}

#[test]
fn timestamps_are_rfc3339() {
    assert_eq!(timestamp_text(0, 0), "1970-01-01T00:00:00Z");
    assert_eq!(timestamp_text(1_500_000_000, 3600), "1970-01-01T01:00:01.5+01:00");
    assert_eq!(timestamp_text(0, 100_000), "<invalid-timestamp>");
    assert_eq!(timestamp_text(i128::MAX, 0), "<invalid-timestamp>");
    let now = time::OffsetDateTime::now_utc();
    let t = timestamp_text(now.unix_timestamp_nanos(), now.offset().whole_seconds());
    assert!(t.len() >= 20);
    let b = t.as_bytes();
    assert_eq!((b[4], b[7], b[10], b[13], b[16]), (b'-', b'-', b'T', b':', b':'));
    assert!(t.ends_with('Z'));
}
