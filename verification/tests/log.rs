use k1_musebook::log::Logger;

#[test]
fn line_feeds_become_crlf() {
    assert_eq!(Logger::encode(b"a\nb"), b"a\r\nb".to_vec());
    assert_eq!(Logger::encode(b"\n\n"), b"\r\n\r\n".to_vec());
    assert_eq!(Logger::encode(b"plain"), b"plain".to_vec());
    assert!(Logger::encode(b"").is_empty());
}

#[test]
fn record_layout() {
    assert_eq!(Logger::record("INFO", "ddr init"), b"[INFO] ddr init\r\n".to_vec());
    assert_eq!(Logger::record("WARN", "a\nb"), b"[WARN] a\r\nb\r\n".to_vec());
}
