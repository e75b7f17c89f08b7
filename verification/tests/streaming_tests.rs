use archivist_core::{parse_range, MediaStreamingConfig};

#[test]
fn test_parse_range_explicit() {
    let (start, end) = parse_range("bytes=0-999", 10000).unwrap();
    assert_eq!(start, 0);
    assert_eq!(end, 999);
}

#[test]
fn test_parse_range_open_end() {
    let (start, end) = parse_range("bytes=5000-", 10000).unwrap();
    assert_eq!(start, 5000);
    assert_eq!(end, 9999);
}

#[test]
fn test_parse_range_suffix() {
    let (start, end) = parse_range("bytes=-500", 10000).unwrap();
    assert_eq!(start, 9500);
    assert_eq!(end, 9999);
}

#[test]
fn test_parse_range_clamps_end() {
    let (start, end) = parse_range("bytes=0-99999", 10000).unwrap();
    assert_eq!(start, 0);
    assert_eq!(end, 9999);
}

#[test]
fn test_parse_range_invalid_prefix() {
    assert!(parse_range("chars=0-100", 10000).is_err());
}

#[test]
fn test_config_default() {
    let config = MediaStreamingConfig::default();
    assert_eq!(config.port, 8087);
}

#[test]
fn test_mime_detection() {
    let mime = mime_guess::from_path("video.mp4")
        .first_or_octet_stream()
        .to_string();
    assert_eq!(mime, "video/mp4");

    let mime = mime_guess::from_path("audio.mp3")
        .first_or_octet_stream()
        .to_string();
    assert_eq!(mime, "audio/mpeg");

    let mime = mime_guess::from_path("video.webm")
        .first_or_octet_stream()
        .to_string();
    assert_eq!(mime, "video/webm");
}

#[test]
fn test_parse_range_rejects_double_dash() {
    assert!(parse_range("bytes=100-200-300", 10000).is_err());
    assert!(parse_range("bytes=", 10000).is_err());
    assert!(parse_range("bytes=-", 10000).is_err());
}

#[test]
fn test_upload_mime_fallback() {
    // Through the verified wrapper caller: a known extension gives the
    // table's answer, an unknown one falls back to the byte stream type.
    let m = archivist_core::node_client::upload_mime_type(&String::from("clip.mp4"));
    assert_eq!(m, "video/mp4");
    let f = archivist_core::node_client::upload_mime_type(&String::from("blob.zzzz"));
    assert_eq!(f, "application/octet-stream");
}
