use archivist_core::BinaryManager;

#[test]
fn test_new_bin_dir_under_data_dir() {
    let mgr = BinaryManager::new();
    let path = mgr.bin_dir().clone();
    assert!(
        path.contains("archivist") && path.ends_with("bin"),
        "Expected bin_dir under archivist/bin, got: {}",
        path
    );
}

#[test]
fn test_yt_dlp_path_has_correct_name() {
    let mgr = BinaryManager::new();
    let path = mgr.yt_dlp_path();
    let name = path.rsplit('/').next().unwrap();
    assert_eq!(name, "yt-dlp");
}

#[test]
fn test_ffmpeg_path_has_correct_name() {
    let mgr = BinaryManager::new();
    let path = mgr.ffmpeg_path();
    let name = path.rsplit('/').next().unwrap();
    assert_eq!(name, "ffmpeg");
}

#[test]
fn test_not_installed_by_default() {
    let tmp = tempfile::TempDir::new().unwrap();
    let dir = tmp.path().join("nonexistent").to_string_lossy().to_string();
    let mgr = BinaryManager::with_bin_dir(dir);
    assert!(!mgr.is_yt_dlp_installed());
    assert!(!mgr.is_ffmpeg_installed());
}

#[test]
fn test_yt_dlp_download_url_format() {
    let url = BinaryManager::yt_dlp_download_url();
    assert!(url.starts_with("https://github.com/yt-dlp/yt-dlp/releases/"));
    assert!(url.ends_with("/yt-dlp"));
}

#[test]
fn test_ffmpeg_download_url_format() {
    let (url, archive_type) = BinaryManager::ffmpeg_download_url();
    assert!(url.contains("ffmpeg"));
    assert!(url.contains("github.com"));
    assert_eq!(archive_type, "tar.xz");
}
