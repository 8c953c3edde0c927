use whisper_client::youtube::{download_pattern, is_download_artifact};

#[test]
fn test_download_pattern() {
    assert_eq!(
        download_pattern("20240101_120000"),
        "yt_download_20240101_120000_%(title)s.%(ext)s"
    );
}

#[test]
fn test_is_download_artifact() {
    let ts = "20240101_120000";
    assert!(is_download_artifact("yt_download_20240101_120000_My Talk.webm", ts));
    assert!(is_download_artifact("yt_download_20240101_120000", ts));
    // Another download's files do not match.
    assert!(!is_download_artifact("yt_download_20240101_120001_My Talk.webm", ts));
    // Unrelated files do not match.
    assert!(!is_download_artifact("My Talk.webm", ts));
    assert!(!is_download_artifact("yt_download_2024", ts));
}
