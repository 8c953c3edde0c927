use whisper_client::utils::is_supported_audio_format;

#[test]
fn utils_test_supported_audio_formats() {
    let test_files = vec![
        ("test.mp3", true),
        ("test.wav", true),
        ("test.m4a", true),
        ("test.ogg", true),
        ("test.flac", true),
        ("test.txt", false),
        ("test.pdf", false),
        ("test", false),
    ];

    for (file, expected) in test_files {
        assert_eq!(
            is_supported_audio_format(file),
            expected,
            "Failed for file: {}",
            file
        );
    }
}

#[test]
fn test_extension_edge_cases() {
    // A leading dot opens a hidden file, not an extension.
    assert!(!is_supported_audio_format(".mp3"));
    assert!(!is_supported_audio_format("dir/.mp3"));
    // A trailing dot leaves an empty extension.
    assert!(!is_supported_audio_format("test."));
    // Only the last dot counts.
    assert!(is_supported_audio_format("archive.tar.mp3"));
    assert!(!is_supported_audio_format("song.mp3.txt"));
    // The extension comes from the file name, not from a directory.
    assert!(!is_supported_audio_format("dir.mp3/readme"));
    assert!(!is_supported_audio_format(""));
}
