use whisper_client::utils::is_supported_audio_format;

#[test]
fn audio_format_test_test_supported_audio_formats() {
    // Test all supported formats
    let formats = vec![
        ("test.mp3", true),
        ("test.wav", true),
        ("test.m4a", true),
        ("test.ogg", true),
        ("test.flac", true),
        ("test.mkv", true),
        ("test.mp4", true),
        ("test.txt", false),
        ("test.pdf", false),
        ("test", false),
        // Test case variations
        ("test.M4A", true),
        ("test.M4a", true),
        ("TEST.M4A", true),
        // Test with paths
        ("path/to/audio.m4a", true),
        ("/absolute/path/to/audio.m4a", true),
        // Test with spaces and special characters
        ("my audio file.m4a", true),
        ("audio-file_123.m4a", true),
    ];

    for (file, expected) in formats {
        assert_eq!(
            is_supported_audio_format(file),
            expected,
            "Failed for file: {}",
            file
        );
    }
}
