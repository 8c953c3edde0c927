use whisper_client::models::{
    FileInfo, JobResponse, JobStatus, Segment, TranscriptionResponse,
};
use whisper_client::report::render_markdown;

fn segment(id: i32, start_ms: i64, end_ms: i64, text: &str) -> Segment {
    Segment {
        id,
        seek: 0,
        start_ms,
        end_ms,
        text: text.to_string(),
        tokens: vec![1, 2],
        temperature: "0.0".to_string(),
        avg_logprob: "-0.5".to_string(),
        compression_ratio: "1.0".to_string(),
        no_speech_prob: "0.1".to_string(),
    }
}

fn sample_job(result: TranscriptionResponse) -> JobResponse {
    JobResponse {
        job_id: "test-job".to_string(),
        status: JobStatus::Completed,
        message: String::new(),
        result: Some(result.clone()),
        file_info: Some(FileInfo { name: "test_audio.mp3".to_string(), size: 1000 }),
        created_at: Some(1234567890),
        filename: Some("test_audio.mp3".to_string()),
        progress: None,
    }
}

#[test]
fn test_render_markdown() {
    let response = TranscriptionResponse {
        text: "This is a test transcription.".to_string(),
        segments: vec![
            segment(0, 0, 2500, "This is"),
            segment(1, 2500, 5000, "a test transcription."),
        ],
    };
    let job = sample_job(response.clone());

    let content = render_markdown(&response, "test_audio.mp3", &job);

    assert!(content.contains("This is a test transcription."));
    assert!(content.contains("## Audio File Information"));
    assert!(content.contains("- **Source File:** test_audio.mp3"));
    assert!(content.contains("- **File Size:** 1000 bytes"));
    assert!(content.contains("- **Duration:** 0:05"));
    // 1234567890 unix seconds is 2009-02-13 23:31:30 UTC.
    assert!(content.contains("- **Transcribed:** 2009-02-13 23:31:30"));
}

#[test]
fn test_render_markdown_minimal_job() {
    let response = TranscriptionResponse { text: "words".to_string(), segments: vec![] };
    let mut job = sample_job(response.clone());
    job.file_info = None;
    job.created_at = None;

    let content = render_markdown(&response, "words.wav", &job);

    assert!(content.starts_with("words\n\n---\n\n"));
    assert!(content.contains("- **Source File:** words.wav"));
    // No file info, no size line; no timestamp, no transcribed line.
    assert!(!content.contains("File Size"));
    assert!(!content.contains("Transcribed"));
    // Without segments the duration is zero.
    assert!(content.contains("- **Duration:** 0:00"));
}

#[test]
fn test_render_markdown_rounds_seconds() {
    // 59.7 seconds rounds up within the minute, as minutes and seconds are
    // computed independently.
    let response = TranscriptionResponse {
        text: "t".to_string(),
        segments: vec![segment(0, 0, 59700, "t")],
    };
    let mut job = sample_job(response.clone());
    job.created_at = None;
    let content = render_markdown(&response, "a.mp3", &job);
    assert!(content.contains("- **Duration:** 0:60"));

    // 61.2 seconds is one minute and one second.
    let response = TranscriptionResponse {
        text: "t".to_string(),
        segments: vec![segment(0, 0, 61200, "t")],
    };
    let mut job = sample_job(response.clone());
    job.created_at = None;
    let content = render_markdown(&response, "a.mp3", &job);
    assert!(content.contains("- **Duration:** 1:01"));
}

#[test]
fn test_render_markdown_out_of_range_timestamp() {
    let response = TranscriptionResponse { text: "t".to_string(), segments: vec![] };
    let mut job = sample_job(response.clone());
    // Far beyond what a calendar can represent.
    job.created_at = Some(i64::MAX);
    let content = render_markdown(&response, "a.mp3", &job);
    assert!(content.contains("- **Transcribed:** Unknown"));
}
