use whisper_client::decode::decode_jobs_list;
use whisper_client::gateway::{interpret_health, interpret_job_response, interpret_list_response, is_not_found, GatewayError};
use whisper_client::models::JobStatus;

#[test]
fn test_list_decodes_well_formed_object() {
    let jobs = decode_jobs_list("{\"jobs\":[{\"job_id\":\"a\",\"status\":\"completed\",\"message\":\"\"}]}").unwrap();
    assert_eq!(jobs.len(), 1);
    assert_eq!(jobs[0].job_id, "a");
    assert_eq!(jobs[0].status, JobStatus::Completed);
    assert_eq!(jobs[0].message, "");
}

#[test]
fn test_list_repairs_missing_brace() {
    let jobs = decode_jobs_list("\"jobs\":[{\"job_id\":\"b\",\"status\":\"queued\"}]}").unwrap();
    assert_eq!(jobs.len(), 1);
    assert_eq!(jobs[0].job_id, "b");
    assert_eq!(jobs[0].status, JobStatus::Queued);
    // A missing message defaults to empty.
    assert_eq!(jobs[0].message, "");
}

#[test]
fn test_list_degrades_to_empty_on_non_json() {
    let jobs = decode_jobs_list("not json at all").unwrap();
    assert!(jobs.is_empty());
}

#[test]
fn test_list_bad_job_is_an_error() {
    let err = decode_jobs_list("{\"jobs\":[{\"job_id\":1,\"status\":\"queued\"}]}").unwrap_err();
    assert_eq!(err, "Failed to parse jobs array");
}

#[test]
fn test_list_jobs_field_not_an_array() {
    let err = decode_jobs_list("{\"jobs\": 5}").unwrap_err();
    assert_eq!(err, "Failed to parse as direct jobs array");
}

#[test]
fn test_job_response_full() {
    let body = "{\"job_id\":\"x\",\"status\":\"processing\",\"message\":\"working\",\"progress\":{\"total_duration\":120.5,\"processed_duration\":60.25,\"total_chunks\":10,\"processed_chunks\":5,\"percentage\":45.2},\"created_at\":1234567890.0,\"filename\":\"a.mp3\",\"file_info\":{\"name\":\"a.mp3\",\"size\":1000}}";
    let job = interpret_job_response(200, body.to_string()).unwrap();
    assert_eq!(job.job_id, "x");
    assert_eq!(job.status, JobStatus::Processing);
    assert_eq!(job.message, "working");
    let p = job.progress.unwrap();
    assert_eq!(p.total_duration_ms, 120500);
    assert_eq!(p.processed_duration_ms, 60250);
    assert_eq!(p.total_chunks, 10);
    assert_eq!(p.processed_chunks, 5);
    assert_eq!(p.percentage_tenths, 452);
    assert_eq!(job.created_at, Some(1234567890));
    assert_eq!(job.filename.as_deref(), Some("a.mp3"));
    let fi = job.file_info.unwrap();
    assert_eq!(fi.name, "a.mp3");
    assert_eq!(fi.size, 1000);
    assert!(job.result.is_none());
}

#[test]
fn test_job_response_with_transcript() {
    let body = "{\"job_id\":\"y\",\"status\":\"completed\",\"result\":{\"text\":\"hi there\",\"segments\":[{\"id\":0,\"seek\":0,\"start\":0.0,\"end\":2.5,\"text\":\"hi there\",\"tokens\":[1,2],\"temperature\":0.0,\"avg_logprob\":-0.5,\"compression_ratio\":1.0,\"no_speech_prob\":0.1}]}}";
    let job = interpret_job_response(200, body.to_string()).unwrap();
    assert_eq!(job.status, JobStatus::Completed);
    let t = job.result.unwrap();
    assert_eq!(t.text, "hi there");
    assert_eq!(t.segments.len(), 1);
    let s = &t.segments[0];
    assert_eq!(s.id, 0);
    assert_eq!(s.seek, 0);
    assert_eq!(s.start_ms, 0);
    assert_eq!(s.end_ms, 2500);
    assert_eq!(s.text, "hi there");
    assert_eq!(s.tokens, vec![1, 2]);
    // Diagnostic numbers pass through as their decimal text.
    assert_eq!(s.temperature, "0.0");
    assert_eq!(s.avg_logprob, "-0.5");
    assert_eq!(s.compression_ratio, "1.0");
    assert_eq!(s.no_speech_prob, "0.1");
}

#[test]
fn test_job_response_null_optionals() {
    let body = "{\"job_id\":\"z\",\"status\":\"queued\",\"result\":null,\"progress\":null,\"filename\":null}";
    let job = interpret_job_response(200, body.to_string()).unwrap();
    assert!(job.result.is_none());
    assert!(job.progress.is_none());
    assert!(job.filename.is_none());
}

#[test]
fn test_job_response_unrecognized_status() {
    let body = "{\"job_id\":\"z\",\"status\":\"warming_up\"}";
    let job = interpret_job_response(200, body.to_string()).unwrap();
    assert_eq!(job.status, JobStatus::Unrecognized("warming_up".to_string()));
}

#[test]
fn test_job_response_service_error() {
    let err = interpret_job_response(404, "job not found".to_string()).unwrap_err();
    assert!(is_not_found(&err));
    assert_eq!(err, GatewayError::Service { code: 404, body: "job not found".to_string() });
    let err = interpret_job_response(500, "boom".to_string()).unwrap_err();
    assert!(!is_not_found(&err));
}

#[test]
fn test_job_response_decode_errors() {
    let err = interpret_job_response(200, "garbage".to_string()).unwrap_err();
    assert_eq!(err, GatewayError::Decode("Failed to parse job status response".to_string()));
    // A required field of the wrong type fails the decode.
    let err = interpret_job_response(200, "{\"job_id\":7,\"status\":\"queued\"}".to_string()).unwrap_err();
    assert!(matches!(err, GatewayError::Decode(_)));
    // A null message is not a missing message.
    let err = interpret_job_response(200, "{\"job_id\":\"a\",\"status\":\"queued\",\"message\":null}".to_string()).unwrap_err();
    assert!(matches!(err, GatewayError::Decode(_)));
    // A malformed result is an error, not an absent result.
    let err = interpret_job_response(200, "{\"job_id\":\"a\",\"status\":\"queued\",\"result\":5}".to_string()).unwrap_err();
    assert!(matches!(err, GatewayError::Decode(_)));
}

#[test]
fn test_health_interpretation() {
    assert!(interpret_health(200, String::new()).is_ok());
    assert!(interpret_health(204, String::new()).is_ok());
    let err = interpret_health(503, "down".to_string()).unwrap_err();
    assert_eq!(err, GatewayError::Service { code: 503, body: "down".to_string() });
}

#[test]
fn test_list_interpretation() {
    let jobs = interpret_list_response(200, "{\"jobs\":[]}".to_string()).unwrap();
    assert!(jobs.is_empty());
    let err = interpret_list_response(500, "oops".to_string()).unwrap_err();
    assert_eq!(err, GatewayError::Service { code: 500, body: "oops".to_string() });
    let err = interpret_list_response(200, "{\"jobs\":[null]}".to_string()).unwrap_err();
    assert_eq!(err, GatewayError::Decode("Failed to parse jobs array".to_string()));
}
