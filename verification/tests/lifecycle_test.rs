use whisper_client::gateway::GatewayError;
use whisper_client::lifecycle::{
    check_job_exists, initial_state, step, Action, Event, LoopState, Outcome, StepResult,
};
use whisper_client::models::{
    JobResponse, JobStatus, Progress, Segment, TranscriptionResponse,
};

fn job(status: JobStatus) -> JobResponse {
    JobResponse {
        job_id: "job-1".to_string(),
        status,
        message: String::new(),
        result: None,
        file_info: None,
        created_at: None,
        filename: None,
        progress: None,
    }
}

fn job_with_message(status: JobStatus, message: &str) -> JobResponse {
    JobResponse { message: message.to_string(), ..job(status) }
}

fn transcript() -> TranscriptionResponse {
    TranscriptionResponse {
        text: "hello".to_string(),
        segments: vec![Segment {
            id: 0,
            seek: 0,
            start_ms: 0,
            end_ms: 1500,
            text: "hello".to_string(),
            tokens: vec![1],
            temperature: "0.0".to_string(),
            avg_logprob: "-0.5".to_string(),
            compression_ratio: "1.0".to_string(),
            no_speech_prob: "0.1".to_string(),
        }],
    }
}

fn processing_with(percentage_tenths: i64) -> JobResponse {
    JobResponse {
        progress: Some(Progress {
            total_duration_ms: 120000,
            processed_duration_ms: 60000,
            total_chunks: 10,
            processed_chunks: 5,
            percentage_tenths,
        }),
        ..job(JobStatus::Processing)
    }
}

fn not_found_error() -> GatewayError {
    GatewayError::Service { code: 404, body: "job not found".to_string() }
}

#[test]
fn test_terminal_statuses_finish_the_loop() {
    let st = initial_state();
    let r = step(st, Event::Status(Ok(job_with_message(JobStatus::Failed, "bad audio"))));
    assert_eq!(r, StepResult::Finished(Outcome::Failed("bad audio".to_string())));

    let r = step(st, Event::Status(Ok(job_with_message(JobStatus::Terminated, "killed"))));
    assert_eq!(r, StepResult::Finished(Outcome::TerminatedByServer("killed".to_string())));

    let r = step(st, Event::Status(Ok(job_with_message(JobStatus::Cancelled, "stopped"))));
    assert_eq!(r, StepResult::Finished(Outcome::CancelledByServer("stopped".to_string())));

    let mut done = job(JobStatus::Completed);
    done.result = Some(transcript());
    let r = step(st, Event::Status(Ok(done.clone())));
    assert_eq!(r, StepResult::Finished(Outcome::Completed(done)));
}

#[test]
fn test_completed_without_result_is_missing_result() {
    let r = step(initial_state(), Event::Status(Ok(job(JobStatus::Completed))));
    assert_eq!(r, StepResult::Finished(Outcome::MissingResult));
}

#[test]
fn test_unrecognized_status_keeps_polling() {
    let st = LoopState::Polling { last_tenths: 450 };
    for token in ["warming_up", "paused", ""] {
        let r = step(st, Event::Status(Ok(job(JobStatus::Unrecognized(token.to_string())))));
        assert_eq!(r, StepResult::Next(st, Action::Idle));
    }
    // Queued and transient failures keep polling too.
    let r = step(st, Event::Status(Ok(job(JobStatus::Queued))));
    assert_eq!(r, StepResult::Next(st, Action::Idle));
    let transient = GatewayError::Connection("timed out".to_string());
    let r = step(st, Event::Status(Err(transient)));
    assert_eq!(r, StepResult::Next(st, Action::Idle));
}

#[test]
fn test_not_found_vanishes_from_either_timer() {
    let st = LoopState::Polling { last_tenths: 120 };
    // The status tick noticed.
    let r = step(st, Event::Status(Err(not_found_error())));
    assert_eq!(r, StepResult::Finished(Outcome::Vanished));
    // The existence probe noticed.
    let r = step(st, Event::Existence(Ok(false)));
    assert_eq!(r, StepResult::Finished(Outcome::Vanished));
    // A found job and a failing probe both keep polling.
    let r = step(st, Event::Existence(Ok(true)));
    assert_eq!(r, StepResult::Next(st, Action::Idle));
    let r = step(st, Event::Existence(Err(GatewayError::Connection("flaky".to_string()))));
    assert_eq!(r, StepResult::Next(st, Action::Idle));
}

#[test]
fn test_check_job_exists_classification() {
    assert_eq!(check_job_exists(Ok(job(JobStatus::Queued))), Ok(true));
    assert_eq!(check_job_exists(Err(not_found_error())), Ok(false));
    let other = GatewayError::Service { code: 500, body: "oops".to_string() };
    assert_eq!(check_job_exists(Err(other.clone())), Err(other));
}

#[test]
fn test_progress_dedupe() {
    // From a fresh loop, 45.0 is a change and is shown.
    let r = step(initial_state(), Event::Status(Ok(processing_with(450))));
    let next = match r {
        StepResult::Next(st, Action::EmitProgress(p)) => {
            assert_eq!(p.percentage_tenths, 450);
            st
        },
        other => panic!("expected a progress emission, got {:?}", other),
    };
    assert_eq!(next, LoopState::Polling { last_tenths: 450 });

    // The same 45.0 again is not shown.
    let r = step(next, Event::Status(Ok(processing_with(450))));
    assert_eq!(r, StepResult::Next(next, Action::Idle));

    // 45.1 moved by exactly the threshold: still not shown.
    let r = step(next, Event::Status(Ok(processing_with(451))));
    assert_eq!(r, StepResult::Next(next, Action::Idle));

    // 45.2 moved by more than the threshold: shown, and the reference moves.
    let r = step(next, Event::Status(Ok(processing_with(452))));
    match r {
        StepResult::Next(st, Action::EmitProgress(p)) => {
            assert_eq!(p.percentage_tenths, 452);
            assert_eq!(st, LoopState::Polling { last_tenths: 452 });
        },
        other => panic!("expected a progress emission, got {:?}", other),
    }

    // Progress may also move backward; a big drop is shown too.
    let r = step(next, Event::Status(Ok(processing_with(100))));
    assert!(matches!(r, StepResult::Next(_, Action::EmitProgress(_))));

    // Processing without a progress record shows nothing.
    let r = step(next, Event::Status(Ok(job(JobStatus::Processing))));
    assert_eq!(r, StepResult::Next(next, Action::Idle));
}

#[test]
fn test_cancellation_scenario() {
    // Mid-processing, the user cancels: the step asks for exactly one
    // terminate call and awaits its answer.
    let st = LoopState::Polling { last_tenths: 450 };
    let r = step(st, Event::Cancel);
    assert_eq!(r, StepResult::Next(LoopState::AwaitingTermination, Action::Terminate));

    // A successful terminate call surfaces the server's message.
    let answer = job_with_message(JobStatus::Terminated, "terminated on request");
    let r = step(LoopState::AwaitingTermination, Event::TerminateAnswer(Ok(answer)));
    assert_eq!(
        r,
        StepResult::Finished(Outcome::UserCancelled(Some("terminated on request".to_string())))
    );

    // A failing terminate call still ends the loop as cancelled by the user.
    let failed = GatewayError::Connection("no route".to_string());
    let r = step(LoopState::AwaitingTermination, Event::TerminateAnswer(Err(failed)));
    assert_eq!(r, StepResult::Finished(Outcome::UserCancelled(None)));

    // A second cancellation while awaiting termination asks for nothing more.
    let r = step(LoopState::AwaitingTermination, Event::Cancel);
    assert_eq!(r, StepResult::Next(LoopState::AwaitingTermination, Action::Idle));
}

#[test]
fn test_terminal_read_is_state_independent() {
    // Whatever progress the loop accumulated, the same terminal snapshot
    // ends it the same way.
    let mut done = job(JobStatus::Completed);
    done.result = Some(transcript());
    let a = step(LoopState::Polling { last_tenths: 0 }, Event::Status(Ok(done.clone())));
    let b = step(LoopState::Polling { last_tenths: 777 }, Event::Status(Ok(done.clone())));
    assert_eq!(a, b);
    assert_eq!(a, StepResult::Finished(Outcome::Completed(done)));
}

#[test]
fn test_default_poll_settings() {
    let s = whisper_client::lifecycle::PollSettings::default();
    assert_eq!(s.status_interval_secs, 5);
    assert_eq!(s.existence_interval_secs, 15);
    assert_eq!(s.health_timeout_secs, 5);
    assert_eq!(s.submit_timeout_secs, 3600);
}
