use vstd::prelude::*;

use crate::gateway::{is_not_found, spec_is_not_found, GatewayError};
use crate::models::{JobResponse, JobStatus, Progress};

verus! {

// ---------------------------------------------------------------------------
// The job lifecycle client
//
// After submission the client owns one job and drives it to exactly one
// terminal outcome.  Three independently timed inputs feed the loop: a status
// tick, a slower existence probe, and a one-shot cancellation.  Handling one
// input runs to completion before the next is looked at, so the whole loop is
// one step function from (state, event) to (next state, action) or a final
// outcome.  The driver performs the I/O between steps: it polls, probes,
// issues the terminate call when asked to, and stops at the first outcome.
// ---------------------------------------------------------------------------

/// How the driver times its work: the two poll cadences and the request
/// timeouts, held as explicit values rather than embedded constants so a
/// driver can run the lifecycle against an accelerated clock.
#[derive(Debug, Clone, Copy, PartialEq, Eq, Structural)]
pub struct PollSettings {
    /// Seconds between status ticks.
    pub status_interval_secs: u64,
    /// Seconds between existence probes; independent of the status tick.
    pub existence_interval_secs: u64,
    /// Timeout for the short health check, in seconds.
    pub health_timeout_secs: u64,
    /// Timeout for the upload, in seconds; long, to allow large files.
    pub submit_timeout_secs: u64,
}

impl Default for PollSettings {
    /// The cadence the client observes by default: poll every five seconds,
    /// probe existence every fifteen, give a health check five seconds and
    /// an upload an hour.
    fn default() -> (r: PollSettings)
        ensures
            r.status_interval_secs == 5,
            r.existence_interval_secs == 15,
            r.health_timeout_secs == 5,
            r.submit_timeout_secs == 3600,
    {
        PollSettings {
            status_interval_secs: 5,
            existence_interval_secs: 15,
            health_timeout_secs: 5,
            submit_timeout_secs: 3600,
        }
    }
}

/// What one input to the loop observed.
#[derive(Debug, PartialEq)]
pub enum Event {
    /// A status tick answered, already interpreted by the gateway.
    Status(Result<JobResponse, GatewayError>),
    /// An existence probe answered: found, not found, or failed.
    Existence(Result<bool, GatewayError>),
    /// The user asked to cancel.
    Cancel,
    /// The terminate call issued after a cancellation answered.
    TerminateAnswer(Result<JobResponse, GatewayError>),
}

/// The loop's own state between events.
#[derive(Debug, Clone, Copy, PartialEq, Eq, Structural)]
pub enum LoopState {
    /// Polling; remembers the percentage last shown, in tenths of a percent,
    /// to dedupe progress updates.
    Polling { last_tenths: i64 },
    /// A cancellation arrived; the terminate call's answer is awaited.
    AwaitingTermination,
}

/// What the driver should do after a non-final step.
#[derive(Debug, Clone, PartialEq)]
pub enum Action {
    /// Nothing to show; wait for the next input.
    Idle,
    /// Show this fresh progress snapshot.
    EmitProgress(Progress),
    /// Issue a terminate call and feed its answer back as `TerminateAnswer`.
    Terminate,
}

/// How a finished job lifecycle ended.
#[derive(Debug, Clone, PartialEq)]
pub enum Outcome {
    /// The job completed; the snapshot carries the transcript.
    Completed(JobResponse),
    /// The server reported failure, with its message.
    Failed(String),
    /// The server reported the job terminated, with its message.
    TerminatedByServer(String),
    /// The server reported the job cancelled, with its message.
    CancelledByServer(String),
    /// The job is no longer resolvable on the server.
    Vanished,
    /// The server claimed completion without a transcript: a protocol
    /// violation, never an empty success.
    MissingResult,
    /// The user cancelled; carries the server's message when the terminate
    /// call succeeded.
    UserCancelled(Option<String>),
}

#[derive(Debug, Clone, PartialEq)]
pub enum StepResult {
    /// The loop goes on in this state, after this action.
    Next(LoopState, Action),
    /// The loop is over; nothing runs after this.
    Finished(Outcome),
}

/// Whether a new percentage differs from the last shown one by more than the
/// dedupe threshold of one tenth of a percent.
pub open spec fn progress_changed(last_tenths: int, new_tenths: int) -> bool {
    new_tenths - last_tenths > 1 || last_tenths - new_tenths > 1
}

/// The transition taken on a status-tick answer while polling.
pub open spec fn spec_status_step(last_tenths: i64, job: JobResponse) -> StepResult {
    match job.status {
        JobStatus::Completed => match job.result {
            Some(_) => StepResult::Finished(Outcome::Completed(job)),
            None => StepResult::Finished(Outcome::MissingResult),
        },
        JobStatus::Failed => StepResult::Finished(Outcome::Failed(job.message)),
        JobStatus::Terminated => StepResult::Finished(Outcome::TerminatedByServer(job.message)),
        JobStatus::Cancelled => StepResult::Finished(Outcome::CancelledByServer(job.message)),
        JobStatus::Processing => match job.progress {
            Some(p) => if progress_changed(last_tenths as int, p.percentage_tenths as int) {
                StepResult::Next(
                    LoopState::Polling { last_tenths: p.percentage_tenths },
                    Action::EmitProgress(p),
                )
            } else {
                StepResult::Next(LoopState::Polling { last_tenths }, Action::Idle)
            },
            None => StepResult::Next(LoopState::Polling { last_tenths }, Action::Idle),
        },
        JobStatus::Queued => StepResult::Next(LoopState::Polling { last_tenths }, Action::Idle),
        JobStatus::Unrecognized(_) => StepResult::Next(
            LoopState::Polling { last_tenths },
            Action::Idle,
        ),
    }
}

/// The loop's transition relation: one event in, one step out.
pub open spec fn spec_step(st: LoopState, ev: Event) -> StepResult {
    match st {
        LoopState::Polling { last_tenths } => match ev {
            Event::Status(Ok(job)) => spec_status_step(last_tenths, job),
            Event::Status(Err(e)) => if spec_is_not_found(e@) {
                StepResult::Finished(Outcome::Vanished)
            } else {
                // A transient poll failure is never fatal by itself.
                StepResult::Next(st, Action::Idle)
            },
            Event::Existence(Ok(found)) => if found {
                StepResult::Next(st, Action::Idle)
            } else {
                StepResult::Finished(Outcome::Vanished)
            },
            // A failing probe never fails the job on its own account.
            Event::Existence(Err(_)) => StepResult::Next(st, Action::Idle),
            Event::Cancel => StepResult::Next(LoopState::AwaitingTermination, Action::Terminate),
            // No terminate call is outstanding; nothing to do.
            Event::TerminateAnswer(_) => StepResult::Next(st, Action::Idle),
        },
        LoopState::AwaitingTermination => match ev {
            Event::TerminateAnswer(Ok(job)) => StepResult::Finished(
                Outcome::UserCancelled(Some(job.message)),
            ),
            Event::TerminateAnswer(Err(_)) => StepResult::Finished(Outcome::UserCancelled(None)),
            // The driver stops polling once it was told to terminate; any
            // stray input changes nothing.
            _ => StepResult::Next(LoopState::AwaitingTermination, Action::Idle),
        },
    }
}

/// The state a fresh lifecycle starts in: nothing shown yet.
pub fn initial_state() -> (r: LoopState)
    ensures
        r == (LoopState::Polling { last_tenths: 0i64 }),
{
    LoopState::Polling { last_tenths: 0 }
}

/// Take one step of the lifecycle loop.
pub fn step(st: LoopState, ev: Event) -> (r: StepResult)
    ensures
        r == spec_step(st, ev),
{
    match st {
        LoopState::Polling { last_tenths } => match ev {
            Event::Status(Ok(job)) => status_step(last_tenths, job),
            Event::Status(Err(e)) => {
                if is_not_found(&e) {
                    StepResult::Finished(Outcome::Vanished)
                } else {
                    StepResult::Next(st, Action::Idle)
                }
            },
            Event::Existence(Ok(found)) => {
                if found {
                    StepResult::Next(st, Action::Idle)
                } else {
                    StepResult::Finished(Outcome::Vanished)
                }
            },
            Event::Existence(Err(_)) => StepResult::Next(st, Action::Idle),
            Event::Cancel => StepResult::Next(LoopState::AwaitingTermination, Action::Terminate),
            Event::TerminateAnswer(_) => StepResult::Next(st, Action::Idle),
        },
        LoopState::AwaitingTermination => match ev {
            Event::TerminateAnswer(Ok(job)) => StepResult::Finished(
                Outcome::UserCancelled(Some(job.message)),
            ),
            Event::TerminateAnswer(Err(_)) => StepResult::Finished(Outcome::UserCancelled(None)),
            _ => StepResult::Next(LoopState::AwaitingTermination, Action::Idle),
        },
    }
}

fn status_step(last_tenths: i64, job: JobResponse) -> (r: StepResult)
    ensures
        r == spec_status_step(last_tenths, job),
{
    match &job.status {
        JobStatus::Completed => {
            if job.result.is_some() {
                StepResult::Finished(Outcome::Completed(job))
            } else {
                StepResult::Finished(Outcome::MissingResult)
            }
        },
        JobStatus::Failed => StepResult::Finished(Outcome::Failed(job.message)),
        JobStatus::Terminated => StepResult::Finished(Outcome::TerminatedByServer(job.message)),
        JobStatus::Cancelled => StepResult::Finished(Outcome::CancelledByServer(job.message)),
        JobStatus::Processing => match job.progress {
            Some(p) => {
                let diff: i128 = p.percentage_tenths as i128 - last_tenths as i128;
                if diff > 1 || diff < -1 {
                    StepResult::Next(
                        LoopState::Polling { last_tenths: p.percentage_tenths },
                        Action::EmitProgress(p),
                    )
                } else {
                    StepResult::Next(LoopState::Polling { last_tenths }, Action::Idle)
                }
            },
            None => StepResult::Next(LoopState::Polling { last_tenths }, Action::Idle),
        },
        JobStatus::Queued => StepResult::Next(LoopState::Polling { last_tenths }, Action::Idle),
        JobStatus::Unrecognized(_) => StepResult::Next(
            LoopState::Polling { last_tenths },
            Action::Idle,
        ),
    }
}

/// Read an existence probe's raw answer as found / not found: any answer at
/// all means the job exists; a not-found failure means it does not; any
/// other failure is handed back.
pub fn check_job_exists(r: Result<JobResponse, GatewayError>) -> (out: Result<bool, GatewayError>)
    ensures
        r is Ok ==> out == Ok::<bool, GatewayError>(true),
        r matches Err(e) ==> out == (if spec_is_not_found(e@) {
            Ok::<bool, GatewayError>(false)
        } else {
            Err::<bool, GatewayError>(e)
        }),
{
    match r {
        Ok(_) => Ok(true),
        Err(e) => {
            if is_not_found(&e) {
                Ok(false)
            } else {
                Err(e)
            }
        },
    }
}

// ---------------------------------------------------------------------------
// Runs: the loop as a whole
//
// The driver feeds events one at a time and stops at the first `Finished`.
// A run folds that over an event sequence, so statements about whole
// lifecycles (the loop ends exactly once, cancellation terminates exactly
// once) can be made and proved.
// ---------------------------------------------------------------------------

/// The outcome a run reaches, if the events suffice to finish it.
pub open spec fn run_outcome(st: LoopState, evs: Seq<Event>) -> Option<Outcome>
    decreases evs.len(),
{
    if evs.len() == 0 {
        None
    } else {
        match spec_step(st, evs[0]) {
            StepResult::Next(st2, _) => run_outcome(st2, evs.drop_first()),
            StepResult::Finished(o) => Some(o),
        }
    }
}

/// How many terminate calls a run asks the driver for.
pub open spec fn run_terminate_count(st: LoopState, evs: Seq<Event>) -> nat
    decreases evs.len(),
{
    if evs.len() == 0 {
        0
    } else {
        match spec_step(st, evs[0]) {
            StepResult::Next(st2, a) => (if a is Terminate {
                1nat
            } else {
                0nat
            }) + run_terminate_count(st2, evs.drop_first()),
            StepResult::Finished(_) => 0,
        }
    }
}

// ---------------------------------------------------------------------------
// What the lifecycle guarantees
// ---------------------------------------------------------------------------

/// Each recognized terminal status ends the loop at once, with the outcome
/// of the same flavor carrying the server's message; nothing runs after a
/// `Finished` step, so the loop can never continue past one.
pub proof fn lemma_terminal_status_ends_loop(last_tenths: i64, job: JobResponse)
    requires
        job.status.spec_is_terminal(),
    ensures
        spec_step(LoopState::Polling { last_tenths }, Event::Status(Ok(job))) is Finished,
        job.status is Failed ==> spec_step(LoopState::Polling { last_tenths }, Event::Status(Ok(job)))
            == StepResult::Finished(Outcome::Failed(job.message)),
        job.status is Terminated ==> spec_step(
            LoopState::Polling { last_tenths },
            Event::Status(Ok(job)),
        ) == StepResult::Finished(Outcome::TerminatedByServer(job.message)),
        job.status is Cancelled ==> spec_step(
            LoopState::Polling { last_tenths },
            Event::Status(Ok(job)),
        ) == StepResult::Finished(Outcome::CancelledByServer(job.message)),
        job.status is Completed && job.result is Some ==> spec_step(
            LoopState::Polling { last_tenths },
            Event::Status(Ok(job)),
        ) == StepResult::Finished(Outcome::Completed(job)),
{
}

/// A `completed` status without a transcript is a protocol violation: it
/// yields `MissingResult`, never a silently empty success.
pub proof fn lemma_completed_without_result(last_tenths: i64, job: JobResponse)
    requires
        job.status is Completed,
        job.result is None,
    ensures
        spec_step(LoopState::Polling { last_tenths }, Event::Status(Ok(job)))
            == StepResult::Finished(Outcome::MissingResult),
{
}

/// An unrecognized status string never ends the loop: the step keeps
/// polling, in the same state.
pub proof fn lemma_unrecognized_keeps_polling(last_tenths: i64, job: JobResponse)
    requires
        job.status is Unrecognized,
    ensures
        spec_step(LoopState::Polling { last_tenths }, Event::Status(Ok(job))) == StepResult::Next(
            LoopState::Polling { last_tenths },
            Action::Idle,
        ),
{
}

/// A whole stream of unrecognized statuses never ends the loop: it polls
/// indefinitely until some recognized terminal state or existence failure
/// arrives.
pub proof fn lemma_unrecognized_stream_never_finishes(st: LoopState, evs: Seq<Event>)
    requires
        st is Polling,
        forall|i: int|
            0 <= i < evs.len() ==> ((#[trigger] evs[i]) matches Event::Status(Ok(job))
                && job.status is Unrecognized),
    ensures
        run_outcome(st, evs) is None,
    decreases evs.len(),
{
    if evs.len() > 0 {
        let rest = evs.drop_first();
        assert(forall|i: int| 0 <= i < rest.len() ==> rest[i] == evs[i + 1]);
        match spec_step(st, evs[0]) {
            StepResult::Next(st2, _) => {
                lemma_unrecognized_stream_never_finishes(st2, rest);
            },
            StepResult::Finished(_) => {},
        }
    }
}

/// A not-found signal ends the loop in `Vanished`, whichever timer noticed:
/// a failing status tick or an existence probe that found nothing.
pub proof fn lemma_not_found_vanishes(last_tenths: i64, e: GatewayError)
    requires
        spec_is_not_found(e@),
    ensures
        spec_step(LoopState::Polling { last_tenths }, Event::Status(Err(e)))
            == StepResult::Finished(Outcome::Vanished),
        spec_step(LoopState::Polling { last_tenths }, Event::Existence(Ok(false)))
            == StepResult::Finished(Outcome::Vanished),
{
}

/// Progress is shown exactly when the percentage moved by more than one
/// tenth of a percent since the last shown value; the shown value then
/// becomes the new reference, and an unchanged percentage shows nothing.
pub proof fn lemma_progress_dedupe(last_tenths: i64, job: JobResponse)
    requires
        job.status is Processing,
        job.progress is Some,
    ensures
        progress_changed(
            last_tenths as int,
            (job.progress->Some_0).percentage_tenths as int,
        ) ==> spec_step(LoopState::Polling { last_tenths }, Event::Status(Ok(job)))
            == StepResult::Next(
            LoopState::Polling { last_tenths: (job.progress->Some_0).percentage_tenths },
            Action::EmitProgress(job.progress->Some_0),
        ),
        !progress_changed(
            last_tenths as int,
            (job.progress->Some_0).percentage_tenths as int,
        ) ==> spec_step(LoopState::Polling { last_tenths }, Event::Status(Ok(job)))
            == StepResult::Next(LoopState::Polling { last_tenths }, Action::Idle),
        (job.progress->Some_0).percentage_tenths == last_tenths ==> spec_step(
            LoopState::Polling { last_tenths },
            Event::Status(Ok(job)),
        ) == StepResult::Next(LoopState::Polling { last_tenths }, Action::Idle),
{
}

/// A cancellation asks for exactly one terminate call, and the loop then
/// ends in `UserCancelled` whatever that call answers — with the server's
/// message when it succeeded.
pub proof fn lemma_cancellation(last_tenths: i64, job: JobResponse, e: GatewayError)
    ensures
        spec_step(LoopState::Polling { last_tenths }, Event::Cancel) == StepResult::Next(
            LoopState::AwaitingTermination,
            Action::Terminate,
        ),
        spec_step(LoopState::AwaitingTermination, Event::TerminateAnswer(Ok(job)))
            == StepResult::Finished(Outcome::UserCancelled(Some(job.message))),
        spec_step(LoopState::AwaitingTermination, Event::TerminateAnswer(Err(e)))
            == StepResult::Finished(Outcome::UserCancelled(None)),
{
}

/// Over any whole run, the driver is asked for at most one terminate call;
/// and when the first event of a polling run is the cancellation, exactly
/// one.
pub proof fn lemma_terminate_at_most_once(st: LoopState, evs: Seq<Event>)
    ensures
        run_terminate_count(st, evs) <= 1,
        st is AwaitingTermination ==> run_terminate_count(st, evs) == 0,
        st is Polling && evs.len() > 0 && evs[0] is Cancel ==> run_terminate_count(st, evs) == 1,
    decreases evs.len(),
{
    if evs.len() > 0 {
        match spec_step(st, evs[0]) {
            StepResult::Next(st2, _) => {
                lemma_terminate_at_most_once(st2, evs.drop_first());
            },
            StepResult::Finished(_) => {},
        }
    }
}

/// Reading a terminal snapshot does not depend on anything the client
/// accumulated while polling: two loops that showed different progress end
/// the same way on the same snapshot, so repeated terminal reads yield the
/// same outcome.
pub proof fn lemma_terminal_read_state_independent(a: i64, b: i64, job: JobResponse)
    requires
        job.status.spec_is_terminal(),
    ensures
        spec_step(LoopState::Polling { last_tenths: a }, Event::Status(Ok(job))) == spec_step(
            LoopState::Polling { last_tenths: b },
            Event::Status(Ok(job)),
        ),
{
}

} // verus!
