use vstd::prelude::*;

pub mod config;
pub mod decode;
pub mod gateway;
pub mod json;
pub mod lifecycle;
pub mod models;
pub mod numbers;
pub mod report;
pub mod utils;
pub mod youtube;

verus! {

/// The command a user asked for.
#[derive(Debug, Clone, PartialEq, Eq)]
pub enum Command {
    /// Transcribe an audio file or a directory of audio files.
    Transcribe,
    /// List all jobs.
    ListJobs,
    /// Get the status of one job.
    Status,
    /// Terminate one job.
    Terminate,
    /// Show service information and available commands.
    Info,
}

/// The parsed command line.
#[derive(Debug, Clone, PartialEq)]
pub struct Args {
    /// Command to execute; `None` falls back to `Info`.
    pub command: Option<Command>,
    /// Path to an audio file or a directory of audio files.
    pub path: Option<String>,
    /// Process a directory recursively.
    pub recursive: bool,
    /// Job id, for the status and terminate commands.
    pub job_id: Option<String>,
    /// Show detailed output including segments.
    pub verbose: bool,
}

impl Default for Args {
    /// With no arguments at all, show the service information.
    fn default() -> (r: Args)
        ensures
            r.command == Some(Command::Info),
            r.path is None,
            !r.recursive,
            r.job_id is None,
            !r.verbose,
    {
        Args {
            command: Some(Command::Info),
            path: None,
            recursive: false,
            job_id: None,
            verbose: false,
        }
    }
}

} // verus!
