use vstd::prelude::*;

verus! {

// ---------------------------------------------------------------------------
// Job status
//
// The server reports a job's status as a free-form string token.  The client
// models the known tokens as a tagged union and keeps every other token in an
// `Unrecognized` bucket, so that new server-side states are tolerated rather
// than rejected.
// ---------------------------------------------------------------------------

/// The status of a server-side transcription job, as last observed.
#[derive(Debug, Clone, PartialEq, Eq)]
pub enum JobStatus {
    Queued,
    Processing,
    Completed,
    Failed,
    Terminated,
    Cancelled,
    /// A status token this client does not know; kept verbatim.
    Unrecognized(String),
}

/// Spec-level picture of a `JobStatus`.
pub ghost enum JobStatusView {
    Queued,
    Processing,
    Completed,
    Failed,
    Terminated,
    Cancelled,
    Unrecognized(Seq<char>),
}

impl View for JobStatus {
    type V = JobStatusView;

    open spec fn view(&self) -> JobStatusView {
        match self {
            JobStatus::Queued => JobStatusView::Queued,
            JobStatus::Processing => JobStatusView::Processing,
            JobStatus::Completed => JobStatusView::Completed,
            JobStatus::Failed => JobStatusView::Failed,
            JobStatus::Terminated => JobStatusView::Terminated,
            JobStatus::Cancelled => JobStatusView::Cancelled,
            JobStatus::Unrecognized(s) => JobStatusView::Unrecognized(s@),
        }
    }
}

/// The status that a given status token denotes.
pub open spec fn status_of_token(s: Seq<char>) -> JobStatusView {
    if s == "queued"@ {
        JobStatusView::Queued
    } else if s == "processing"@ {
        JobStatusView::Processing
    } else if s == "completed"@ {
        JobStatusView::Completed
    } else if s == "failed"@ {
        JobStatusView::Failed
    } else if s == "terminated"@ {
        JobStatusView::Terminated
    } else if s == "cancelled"@ {
        JobStatusView::Cancelled
    } else {
        JobStatusView::Unrecognized(s)
    }
}

/// Whether two strings hold the same characters.
fn str_eq(a: &str, b: &str) -> (r: bool)
    ensures
        r == (a@ == b@),
{
    let an = a.unicode_len();
    let bn = b.unicode_len();
    if an != bn {
        assert(a@ != b@) by {
            assert(a@.len() != b@.len());
        }
        return false;
    }
    let mut i: usize = 0;
    while i < an
        invariant
            an == a@.len(),
            an == b@.len(),
            i <= an,
            forall|k: int| 0 <= k < i ==> a@[k] == b@[k],
        decreases an - i,
    {
        if a.get_char(i) != b.get_char(i) {
            return false;
        }
        i = i + 1;
    }
    assert(a@ =~= b@);
    true
}

impl JobStatus {
    /// Classify a status token from the server.
    pub fn from_token(s: &str) -> (r: JobStatus)
        ensures
            r@ == status_of_token(s@),
    {
        if str_eq(s, "queued") {
            JobStatus::Queued
        } else if str_eq(s, "processing") {
            JobStatus::Processing
        } else if str_eq(s, "completed") {
            JobStatus::Completed
        } else if str_eq(s, "failed") {
            JobStatus::Failed
        } else if str_eq(s, "terminated") {
            JobStatus::Terminated
        } else if str_eq(s, "cancelled") {
            JobStatus::Cancelled
        } else {
            JobStatus::Unrecognized(String::from_str(s))
        }
    }

    /// Whether this status, by itself, ends the polling loop.
    pub open spec fn spec_is_terminal(&self) -> bool {
        match self {
            JobStatus::Completed => true,
            JobStatus::Failed => true,
            JobStatus::Terminated => true,
            JobStatus::Cancelled => true,
            _ => false,
        }
    }
}

// ---------------------------------------------------------------------------
// Job data
//
// Durations and percentages arrive from the server as decimal numbers.  The
// client stores them scaled to integers: durations in milliseconds and
// percentages in tenths of a percent, which is exactly the granularity the
// progress-deduplication rule needs.  Model-diagnostic numbers on segments are
// pass-through data and are kept as their decimal text, uninterpreted.
// ---------------------------------------------------------------------------

/// Progress of a processing job.
#[derive(Debug, Clone, PartialEq)]
pub struct Progress {
    /// Total audio duration, in milliseconds.
    pub total_duration_ms: i64,
    /// Processed audio duration, in milliseconds.
    pub processed_duration_ms: i64,
    pub total_chunks: i32,
    pub processed_chunks: i32,
    /// Completion percentage, in tenths of a percent.
    pub percentage_tenths: i64,
}

pub ghost struct ProgressView {
    pub total_duration_ms: i64,
    pub processed_duration_ms: i64,
    pub total_chunks: i32,
    pub processed_chunks: i32,
    pub percentage_tenths: i64,
}

impl View for Progress {
    type V = ProgressView;

    open spec fn view(&self) -> ProgressView {
        ProgressView {
            total_duration_ms: self.total_duration_ms,
            processed_duration_ms: self.processed_duration_ms,
            total_chunks: self.total_chunks,
            processed_chunks: self.processed_chunks,
            percentage_tenths: self.percentage_tenths,
        }
    }
}

/// One transcript segment with its time range and diagnostic numbers.
#[derive(Debug, Clone, PartialEq)]
pub struct Segment {
    pub id: i32,
    pub seek: i32,
    /// Segment start, in milliseconds.
    pub start_ms: i64,
    /// Segment end, in milliseconds.
    pub end_ms: i64,
    pub text: String,
    pub tokens: Vec<i64>,
    /// Decimal text of the sampling temperature, pass-through.
    pub temperature: String,
    /// Decimal text of the average log-probability, pass-through.
    pub avg_logprob: String,
    /// Decimal text of the compression ratio, pass-through.
    pub compression_ratio: String,
    /// Decimal text of the no-speech probability, pass-through.
    pub no_speech_prob: String,
}

pub ghost struct SegmentView {
    pub id: i32,
    pub seek: i32,
    pub start_ms: i64,
    pub end_ms: i64,
    pub text: Seq<char>,
    pub tokens: Seq<i64>,
    pub temperature: Seq<char>,
    pub avg_logprob: Seq<char>,
    pub compression_ratio: Seq<char>,
    pub no_speech_prob: Seq<char>,
}

impl View for Segment {
    type V = SegmentView;

    open spec fn view(&self) -> SegmentView {
        SegmentView {
            id: self.id,
            seek: self.seek,
            start_ms: self.start_ms,
            end_ms: self.end_ms,
            text: self.text@,
            tokens: self.tokens@,
            temperature: self.temperature@,
            avg_logprob: self.avg_logprob@,
            compression_ratio: self.compression_ratio@,
            no_speech_prob: self.no_speech_prob@,
        }
    }
}

/// A finished transcript: the full text plus its ordered segments.
#[derive(Debug, Clone, PartialEq)]
pub struct TranscriptionResponse {
    pub text: String,
    pub segments: Vec<Segment>,
}

pub ghost struct TranscriptionView {
    pub text: Seq<char>,
    pub segments: Seq<SegmentView>,
}

impl View for TranscriptionResponse {
    type V = TranscriptionView;

    open spec fn view(&self) -> TranscriptionView {
        TranscriptionView {
            text: self.text@,
            segments: self.segments@.map_values(|s: Segment| s@),
        }
    }
}

/// Descriptive data about the uploaded file.
#[derive(Debug, Clone, PartialEq)]
pub struct FileInfo {
    pub name: String,
    pub size: i64,
}

pub ghost struct FileInfoView {
    pub name: Seq<char>,
    pub size: i64,
}

impl View for FileInfo {
    type V = FileInfoView;

    open spec fn view(&self) -> FileInfoView {
        FileInfoView { name: self.name@, size: self.size }
    }
}

/// One observed snapshot of a server-side job.
#[derive(Debug, Clone, PartialEq)]
pub struct JobResponse {
    pub job_id: String,
    pub status: JobStatus,
    /// Human-readable server message; empty when the server sent none.
    pub message: String,
    /// Present only when the server reported the job completed.
    pub result: Option<TranscriptionResponse>,
    pub file_info: Option<FileInfo>,
    /// Creation time, in whole unix seconds.
    pub created_at: Option<i64>,
    pub filename: Option<String>,
    pub progress: Option<Progress>,
}

pub ghost struct JobView {
    pub job_id: Seq<char>,
    pub status: JobStatusView,
    pub message: Seq<char>,
    pub result: Option<TranscriptionView>,
    pub file_info: Option<FileInfoView>,
    pub created_at: Option<i64>,
    pub filename: Option<Seq<char>>,
    pub progress: Option<ProgressView>,
}

impl View for JobResponse {
    type V = JobView;

    open spec fn view(&self) -> JobView {
        JobView {
            job_id: self.job_id@,
            status: self.status@,
            message: self.message@,
            result: match &self.result {
                Some(t) => Some(t@),
                None => None,
            },
            file_info: match &self.file_info {
                Some(f) => Some(f@),
                None => None,
            },
            created_at: self.created_at,
            filename: match &self.filename {
                Some(f) => Some(f@),
                None => None,
            },
            progress: match &self.progress {
                Some(p) => Some(p@),
                None => None,
            },
        }
    }
}

} // verus!
