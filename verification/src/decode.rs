use vstd::prelude::*;

use crate::json::{
    array_items, integer_content, is_null_value, json_as_array, json_as_i64, json_as_str,
    json_get, json_is_null, json_number_text, json_text, number_text, object_field, parse_json,
    parsed_json, string_content,
};
use crate::models::{
    FileInfo, FileInfoView, JobResponse, JobStatus, JobView, Progress, ProgressView, Segment,
    SegmentView, TranscriptionResponse, TranscriptionView, status_of_token,
};
use crate::numbers::{parse_decimal, parse_decimal_spec};

verus! {

// ---------------------------------------------------------------------------
// Decoding server responses
//
// The server answers with JSON whose shape is only loosely guaranteed.  The
// decoders below turn a parsed JSON value into the client's typed model,
// mirroring in their contracts, field by field, what they accept and what
// they reject.  All contracts are stated over the canonical serialization of
// the value (see `json`): `job_of(json_text(v))` is the job that a value
// decodes to, if any.
// ---------------------------------------------------------------------------

/// How an object field presented itself.
pub ghost enum FieldLookup {
    Missing,
    Null,
    Present(Seq<char>),
}

/// Look a field up, folding an explicit `null` into its own case.
pub open spec fn field_lookup(val: Seq<char>, key: Seq<char>) -> FieldLookup {
    match object_field(val, key) {
        None => FieldLookup::Missing,
        Some(f) => if is_null_value(f) {
            FieldLookup::Null
        } else {
            FieldLookup::Present(f)
        },
    }
}

/// A required string field: its characters, or `None` when the field is
/// missing or not a string.
pub open spec fn req_string(val: Seq<char>, key: Seq<char>) -> Option<Seq<char>> {
    match object_field(val, key) {
        None => None,
        Some(f) => string_content(f),
    }
}

/// A required decimal-number field read at scale `10^k`.
pub open spec fn req_scaled_number(val: Seq<char>, key: Seq<char>, k: nat) -> Option<i64> {
    match object_field(val, key) {
        None => None,
        Some(f) => match number_text(f) {
            None => None,
            Some(t) => parse_decimal_spec(t, k),
        },
    }
}

/// A required integer field that must fit an `i32`.
pub open spec fn req_i32(val: Seq<char>, key: Seq<char>) -> Option<i32> {
    match object_field(val, key) {
        None => None,
        Some(f) => match integer_content(f) {
            None => None,
            Some(x) => if -0x8000_0000 <= x <= 0x7fff_ffff {
                Some(x as i32)
            } else {
                None
            },
        },
    }
}

/// The element-wise integers of an array, all or nothing.
pub open spec fn ints_of(items: Seq<Seq<char>>) -> Option<Seq<i64>> {
    if forall|i: int| 0 <= i < items.len() ==> integer_content(#[trigger] items[i]) is Some {
        Some(Seq::new(items.len(), |i: int| integer_content(items[i])->Some_0))
    } else {
        None
    }
}

/// The segment a JSON value decodes to, if any.  Every field is required,
/// as the server always writes complete segments.
pub open spec fn segment_of(val: Seq<char>) -> Option<SegmentView> {
    let id = req_i32(val, "id"@);
    let seek = req_i32(val, "seek"@);
    let start_ms = req_scaled_number(val, "start"@, 3);
    let end_ms = req_scaled_number(val, "end"@, 3);
    let text = req_string(val, "text"@);
    let tokens = match object_field(val, "tokens"@) {
        None => None,
        Some(f) => match array_items(f) {
            None => None,
            Some(items) => ints_of(items),
        },
    };
    let temperature = match object_field(val, "temperature"@) {
        None => None,
        Some(f) => number_text(f),
    };
    let avg_logprob = match object_field(val, "avg_logprob"@) {
        None => None,
        Some(f) => number_text(f),
    };
    let compression_ratio = match object_field(val, "compression_ratio"@) {
        None => None,
        Some(f) => number_text(f),
    };
    let no_speech_prob = match object_field(val, "no_speech_prob"@) {
        None => None,
        Some(f) => number_text(f),
    };
    if id is Some && seek is Some && start_ms is Some && end_ms is Some && text is Some
        && tokens is Some && temperature is Some && avg_logprob is Some
        && compression_ratio is Some && no_speech_prob is Some {
        Some(
            SegmentView {
                id: id->Some_0,
                seek: seek->Some_0,
                start_ms: start_ms->Some_0,
                end_ms: end_ms->Some_0,
                text: text->Some_0,
                tokens: tokens->Some_0,
                temperature: temperature->Some_0,
                avg_logprob: avg_logprob->Some_0,
                compression_ratio: compression_ratio->Some_0,
                no_speech_prob: no_speech_prob->Some_0,
            },
        )
    } else {
        None
    }
}

/// The segments of an array, all or nothing.
pub open spec fn segments_of(items: Seq<Seq<char>>) -> Option<Seq<SegmentView>> {
    if forall|i: int| 0 <= i < items.len() ==> segment_of(#[trigger] items[i]) is Some {
        Some(Seq::new(items.len(), |i: int| segment_of(items[i])->Some_0))
    } else {
        None
    }
}

/// The transcript a JSON value decodes to, if any.
pub open spec fn transcript_of(val: Seq<char>) -> Option<TranscriptionView> {
    let text = req_string(val, "text"@);
    let segments = match object_field(val, "segments"@) {
        None => None,
        Some(f) => match array_items(f) {
            None => None,
            Some(items) => segments_of(items),
        },
    };
    if text is Some && segments is Some {
        Some(TranscriptionView { text: text->Some_0, segments: segments->Some_0 })
    } else {
        None
    }
}

/// The progress record a JSON value decodes to, if any.  Durations are read
/// in milliseconds and the percentage in tenths of a percent.
pub open spec fn progress_of(val: Seq<char>) -> Option<ProgressView> {
    let total_duration_ms = req_scaled_number(val, "total_duration"@, 3);
    let processed_duration_ms = req_scaled_number(val, "processed_duration"@, 3);
    let total_chunks = req_i32(val, "total_chunks"@);
    let processed_chunks = req_i32(val, "processed_chunks"@);
    let percentage_tenths = req_scaled_number(val, "percentage"@, 1);
    if total_duration_ms is Some && processed_duration_ms is Some && total_chunks is Some
        && processed_chunks is Some && percentage_tenths is Some {
        Some(
            ProgressView {
                total_duration_ms: total_duration_ms->Some_0,
                processed_duration_ms: processed_duration_ms->Some_0,
                total_chunks: total_chunks->Some_0,
                processed_chunks: processed_chunks->Some_0,
                percentage_tenths: percentage_tenths->Some_0,
            },
        )
    } else {
        None
    }
}

/// The file-info record a JSON value decodes to, if any.
pub open spec fn file_info_of(val: Seq<char>) -> Option<FileInfoView> {
    let name = req_string(val, "name"@);
    let size = match object_field(val, "size"@) {
        None => None,
        Some(f) => integer_content(f),
    };
    if name is Some && size is Some {
        Some(FileInfoView { name: name->Some_0, size: size->Some_0 })
    } else {
        None
    }
}

/// An optional sub-record: `Ok(None)` when missing or null, `Ok(Some(x))`
/// when present and decodable, and `Err(())` when present but malformed.
pub open spec fn opt_of<A>(look: FieldLookup, field_dec: spec_fn(Seq<char>) -> Option<A>) -> Result<
    Option<A>,
    (),
> {
    match look {
        FieldLookup::Missing => Ok(None),
        FieldLookup::Null => Ok(None),
        FieldLookup::Present(f) => match field_dec(f) {
            Some(x) => Ok(Some(x)),
            None => Err(()),
        },
    }
}

/// The job a JSON value decodes to, if any.  `job_id` and `status` are
/// required; `message` defaults to empty; the rest are optional but must
/// decode when present and not null.
pub open spec fn job_of(val: Seq<char>) -> Option<JobView> {
    let job_id = req_string(val, "job_id"@);
    let status = req_string(val, "status"@);
    let message = match field_lookup(val, "message"@) {
        FieldLookup::Missing => Some(Seq::<char>::empty()),
        FieldLookup::Null => None,
        FieldLookup::Present(f) => string_content(f),
    };
    let result = opt_of(field_lookup(val, "result"@), |f: Seq<char>| transcript_of(f));
    let file_info = opt_of(field_lookup(val, "file_info"@), |f: Seq<char>| file_info_of(f));
    let created_at = opt_of(
        field_lookup(val, "created_at"@),
        |f: Seq<char>|
            match number_text(f) {
                None => None,
                Some(t) => parse_decimal_spec(t, 0),
            },
    );
    let filename = opt_of(field_lookup(val, "filename"@), |f: Seq<char>| string_content(f));
    let progress = opt_of(field_lookup(val, "progress"@), |f: Seq<char>| progress_of(f));
    if job_id is Some && status is Some && message is Some && result is Ok && file_info is Ok
        && created_at is Ok && filename is Ok && progress is Ok {
        Some(
            JobView {
                job_id: job_id->Some_0,
                status: status_of_token(status->Some_0),
                message: message->Some_0,
                result: result->Ok_0,
                file_info: file_info->Ok_0,
                created_at: created_at->Ok_0,
                filename: filename->Ok_0,
                progress: progress->Ok_0,
            },
        )
    } else {
        None
    }
}

/// The jobs of an array, all or nothing.
pub open spec fn jobs_of(items: Seq<Seq<char>>) -> Option<Seq<JobView>> {
    if forall|i: int| 0 <= i < items.len() ==> job_of(#[trigger] items[i]) is Some {
        Some(Seq::new(items.len(), |i: int| job_of(items[i])->Some_0))
    } else {
        None
    }
}

// ---------------------------------------------------------------------------
// Executable decoders
// ---------------------------------------------------------------------------

/// Decode one segment.
#[verifier::loop_isolation(false)]
pub fn decode_segment(v: &serde_json::Value) -> (r: Option<Segment>)
    ensures
        r is Some <==> segment_of(json_text(*v)) is Some,
        r is Some ==> (r->Some_0)@ == segment_of(json_text(*v))->Some_0,
{
    let id = match get_i32(v, "id") {
        Some(x) => x,
        None => {
            return None;
        },
    };
    let seek = match get_i32(v, "seek") {
        Some(x) => x,
        None => {
            return None;
        },
    };
    let start_ms = match get_scaled_number(v, "start", 3) {
        Some(x) => x,
        None => {
            return None;
        },
    };
    let end_ms = match get_scaled_number(v, "end", 3) {
        Some(x) => x,
        None => {
            return None;
        },
    };
    let text = match get_string(v, "text") {
        Some(x) => x,
        None => {
            return None;
        },
    };
    let tokens = match get_tokens(v) {
        Some(x) => x,
        None => {
            return None;
        },
    };
    let temperature = match get_number_text(v, "temperature") {
        Some(x) => x,
        None => {
            return None;
        },
    };
    let avg_logprob = match get_number_text(v, "avg_logprob") {
        Some(x) => x,
        None => {
            return None;
        },
    };
    let compression_ratio = match get_number_text(v, "compression_ratio") {
        Some(x) => x,
        None => {
            return None;
        },
    };
    let no_speech_prob = match get_number_text(v, "no_speech_prob") {
        Some(x) => x,
        None => {
            return None;
        },
    };
    Some(
        Segment {
            id,
            seek,
            start_ms,
            end_ms,
            text,
            tokens,
            temperature,
            avg_logprob,
            compression_ratio,
            no_speech_prob,
        },
    )
}

fn get_string(v: &serde_json::Value, key: &str) -> (r: Option<String>)
    ensures
        r is Some <==> req_string(json_text(*v), key@) is Some,
        r is Some ==> (r->Some_0)@ == req_string(json_text(*v), key@)->Some_0,
{
    match json_get(v, key) {
        Some(f) => match json_as_str(f) {
            Some(s) => Some(String::from_str(s)),
            None => None,
        },
        None => None,
    }
}

fn get_number_text(v: &serde_json::Value, key: &str) -> (r: Option<String>)
    ensures
        r is Some <==> (match object_field(json_text(*v), key@) {
            None => None::<Seq<char>>,
            Some(f) => number_text(f),
        }) is Some,
        r is Some ==> Some((r->Some_0)@) == (match object_field(json_text(*v), key@) {
            None => None,
            Some(f) => number_text(f),
        }),
{
    match json_get(v, key) {
        Some(f) => json_number_text(f),
        None => None,
    }
}

fn get_scaled_number(v: &serde_json::Value, key: &str, k: u32) -> (r: Option<i64>)
    requires
        k <= 3,
    ensures
        r == req_scaled_number(json_text(*v), key@, k as nat),
{
    match json_get(v, key) {
        Some(f) => match json_number_text(f) {
            Some(t) => parse_decimal(t.as_str(), k),
            None => None,
        },
        None => None,
    }
}

fn get_i32(v: &serde_json::Value, key: &str) -> (r: Option<i32>)
    ensures
        r == req_i32(json_text(*v), key@),
{
    match json_get(v, key) {
        Some(f) => match json_as_i64(f) {
            Some(x) => {
                if -0x8000_0000 <= x && x <= 0x7fff_ffff {
                    Some(x as i32)
                } else {
                    None
                }
            },
            None => None,
        },
        None => None,
    }
}

/// Decode the required `tokens` array of a segment.
#[verifier::loop_isolation(false)]
fn get_tokens(v: &serde_json::Value) -> (r: Option<Vec<i64>>)
    ensures
        r is Some <==> (match object_field(json_text(*v), "tokens"@) {
            None => None::<Seq<i64>>,
            Some(f) => match array_items(f) {
                None => None,
                Some(items) => ints_of(items),
            },
        }) is Some,
        r is Some ==> Some((r->Some_0)@) == (match object_field(json_text(*v), "tokens"@) {
            None => None,
            Some(f) => match array_items(f) {
                None => None,
                Some(items) => ints_of(items),
            },
        }),
{
    let f = match json_get(v, "tokens") {
        Some(f) => f,
        None => {
            return None;
        },
    };
    let arr = match json_as_array(f) {
        Some(a) => a,
        None => {
            return None;
        },
    };
    let ghost items = array_items(json_text(*f))->Some_0;
    let n = arr.len();
    let mut out: Vec<i64> = Vec::new();
    let mut i: usize = 0;
    while i < n
        invariant
            i <= n,
            out@.len() == i as int,
            forall|m: int| 0 <= m < i ==> integer_content(#[trigger] items[m]) is Some,
            forall|m: int| 0 <= m < i ==> out@[m] == integer_content(items[m])->Some_0,
        decreases n - i,
    {
        match json_as_i64(&arr[i]) {
            Some(x) => {
                out.push(x);
            },
            None => {
                return None;
            },
        }
        i = i + 1;
    }
    proof {
        let spec_out = ints_of(items);
        assert(spec_out is Some);
        assert(out@ =~= spec_out->Some_0);
    }
    Some(out)
}

/// Decode one transcript.
#[verifier::loop_isolation(false)]
pub fn decode_transcript(v: &serde_json::Value) -> (r: Option<TranscriptionResponse>)
    ensures
        r is Some <==> transcript_of(json_text(*v)) is Some,
        r is Some ==> (r->Some_0)@ == transcript_of(json_text(*v))->Some_0,
{
    let text = match get_string(v, "text") {
        Some(t) => t,
        None => {
            return None;
        },
    };
    let f = match json_get(v, "segments") {
        Some(f) => f,
        None => {
            return None;
        },
    };
    let arr = match json_as_array(f) {
        Some(a) => a,
        None => {
            return None;
        },
    };
    let ghost items = array_items(json_text(*f))->Some_0;
    let n = arr.len();
    let mut out: Vec<Segment> = Vec::new();
    let mut i: usize = 0;
    while i < n
        invariant
            i <= n,
            out@.len() == i as int,
            forall|m: int| 0 <= m < i ==> segment_of(#[trigger] items[m]) is Some,
            forall|m: int| 0 <= m < i ==> (#[trigger] out@[m])@ == segment_of(items[m])->Some_0,
        decreases n - i,
    {
        match decode_segment(&arr[i]) {
            Some(s) => {
                out.push(s);
            },
            None => {
                return None;
            },
        }
        i = i + 1;
    }
    proof {
        let spec_segs = segments_of(items);
        assert(spec_segs is Some);
        assert(out@.map_values(|s: Segment| s@) =~= spec_segs->Some_0);
    }
    Some(TranscriptionResponse { text, segments: out })
}

/// Decode one progress record.
pub fn decode_progress(v: &serde_json::Value) -> (r: Option<Progress>)
    ensures
        r is Some <==> progress_of(json_text(*v)) is Some,
        r is Some ==> (r->Some_0)@ == progress_of(json_text(*v))->Some_0,
{
    let total_duration_ms = match get_scaled_number(v, "total_duration", 3) {
        Some(x) => x,
        None => {
            return None;
        },
    };
    let processed_duration_ms = match get_scaled_number(v, "processed_duration", 3) {
        Some(x) => x,
        None => {
            return None;
        },
    };
    let total_chunks = match get_i32(v, "total_chunks") {
        Some(x) => x,
        None => {
            return None;
        },
    };
    let processed_chunks = match get_i32(v, "processed_chunks") {
        Some(x) => x,
        None => {
            return None;
        },
    };
    let percentage_tenths = match get_scaled_number(v, "percentage", 1) {
        Some(x) => x,
        None => {
            return None;
        },
    };
    Some(
        Progress {
            total_duration_ms,
            processed_duration_ms,
            total_chunks,
            processed_chunks,
            percentage_tenths,
        },
    )
}

/// Decode one file-info record.
pub fn decode_file_info(v: &serde_json::Value) -> (r: Option<FileInfo>)
    ensures
        r is Some <==> file_info_of(json_text(*v)) is Some,
        r is Some ==> (r->Some_0)@ == file_info_of(json_text(*v))->Some_0,
{
    let name = match get_string(v, "name") {
        Some(x) => x,
        None => {
            return None;
        },
    };
    let size = match json_get(v, "size") {
        Some(f) => match json_as_i64(f) {
            Some(x) => x,
            None => {
                return None;
            },
        },
        None => {
            return None;
        },
    };
    Some(FileInfo { name, size })
}

/// Decode one job snapshot.
pub fn decode_job(v: &serde_json::Value) -> (r: Option<JobResponse>)
    ensures
        r is Some <==> job_of(json_text(*v)) is Some,
        r is Some ==> (r->Some_0)@ == job_of(json_text(*v))->Some_0,
{
    let job_id = match get_string(v, "job_id") {
        Some(x) => x,
        None => {
            return None;
        },
    };
    let status_text = match get_string(v, "status") {
        Some(x) => x,
        None => {
            return None;
        },
    };
    let status = JobStatus::from_token(status_text.as_str());
    let message = match json_get(v, "message") {
        None => String::new(),
        Some(f) => {
            if json_is_null(f) {
                return None;
            }
            match json_as_str(f) {
                Some(s) => String::from_str(s),
                None => {
                    return None;
                },
            }
        },
    };
    let result = match json_get(v, "result") {
        None => None,
        Some(f) => {
            if json_is_null(f) {
                None
            } else {
                match decode_transcript(f) {
                    Some(t) => Some(t),
                    None => {
                        return None;
                    },
                }
            }
        },
    };
    let file_info = match json_get(v, "file_info") {
        None => None,
        Some(f) => {
            if json_is_null(f) {
                None
            } else {
                match decode_file_info(f) {
                    Some(x) => Some(x),
                    None => {
                        return None;
                    },
                }
            }
        },
    };
    let created_at = match json_get(v, "created_at") {
        None => None,
        Some(f) => {
            if json_is_null(f) {
                None
            } else {
                match json_number_text(f) {
                    Some(t) => match parse_decimal(t.as_str(), 0) {
                        Some(x) => Some(x),
                        None => {
                            return None;
                        },
                    },
                    None => {
                        return None;
                    },
                }
            }
        },
    };
    let filename = match json_get(v, "filename") {
        None => None,
        Some(f) => {
            if json_is_null(f) {
                None
            } else {
                match json_as_str(f) {
                    Some(s) => Some(String::from_str(s)),
                    None => {
                        return None;
                    },
                }
            }
        },
    };
    let progress = match json_get(v, "progress") {
        None => None,
        Some(f) => {
            if json_is_null(f) {
                None
            } else {
                match decode_progress(f) {
                    Some(x) => Some(x),
                    None => {
                        return None;
                    },
                }
            }
        },
    };
    Some(JobResponse { job_id, status, message, result, file_info, created_at, filename, progress })
}

/// Decode every job of an array, all or nothing.
#[verifier::loop_isolation(false)]
fn decode_jobs_array(arr: &Vec<serde_json::Value>, Ghost(items): Ghost<Seq<Seq<char>>>) -> (r:
    Option<Vec<JobResponse>>)
    requires
        arr@.len() == items.len(),
        forall|i: int| 0 <= i < items.len() ==> json_text(#[trigger] arr@[i]) == items[i],
    ensures
        r is Some <==> jobs_of(items) is Some,
        r is Some ==> Some((r->Some_0)@.map_values(|j: JobResponse| j@)) == jobs_of(items),
{
    let n = arr.len();
    let mut out: Vec<JobResponse> = Vec::new();
    let mut i: usize = 0;
    while i < n
        invariant
            i <= n,
            out@.len() == i as int,
            forall|m: int| 0 <= m < i ==> job_of(#[trigger] items[m]) is Some,
            forall|m: int| 0 <= m < i ==> (#[trigger] out@[m])@ == job_of(items[m])->Some_0,
        decreases n - i,
    {
        match decode_job(&arr[i]) {
            Some(j) => {
                out.push(j);
            },
            None => {
                return None;
            },
        }
        i = i + 1;
    }
    proof {
        let spec_jobs = jobs_of(items);
        assert(spec_jobs is Some);
        assert(out@.map_values(|j: JobResponse| j@) =~= spec_jobs->Some_0);
    }
    Some(out)
}

// ---------------------------------------------------------------------------
// The resilient list decoder
//
// A list response may be a well-formed object `{"jobs": [...]}`, a bare
// array, or an object whose opening brace was cut off.  The decoder repairs
// the missing brace, then tries the `jobs` field, then the body as a direct
// array; a body that does not parse at all degrades to an empty list, so a
// broken list endpoint never aborts a workflow that polls elsewhere.
// ---------------------------------------------------------------------------

/// Unicode whitespace, as `str::trim` removes it.
pub open spec fn is_space(c: char) -> bool {
    let u = c as u32;
    u == 0x09 || u == 0x0A || u == 0x0B || u == 0x0C || u == 0x0D || u == 0x20 || u == 0x85
        || u == 0xA0 || u == 0x1680 || (0x2000 <= u && u <= 0x200A) || u == 0x2028 || u == 0x2029
        || u == 0x202F || u == 0x205F || u == 0x3000
}

/// The first non-space position at or after `i`.
pub open spec fn skip_spaces(s: Seq<char>, i: int) -> int
    decreases s.len() - i,
{
    if i < 0 || i >= s.len() {
        s.len() as int
    } else if is_space(s[i]) {
        skip_spaces(s, i + 1)
    } else {
        i
    }
}

/// Whether the body, once trimmed, opens with a brace.
pub open spec fn trimmed_starts_with_brace(s: Seq<char>) -> bool {
    let i = skip_spaces(s, 0);
    i < s.len() && s[i] == '{'
}

/// The body with its missing opening brace restored, when it was missing.
pub open spec fn repaired(body: Seq<char>) -> Seq<char> {
    if trimmed_starts_with_brace(body) {
        body
    } else {
        seq!['{'] + body
    }
}

proof fn lemma_skip_spaces_at(s: Seq<char>, i: int, p: int)
    requires
        0 <= i <= p <= s.len(),
        forall|m: int| i <= m < p ==> is_space(#[trigger] s[m]),
        p < s.len() ==> !is_space(s[p]),
    ensures
        skip_spaces(s, i) == p,
    decreases p - i,
{
    if i < p {
        lemma_skip_spaces_at(s, i + 1, p);
    }
}

fn is_space_exec(c: char) -> (r: bool)
    ensures
        r == is_space(c),
{
    let u = c as u32;
    u == 0x09 || u == 0x0A || u == 0x0B || u == 0x0C || u == 0x0D || u == 0x20 || u == 0x85
        || u == 0xA0 || u == 0x1680 || (0x2000 <= u && u <= 0x200A) || u == 0x2028 || u == 0x2029
        || u == 0x202F || u == 0x205F || u == 0x3000
}

fn starts_with_brace_after_spaces(s: &str) -> (r: bool)
    ensures
        r == trimmed_starts_with_brace(s@),
{
    let n = s.unicode_len();
    let mut i: usize = 0;
    while i < n && is_space_exec(s.get_char(i))
        invariant
            0 <= i <= n,
            n == s@.len(),
            forall|m: int| 0 <= m < i ==> is_space(#[trigger] s@[m]),
        decreases n - i,
    {
        i = i + 1;
    }
    proof {
        lemma_skip_spaces_at(s@, 0, i as int);
    }
    if i < n {
        s.get_char(i) == '{'
    } else {
        false
    }
}

/// Restore a missing opening brace.
pub fn repair_body(s: &str) -> (r: String)
    ensures
        r@ == repaired(s@),
{
    if starts_with_brace_after_spaces(s) {
        String::from_str(s)
    } else {
        let mut r = String::from_str("{");
        r.append(s);
        proof {
            reveal_strlit("{");
            assert(r@ =~= seq!['{'] + s@);
        }
        r
    }
}

/// The direct-array reading of a list body.
pub open spec fn direct_jobs_list(val: Seq<char>) -> Result<Seq<JobView>, Seq<char>> {
    match array_items(val) {
        Some(items) => match jobs_of(items) {
            Some(js) => Ok(js),
            None => Err("Failed to parse as direct jobs array"@),
        },
        None => Err("Failed to parse as direct jobs array"@),
    }
}

/// What decoding a list body yields: the jobs under a `jobs` field, else the
/// body as a direct array, else an empty list when the body is not JSON at
/// all.
pub open spec fn jobs_list_of(body: Seq<char>) -> Result<Seq<JobView>, Seq<char>> {
    match parsed_json(repaired(body)) {
        None => Ok(Seq::empty()),
        Some(val) => match object_field(val, "jobs"@) {
            Some(jf) => if array_items(jf) is Some {
                match jobs_of(array_items(jf)->Some_0) {
                    Some(js) => Ok(js),
                    None => Err("Failed to parse jobs array"@),
                }
            } else {
                direct_jobs_list(val)
            },
            None => direct_jobs_list(val),
        },
    }
}

fn decode_direct(value: &serde_json::Value) -> (r: Result<Vec<JobResponse>, String>)
    ensures
        r is Ok <==> direct_jobs_list(json_text(*value)) is Ok,
        r is Ok ==> Ok::<Seq<JobView>, Seq<char>>((r->Ok_0)@.map_values(|j: JobResponse| j@)) == direct_jobs_list(
            json_text(*value),
        ),
        r is Err ==> (r->Err_0)@ == direct_jobs_list(json_text(*value))->Err_0,
{
    match json_as_array(value) {
        Some(arr) => {
            let ghost items = array_items(json_text(*value))->Some_0;
            match decode_jobs_array(arr, Ghost(items)) {
                Some(js) => Ok(js),
                None => Err(String::from_str("Failed to parse as direct jobs array")),
            }
        },
        None => Err(String::from_str("Failed to parse as direct jobs array")),
    }
}

/// Decode a list-endpoint body leniently.  A body that is not JSON at all
/// yields an empty list; a body that parses but whose jobs do not decode is
/// an error, with the same message the strict decoders would give.
pub fn decode_jobs_list(body: &str) -> (r: Result<Vec<JobResponse>, String>)
    ensures
        r is Ok <==> jobs_list_of(body@) is Ok,
        r is Ok ==> Ok::<Seq<JobView>, Seq<char>>((r->Ok_0)@.map_values(|j: JobResponse| j@)) == jobs_list_of(body@),
        r is Err ==> (r->Err_0)@ == jobs_list_of(body@)->Err_0,
{
    let fixed = repair_body(body);
    let value = match parse_json(fixed.as_str()) {
        Some(v) => v,
        None => {
            let empty: Vec<JobResponse> = Vec::new();
            proof {
                assert(empty@.map_values(|j: JobResponse| j@) =~= Seq::<JobView>::empty());
            }
            return Ok(empty);
        },
    };
    match json_get(&value, "jobs") {
        Some(jf) => {
            match json_as_array(jf) {
                Some(arr) => {
                    let ghost items = array_items(json_text(*jf))->Some_0;
                    match decode_jobs_array(arr, Ghost(items)) {
                        Some(js) => Ok(js),
                        None => Err(String::from_str("Failed to parse jobs array")),
                    }
                },
                None => decode_direct(&value),
            }
        },
        None => decode_direct(&value),
    }
}

} // verus!
