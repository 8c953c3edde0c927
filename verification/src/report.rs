use vstd::prelude::*;

use crate::models::{JobResponse, JobView, TranscriptionResponse, TranscriptionView};
use crate::numbers::{dec_str_int, dec_str_nat, i64_to_dec, two_digit_str, u64_to_dec, u64_to_two_digits};

verus! {

// ---------------------------------------------------------------------------
// The markdown report
//
// A finished transcription is written out as markdown: the transcript text,
// a rule, then a short information section about the source file.  The
// duration line comes from the end of the last segment, shown as
// minutes:seconds with the seconds rounded to the nearest whole second.
// ---------------------------------------------------------------------------

/// What a `created_at` timestamp renders to: chrono's `%Y-%m-%d %H:%M:%S`
/// formatting of the unix second, in UTC; `None` for seconds outside
/// chrono's representable range.
pub uninterp spec fn timestamp_text(secs: i64) -> Option<Seq<char>>;

/// Relies on `chrono::DateTime::<Utc>::from_timestamp` and its `format`:
/// the rendering is a function of the unix second alone, and `from_timestamp`
/// answers `None` exactly when the second falls outside the representable
/// range.
#[verifier::external_body]
pub fn format_timestamp(secs: i64) -> (r: Option<String>)
    ensures
        r is Some <==> timestamp_text(secs) is Some,
        r is Some ==> (r->Some_0)@ == timestamp_text(secs)->Some_0,
{
    chrono::DateTime::from_timestamp(secs, 0).map(
        |dt| format!("{}", dt.format("%Y-%m-%d %H:%M:%S")),
    )
}

/// The duration the report shows: the end of the last segment, clamped to
/// zero, in milliseconds.
pub open spec fn report_duration_ms(t: TranscriptionView) -> int {
    if t.segments.len() == 0 {
        0
    } else if t.segments.last().end_ms < 0 {
        0
    } else {
        t.segments.last().end_ms as int
    }
}

/// The timestamp line's text: the rendered time, or `Unknown` when the
/// second cannot be represented.
pub open spec fn timestamp_line_text(secs: i64) -> Seq<char> {
    match timestamp_text(secs) {
        Some(d) => d,
        None => "Unknown"@,
    }
}

/// The whole markdown report.
pub open spec fn markdown_of(t: TranscriptionView, source_name: Seq<char>, job: JobView) -> Seq<
    char,
> {
    let dur = report_duration_ms(t);
    let minutes = dur / 60000;
    let rsecs = ((dur % 60000) + 500) / 1000;
    t.text + "\n\n---\n\n"@ + "## Audio File Information\n\n"@ + "- **Source File:** "@
        + source_name + "\n"@ + (match job.file_info {
        Some(fi) => "- **File Size:** "@ + dec_str_int(fi.size as int) + " bytes\n"@,
        None => Seq::<char>::empty(),
    }) + "- **Duration:** "@ + dec_str_nat(minutes as nat) + ":"@ + two_digit_str(rsecs as nat)
        + "\n"@ + (match job.created_at {
        Some(secs) => "- **Transcribed:** "@ + timestamp_line_text(secs) + "\n"@,
        None => Seq::<char>::empty(),
    })
}

/// Render the markdown report for a finished transcription.
pub fn render_markdown(t: &TranscriptionResponse, source_name: &str, job: &JobResponse) -> (r:
    String)
    ensures
        r@ == markdown_of(t@, source_name@, job@),
{
    let seg_count = t.segments.len();
    let dur: i64 = if seg_count == 0 {
        0
    } else {
        let e = t.segments[seg_count - 1].end_ms;
        if e < 0 {
            0
        } else {
            e
        }
    };
    proof {
        if seg_count > 0 {
            assert(t@.segments.last() == t.segments@[seg_count - 1]@);
        }
        assert(dur as int == report_duration_ms(t@));
    }
    let minutes: u64 = (dur / 60000) as u64;
    let rsecs: u64 = (((dur % 60000) + 500) / 1000) as u64;

    let mut r = t.text.clone();
    r.append("\n\n---\n\n");
    r.append("## Audio File Information\n\n");
    r.append("- **Source File:** ");
    r.append(source_name);
    r.append("\n");
    match &job.file_info {
        Some(fi) => {
            r.append("- **File Size:** ");
            let size_text = i64_to_dec(fi.size);
            r.append(size_text.as_str());
            r.append(" bytes\n");
        },
        None => {},
    }
    r.append("- **Duration:** ");
    let minutes_text = u64_to_dec(minutes);
    r.append(minutes_text.as_str());
    r.append(":");
    let secs_text = u64_to_two_digits(rsecs);
    r.append(secs_text.as_str());
    r.append("\n");
    match job.created_at {
        Some(secs) => {
            r.append("- **Transcribed:** ");
            match format_timestamp(secs) {
                Some(d) => {
                    r.append(d.as_str());
                },
                None => {
                    r.append("Unknown");
                },
            }
            r.append("\n");
        },
        None => {},
    }
    proof {
        assert(r@ =~= markdown_of(t@, source_name@, job@));
    }
    r
}

} // verus!
