use vstd::prelude::*;

use crate::decode::{decode_job, decode_jobs_list, job_of, jobs_list_of};
use crate::json::{parse_json, parsed_json};
use crate::models::{JobResponse, JobView};

verus! {

// ---------------------------------------------------------------------------
// Service gateway errors and response interpretation
//
// The HTTP exchange itself happens outside the library; what comes back in is
// the status code and the body.  The functions here turn that pair into a
// typed result, so every caller sees exactly one of: a decoded answer, a
// service-side failure with the body kept verbatim, or a decode failure.
// ---------------------------------------------------------------------------

/// Why a gateway call failed.
#[derive(Debug, Clone, PartialEq)]
pub enum GatewayError {
    /// The service could not be reached at all.
    Connection(String),
    /// The service answered outside the success range; the body is kept
    /// verbatim.
    Service { code: u16, body: String },
    /// The service answered successfully but the body did not decode.
    Decode(String),
}

pub ghost enum GatewayErrorView {
    Connection(Seq<char>),
    Service { code: u16, body: Seq<char> },
    Decode(Seq<char>),
}

impl View for GatewayError {
    type V = GatewayErrorView;

    open spec fn view(&self) -> GatewayErrorView {
        match self {
            GatewayError::Connection(m) => GatewayErrorView::Connection(m@),
            GatewayError::Service { code, body } => GatewayErrorView::Service {
                code: *code,
                body: body@,
            },
            GatewayError::Decode(m) => GatewayErrorView::Decode(m@),
        }
    }
}

/// Whether an HTTP status code counts as success.
pub open spec fn is_success_code(code: u16) -> bool {
    200 <= code < 300
}

/// Whether a gateway failure says the job no longer exists: the service
/// answered, and it answered 404.
pub open spec fn spec_is_not_found(e: GatewayErrorView) -> bool {
    match e {
        GatewayErrorView::Service { code, .. } => code == 404,
        _ => false,
    }
}

pub fn is_not_found(e: &GatewayError) -> (r: bool)
    ensures
        r == spec_is_not_found(e@),
{
    match e {
        GatewayError::Service { code, .. } => *code == 404,
        _ => false,
    }
}

/// What a health-check exchange means: any success code is healthy.
pub fn interpret_health(code: u16, body: String) -> (r: Result<(), GatewayError>)
    ensures
        r is Ok <==> is_success_code(code),
        r is Err ==> r->Err_0@ == (GatewayErrorView::Service { code, body: body@ }),
{
    if 200 <= code && code < 300 {
        Ok(())
    } else {
        Err(GatewayError::Service { code, body })
    }
}

/// What a job-returning exchange (status lookup, submit, terminate) means.
pub open spec fn job_response_of(code: u16, body: Seq<char>) -> Result<JobView, GatewayErrorView> {
    if !is_success_code(code) {
        Err(GatewayErrorView::Service { code, body })
    } else {
        match parsed_json(body) {
            None => Err(GatewayErrorView::Decode("Failed to parse job status response"@)),
            Some(val) => match job_of(val) {
                Some(j) => Ok(j),
                None => Err(GatewayErrorView::Decode("Failed to parse job status response"@)),
            },
        }
    }
}

/// Interpret an exchange whose successful body is one job snapshot.
pub fn interpret_job_response(code: u16, body: String) -> (r: Result<JobResponse, GatewayError>)
    ensures
        r is Ok <==> job_response_of(code, body@) is Ok,
        r is Ok ==> Ok::<JobView, GatewayErrorView>((r->Ok_0)@) == job_response_of(code, body@),
        r is Err ==> Err::<JobView, GatewayErrorView>((r->Err_0)@) == job_response_of(code, body@),
{
    if !(200 <= code && code < 300) {
        return Err(GatewayError::Service { code, body });
    }
    let value = match parse_json(body.as_str()) {
        Some(v) => v,
        None => {
            return Err(GatewayError::Decode(String::from_str("Failed to parse job status response")));
        },
    };
    match decode_job(&value) {
        Some(j) => Ok(j),
        None => Err(GatewayError::Decode(String::from_str("Failed to parse job status response"))),
    }
}

/// What a list exchange means: a service failure is kept verbatim; a
/// successful body goes through the lenient list decoder.
pub open spec fn list_response_of(code: u16, body: Seq<char>) -> Result<
    Seq<JobView>,
    GatewayErrorView,
> {
    if !is_success_code(code) {
        Err(GatewayErrorView::Service { code, body })
    } else {
        match jobs_list_of(body) {
            Ok(js) => Ok(js),
            Err(m) => Err(GatewayErrorView::Decode(m)),
        }
    }
}

/// Interpret a list exchange.
pub fn interpret_list_response(code: u16, body: String) -> (r: Result<
    Vec<JobResponse>,
    GatewayError,
>)
    ensures
        r is Ok <==> list_response_of(code, body@) is Ok,
        r is Ok ==> Ok::<Seq<JobView>, GatewayErrorView>((r->Ok_0)@.map_values(|j: JobResponse| j@)) == list_response_of(
            code,
            body@,
        ),
        r is Err ==> Err::<Seq<JobView>, GatewayErrorView>((r->Err_0)@) == list_response_of(code, body@),
{
    if !(200 <= code && code < 300) {
        return Err(GatewayError::Service { code, body });
    }
    match decode_jobs_list(body.as_str()) {
        Ok(js) => Ok(js),
        Err(m) => Err(GatewayError::Decode(m)),
    }
}

} // verus!
