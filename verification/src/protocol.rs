//! Response assembly for the line protocol: exactly one response per
//! request line, success and failure shapes, and the fixed envelope
//! used when a line cannot be read or parsed at all.
use crate::errors::RunnerError;
use crate::errors::error_kind;
use crate::errors::spec_error_kind;
use crate::orchestrate::NamedOutput;
use vstd::prelude::*;
use vstd::string::StringExecFns;

verus! {

/// The error half of a failure response: a stable kind tag and a
/// human-readable message.
pub struct ErrorPayload {
    pub kind: String,
    pub message: String,
}

/// One response line: the request's id, a success flag, and exactly
/// one of the outputs mapping or the error payload.
pub struct Response {
    pub id: String,
    pub ok: bool,
    pub outputs: Option<Vec<NamedOutput>>,
    pub error: Option<ErrorPayload>,
}

/// A response is exactly one of success-with-outputs or
/// failure-with-error.
pub open spec fn response_wf(r: Response) -> bool {
    r.ok == (r.outputs is Some) && r.ok == (r.error is None)
}

/// Builds the success response for a request.
pub fn success_response(id: String, outputs: Vec<NamedOutput>) -> (r: Response)
    ensures
        response_wf(r),
        r.ok,
        r.id == id,
        r.outputs matches Some(v) && v@ == outputs@,
{
    Response { id, ok: true, outputs: Some(outputs), error: None }
}

/// Builds the failure response for a request: the error's kind tag and
/// its full message, prefix included.
pub fn failure_response(id: String, err: &RunnerError) -> (r: Response)
    ensures
        response_wf(r),
        !r.ok,
        r.id == id,
        r.error matches Some(p) && p.kind@ == spec_error_kind(err) && p.message@
            == err.spec_message(),
{
    Response {
        id,
        ok: false,
        outputs: None,
        error: Some(ErrorPayload { kind: error_kind(err), message: err.message() }),
    }
}

/// Builds the response for a line that could not be parsed as a
/// request: the id is unknown, the failure is the client's.
pub fn invalid_request_response(detail: &str) -> (r: Response)
    ensures
        response_wf(r),
        !r.ok,
        r.id@ == "unknown"@,
        r.error matches Some(p) && p.kind@ == "BadRequestError"@ && p.message@
            == "invalid json request: "@ + detail@,
{
    let mut m = "invalid json request: ".to_owned();
    m.append(detail);
    Response {
        id: "unknown".to_owned(),
        ok: false,
        outputs: None,
        error: Some(ErrorPayload { kind: "BadRequestError".to_owned(), message: m }),
    }
}

/// Builds the response for a line that could not be read from the
/// stream at all.
pub fn read_error_response(detail: String) -> (r: Response)
    ensures
        response_wf(r),
        !r.ok,
        r.id@ == "unknown"@,
        r.error matches Some(p) && p.kind@ == "BadRequestError"@ && p.message == detail,
{
    Response {
        id: "unknown".to_owned(),
        ok: false,
        outputs: None,
        error: Some(ErrorPayload { kind: "BadRequestError".to_owned(), message: detail }),
    }
}

} // verus!
