//! The fixed error taxonomy of the bridge.
//!
//! Every failure of a request is reported as exactly one of four kinds:
//! a malformed request, a graph that fails validation, a graph that
//! cannot be converted into a backend program, or a failure of the
//! engine run itself.
use crate::text::spec_contains;
use crate::text::str_contains;
use vstd::prelude::*;

verus! {

/// A classified request failure.  The payload is the human-readable
/// detail text, without the kind prefix.
#[derive(Debug)]
pub enum RunnerError {
    BadRequest(String),
    GraphValidation(String),
    GraphConversion(String),
    RuntimeExecution(String),
}

impl RunnerError {
    /// The detail text carried by the error, whatever its kind.
    pub open spec fn spec_detail(&self) -> Seq<char> {
        match self {
            RunnerError::BadRequest(m) => m@,
            RunnerError::GraphValidation(m) => m@,
            RunnerError::GraphConversion(m) => m@,
            RunnerError::RuntimeExecution(m) => m@,
        }
    }

    /// The full message of the error: the kind's prefix followed by the
    /// detail text.
    pub open spec fn spec_message(&self) -> Seq<char> {
        match self {
            RunnerError::BadRequest(m) => "bad request: "@ + m@,
            RunnerError::GraphValidation(m) => "graph validation failed: "@ + m@,
            RunnerError::GraphConversion(m) => "graph conversion failed: "@ + m@,
            RunnerError::RuntimeExecution(m) => "runtime execution failed: "@ + m@,
        }
    }

    /// Renders the full message, prefix included.
    pub fn message(&self) -> (r: String)
        ensures
            r@ == self.spec_message(),
    {
        match self {
            RunnerError::BadRequest(m) => {
                let mut s = "bad request: ".to_owned();
                s.append(m.as_str());
                s
            },
            RunnerError::GraphValidation(m) => {
                let mut s = "graph validation failed: ".to_owned();
                s.append(m.as_str());
                s
            },
            RunnerError::GraphConversion(m) => {
                let mut s = "graph conversion failed: ".to_owned();
                s.append(m.as_str());
                s
            },
            RunnerError::RuntimeExecution(m) => {
                let mut s = "runtime execution failed: ".to_owned();
                s.append(m.as_str());
                s
            },
        }
    }
}

/// The stable wire tag of each error kind.
pub open spec fn spec_error_kind(err: &RunnerError) -> Seq<char> {
    match err {
        RunnerError::BadRequest(_) => "BadRequestError"@,
        RunnerError::GraphValidation(_) => "GraphValidationError"@,
        RunnerError::GraphConversion(_) => "GraphConversionError"@,
        RunnerError::RuntimeExecution(_) => "RuntimeExecutionError"@,
    }
}

/// The contract of classifying an engine-run failure: the text is kept
/// as the detail, and the kind is chosen by the words the text
/// contains.
pub open spec fn classify_post(m: Seq<char>, r: RunnerError) -> bool {
    r.spec_detail() == m && if spec_contains(m, "validation"@) || spec_contains(m, "input"@)
        || spec_contains(m, "output"@) {
        r is GraphValidation
    } else if spec_contains(m, "onnx"@) || spec_contains(m, "convert"@) || spec_contains(
        m,
        "conversion"@,
    ) {
        r is GraphConversion
    } else {
        r is RuntimeExecution
    }
}

/// Classifies a failure of the engine run by its text, best effort:
/// words typical of structural checks file it as a validation failure,
/// words typical of backend translation as a conversion failure, and
/// everything else as an execution failure.  The text itself is kept
/// as the detail.
pub fn classify_graph_error(msg: String) -> (r: RunnerError)
    ensures
        classify_post(msg@, r),
{
    if str_contains(msg.as_str(), "validation") || str_contains(msg.as_str(), "input")
        || str_contains(msg.as_str(), "output") {
        RunnerError::GraphValidation(msg)
    } else if str_contains(msg.as_str(), "onnx") || str_contains(msg.as_str(), "convert")
        || str_contains(msg.as_str(), "conversion") {
        RunnerError::GraphConversion(msg)
    } else {
        RunnerError::RuntimeExecution(msg)
    }
}

/// Maps an error to the tag reported on the wire.
pub fn error_kind(err: &RunnerError) -> (r: String)
    ensures
        r@ == spec_error_kind(err),
{
    match err {
        RunnerError::BadRequest(_) => "BadRequestError".to_owned(),
        RunnerError::GraphValidation(_) => "GraphValidationError".to_owned(),
        RunnerError::GraphConversion(_) => "GraphConversionError".to_owned(),
        RunnerError::RuntimeExecution(_) => "RuntimeExecutionError".to_owned(),
    }
}

} // verus!
