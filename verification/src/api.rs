//! Value types of the HTTP surface that carry no HTTP machinery: request
//! and response shapes, the structured error body, and the server's own
//! error type. The boundary that maps them to status codes and wire
//! formats lives outside the core.

use vstd::prelude::*;
use vstd::string::StringExecFns;
use crate::snapshot::Source;
use crate::store::StoreError;

verus! {

/// The structured error body `{code, message}` that error responses
/// carry.
#[derive(Debug)]
pub struct ErrorResponse {
    /// The error details.
    pub error: ErrorDetail,
}

/// The fields of a structured error body.
#[derive(Debug)]
pub struct ErrorDetail {
    /// A stable machine-readable code.
    pub code: String,
    /// A human-readable message.
    pub message: String,
    /// An optional id correlating the response with a request.
    pub request_id: Option<String>,
}

impl ErrorResponse {
    /// An error body with the given code and message and no request id.
    pub fn new(code: &str, message: &str) -> (r: Self)
        ensures
            r.error.code@ == code@,
            r.error.message@ == message@,
            r.error.request_id is None,
    {
        ErrorResponse {
            error: ErrorDetail {
                code: String::from_str(code),
                message: String::from_str(message),
                request_id: None,
            },
        }
    }
}

/// Provenance of state data as requests spell it.
#[derive(Clone, Copy, Debug, PartialEq, Eq, Structural)]
pub enum SourceInput {
    /// The user explicitly provided this state.
    SelfReport,
    /// The state was inferred from behavior.
    Inferred,
    /// A combination of self-report and inference.
    Mixed,
}

impl Default for SourceInput {
    /// Self-reported, as for a request that named no provenance.
    fn default() -> (r: Self)
        ensures
            r == SourceInput::SelfReport,
    {
        SourceInput::SelfReport
    }
}

impl From<SourceInput> for Source {
    /// The model's provenance tag for a request's.
    fn from(s: SourceInput) -> (r: Source) {
        match s {
            SourceInput::SelfReport => Source::SelfReport,
            SourceInput::Inferred => Source::Inferred,
            SourceInput::Mixed => Source::Mixed,
        }
    }
}

impl vstd::std_specs::convert::FromSpecImpl<SourceInput> for Source {
    open spec fn obeys_from_spec() -> bool {
        true
    }

    open spec fn from_spec(s: SourceInput) -> Source {
        match s {
            SourceInput::SelfReport => Source::SelfReport,
            SourceInput::Inferred => Source::Inferred,
            SourceInput::Mixed => Source::Mixed,
        }
    }
}

/// The prompt-guidance shape handed to downstream consumers.
#[derive(Debug)]
pub struct ContextResponse {
    /// Behavioral guidelines for the consumer.
    pub guidelines: Vec<String>,
    /// The suggested tone.
    pub tone: String,
    /// The desired response verbosity.
    pub verbosity: String,
    /// Flags for special conditions.
    pub flags: Vec<String>,
}

/// A request to infer axis values from a message without storing them.
#[derive(Debug)]
pub struct InferRequest {
    /// The message text to analyze.
    pub message: String,
    /// An optional user whose baseline the inference may use.
    pub user_id: Option<String>,
    /// Whether to include debug feature information in the response.
    pub include_features: bool,
}

/// Failures of the HTTP server itself.
#[derive(Debug)]
pub enum HttpError {
    /// The listen address could not be bound.
    Bind {
        /// The address that failed to bind.
        addr: String,
        /// What went wrong.
        message: String,
    },
    /// A request could not be handled.
    Request(String),
    /// The store failed.
    Store(StoreError),
}

impl From<StoreError> for HttpError {
    /// Wraps a store failure.
    fn from(e: StoreError) -> (r: HttpError) {
        HttpError::Store(e)
    }
}

impl vstd::std_specs::convert::FromSpecImpl<StoreError> for HttpError {
    open spec fn obeys_from_spec() -> bool {
        true
    }

    open spec fn from_spec(e: StoreError) -> HttpError {
        HttpError::Store(e)
    }
}

} // verus!
