//! Tawhiri-style API errors: their kinds, HTTP statuses and response bodies.
use vstd::prelude::*;

use crate::calendar::{now, rfc3339, rfc3339_text};
use crate::time::UtcTime;

verus! {

/// Error categories of the Tawhiri v1 API.
#[derive(Debug, Clone, Copy, PartialEq, Eq, Structural)]
pub enum ApiErrorKind {
    RequestException,
    InvalidDatasetException,
    PredictionException,
    InternalException,
    NotYetImplementedException,
}

impl ApiErrorKind {
    /// The name that the `type` field of an error body carries.
    pub open spec fn spec_type_label(self) -> Seq<char> {
        match self {
            ApiErrorKind::RequestException => "RequestException"@,
            ApiErrorKind::InvalidDatasetException => "InvalidDatasetException"@,
            ApiErrorKind::PredictionException => "PredictionException"@,
            ApiErrorKind::InternalException => "InternalException"@,
            ApiErrorKind::NotYetImplementedException => "NotYetImplementedException"@,
        }
    }

    /// The HTTP status that answers an error of this kind.
    pub open spec fn spec_status(self) -> u16 {
        match self {
            ApiErrorKind::RequestException => 400,
            ApiErrorKind::InvalidDatasetException => 404,
            ApiErrorKind::PredictionException => 500,
            ApiErrorKind::InternalException => 500,
            ApiErrorKind::NotYetImplementedException => 501,
        }
    }

    /// The name that the `type` field of an error body carries.
    pub fn type_label(&self) -> (r: &'static str)
        ensures
            r@ == self.spec_type_label(),
    {
        match self {
            ApiErrorKind::RequestException => "RequestException",
            ApiErrorKind::InvalidDatasetException => "InvalidDatasetException",
            ApiErrorKind::PredictionException => "PredictionException",
            ApiErrorKind::InternalException => "InternalException",
            ApiErrorKind::NotYetImplementedException => "NotYetImplementedException",
        }
    }

    /// The HTTP status code of this kind, as the CUSF/SondeHub API answers it.
    pub fn status(&self) -> (r: u16)
        ensures
            r == self.spec_status(),
    {
        match self {
            ApiErrorKind::RequestException => 400,
            ApiErrorKind::InvalidDatasetException => 404,
            ApiErrorKind::PredictionException => 500,
            ApiErrorKind::InternalException => 500,
            ApiErrorKind::NotYetImplementedException => 501,
        }
    }
}

/// Each error kind answers with its own HTTP status, as the CUSF/SondeHub
/// API does: 400 for a bad request, 404 for a missing dataset, 500 for a
/// failed prediction or an internal error, 501 for what is not implemented;
/// and each kind has its own type name.
pub proof fn error_kinds_and_statuses(kind: ApiErrorKind, other: ApiErrorKind)
    ensures
        kind.spec_status() == 400 <==> kind == ApiErrorKind::RequestException,
        kind.spec_status() == 404 <==> kind == ApiErrorKind::InvalidDatasetException,
        kind.spec_status() == 500 <==> (kind == ApiErrorKind::PredictionException || kind
            == ApiErrorKind::InternalException),
        kind.spec_status() == 501 <==> kind == ApiErrorKind::NotYetImplementedException,
        kind != other ==> kind.spec_type_label() != other.spec_type_label(),
{
    reveal_strlit("RequestException");
    reveal_strlit("InvalidDatasetException");
    reveal_strlit("PredictionException");
    reveal_strlit("InternalException");
    reveal_strlit("NotYetImplementedException");
    assert("RequestException"@.len() == 16);
    assert("InvalidDatasetException"@.len() == 23);
    assert("PredictionException"@.len() == 19);
    assert("InternalException"@.len() == 17);
    assert("NotYetImplementedException"@.len() == 26);
}

/// Start and completion times of a request, as RFC 3339 texts.
#[derive(Debug, Clone, PartialEq, Eq)]
pub struct Metadata {
    pub complete_datetime: String,
    pub start_datetime: String,
}

impl Metadata {
    /// The metadata of a request that started at `start` and completed at `complete`.
    pub fn new(start: UtcTime, complete: UtcTime) -> (r: Metadata)
        requires
            start.wf(),
            complete.wf(),
        ensures
            r.start_datetime@ == rfc3339_text(start.secs as int, start.nanos as int),
            r.complete_datetime@ == rfc3339_text(complete.secs as int, complete.nanos as int),
    {
        Metadata { complete_datetime: rfc3339(complete), start_datetime: rfc3339(start) }
    }
}

/// The `error` member of an error response.
#[derive(Debug, Clone, PartialEq, Eq)]
pub struct ErrorBody {
    pub description: String,
    pub kind: String,
}

/// The body of an error response: the error and the request's metadata.
#[derive(Debug, Clone, PartialEq, Eq)]
pub struct ErrorResponse {
    pub error: ErrorBody,
    pub metadata: Metadata,
}

/// An error answered to an API request.
#[derive(Debug, Clone)]
pub struct ApiError {
    pub kind: ApiErrorKind,
    pub description: String,
    pub start_datetime: UtcTime,
    pub complete_datetime: UtcTime,
}

impl ApiError {
    pub open spec fn wf(self) -> bool {
        self.start_datetime.wf() && self.complete_datetime.wf()
    }

    /// An error of `kind` for a request that started at `start`, completed now.
    pub fn new(kind: ApiErrorKind, description: String, start: UtcTime) -> (r: ApiError)
        requires
            start.wf(),
        ensures
            r.kind == kind,
            r.description@ == description@,
            r.start_datetime == start,
            r.wf(),
    {
        ApiError { kind, description, start_datetime: start, complete_datetime: now() }
    }

    pub fn request(description: String, start: UtcTime) -> (r: ApiError)
        requires
            start.wf(),
        ensures
            r.kind == ApiErrorKind::RequestException,
            r.description@ == description@,
            r.start_datetime == start,
            r.wf(),
    {
        ApiError::new(ApiErrorKind::RequestException, description, start)
    }

    pub fn invalid_dataset(description: String, start: UtcTime) -> (r: ApiError)
        requires
            start.wf(),
        ensures
            r.kind == ApiErrorKind::InvalidDatasetException,
            r.description@ == description@,
            r.start_datetime == start,
            r.wf(),
    {
        ApiError::new(ApiErrorKind::InvalidDatasetException, description, start)
    }

    pub fn prediction(description: String, start: UtcTime) -> (r: ApiError)
        requires
            start.wf(),
        ensures
            r.kind == ApiErrorKind::PredictionException,
            r.description@ == description@,
            r.start_datetime == start,
            r.wf(),
    {
        ApiError::new(ApiErrorKind::PredictionException, description, start)
    }

    pub fn internal(description: String, start: UtcTime) -> (r: ApiError)
        requires
            start.wf(),
        ensures
            r.kind == ApiErrorKind::InternalException,
            r.description@ == description@,
            r.start_datetime == start,
            r.wf(),
    {
        ApiError::new(ApiErrorKind::InternalException, description, start)
    }

    pub fn not_implemented(description: String, start: UtcTime) -> (r: ApiError)
        requires
            start.wf(),
        ensures
            r.kind == ApiErrorKind::NotYetImplementedException,
            r.description@ == description@,
            r.start_datetime == start,
            r.wf(),
    {
        ApiError::new(ApiErrorKind::NotYetImplementedException, description, start)
    }

    /// The one-line text of the error: `"<type>: <description>"`.
    pub fn message(&self) -> (r: String)
        ensures
            r@ == self.kind.spec_type_label() + ": "@ + self.description@,
    {
        let mut r = self.kind.type_label().to_owned();
        r.append(": ");
        r.append(self.description.as_str());
        r
    }

    /// The HTTP status that answers this error.
    pub fn status(&self) -> (r: u16)
        ensures
            r == self.kind.spec_status(),
    {
        self.kind.status()
    }

    /// The body that answers this error: its type and description, and the
    /// request's start and completion times.
    pub fn error_response(&self) -> (r: ErrorResponse)
        requires
            self.wf(),
        ensures
            r.error.kind@ == self.kind.spec_type_label(),
            r.error.description@ == self.description@,
            r.metadata.start_datetime@ == rfc3339_text(
                self.start_datetime.secs as int,
                self.start_datetime.nanos as int,
            ),
            r.metadata.complete_datetime@ == rfc3339_text(
                self.complete_datetime.secs as int,
                self.complete_datetime.nanos as int,
            ),
    {
        ErrorResponse {
            error: ErrorBody {
                description: self.description.clone(),
                kind: self.kind.type_label().to_owned(),
            },
            metadata: Metadata::new(self.start_datetime, self.complete_datetime),
        }
    }
}

} // verus!
