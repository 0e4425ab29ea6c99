//! Store errors and the API error bodies they turn into.
use vstd::prelude::*;

use crate::text::{chars_of_string, push_all, push_str, string_from_chars, string_of};

verus! {

/// Failure of a metadata-store, queue or object-store operation.
#[derive(Debug)]
pub enum StoreError {
    NotFound(String),
    Conflict(String),
    Validation(String),
    Internal(String),
}

/// Machine-readable error code of an API error body.
#[derive(Debug, Clone, Copy, PartialEq, Eq, Structural)]
pub enum RemoteApiErrorCode {
    NotFound,
    Conflict,
    Validation,
    Internal,
    Unauthorized,
    Forbidden,
    RateLimited,
    UnsupportedSchema,
}

/// Error body returned by the API.
#[derive(Debug)]
pub struct RemoteApiErrorBody {
    pub code: RemoteApiErrorCode,
    pub message: String,
    pub retryable: bool,
    pub request_id: Option<String>,
}

impl RemoteApiErrorBody {
    pub fn new(code: RemoteApiErrorCode, message: String) -> (r: Self)
        ensures
            r.code == code,
            r.message == message,
            !r.retryable,
            r.request_id is None,
    {
        RemoteApiErrorBody { code, message, retryable: false, request_id: None }
    }

    pub fn retryable(self, retryable: bool) -> (r: Self)
        ensures
            r.code == self.code,
            r.message == self.message,
            r.retryable == retryable,
            r.request_id == self.request_id,
    {
        RemoteApiErrorBody { retryable, ..self }
    }

    pub fn request_id(self, request_id: String) -> (r: Self)
        ensures
            r.code == self.code,
            r.message == self.message,
            r.retryable == self.retryable,
            r.request_id == Some(request_id),
    {
        RemoteApiErrorBody { request_id: Some(request_id), ..self }
    }
}

/// The error code that `into_api` gives each kind of store error.
pub open spec fn api_code_of(e: StoreError) -> RemoteApiErrorCode {
    match e {
        StoreError::NotFound(_) => RemoteApiErrorCode::NotFound,
        StoreError::Conflict(_) => RemoteApiErrorCode::Conflict,
        StoreError::Validation(_) => RemoteApiErrorCode::Validation,
        StoreError::Internal(_) => RemoteApiErrorCode::Internal,
    }
}

/// The message carried by a store error.
pub open spec fn error_message(e: StoreError) -> String {
    match e {
        StoreError::NotFound(m) => m,
        StoreError::Conflict(m) => m,
        StoreError::Validation(m) => m,
        StoreError::Internal(m) => m,
    }
}

/// Prefix of the human-readable rendering of each kind of store error.
pub open spec fn error_prefix(e: StoreError) -> Seq<char> {
    match e {
        StoreError::NotFound(_) => "not found: "@,
        StoreError::Conflict(_) => "conflict: "@,
        StoreError::Validation(_) => "validation: "@,
        StoreError::Internal(_) => "internal: "@,
    }
}

impl StoreError {
    /// The API error body for this error: same message, the matching code, and
    /// `retryable` exactly for internal errors.
    pub fn into_api(self) -> (r: RemoteApiErrorBody)
        ensures
            r.code == api_code_of(self),
            r.message == error_message(self),
            r.retryable == (self is Internal),
            r.request_id is None,
    {
        match self {
            StoreError::NotFound(m) => RemoteApiErrorBody::new(RemoteApiErrorCode::NotFound, m),
            StoreError::Conflict(m) => RemoteApiErrorBody::new(RemoteApiErrorCode::Conflict, m),
            StoreError::Validation(m) => RemoteApiErrorBody::new(
                RemoteApiErrorCode::Validation,
                m,
            ),
            StoreError::Internal(m) => RemoteApiErrorBody::new(
                RemoteApiErrorCode::Internal,
                m,
            ).retryable(true),
        }
    }

    /// Human-readable rendering, e.g. `"not found: job-1"`.
    pub fn to_message(&self) -> (r: String)
        ensures
            r@ == error_prefix(*self) + error_message(*self)@,
    {
        let mut out: Vec<char> = Vec::new();
        let m = match self {
            StoreError::NotFound(m) => {
                push_str(&mut out, "not found: ");
                m
            },
            StoreError::Conflict(m) => {
                push_str(&mut out, "conflict: ");
                m
            },
            StoreError::Validation(m) => {
                push_str(&mut out, "validation: ");
                m
            },
            StoreError::Internal(m) => {
                push_str(&mut out, "internal: ");
                m
            },
        };
        let mv = chars_of_string(m);
        push_all(&mut out, &mv);
        string_from_chars(&out)
    }
}

/// HTTP status and body of a failed API request.
#[derive(Debug)]
pub struct ApiError {
    pub status: u16,
    pub body: RemoteApiErrorBody,
}

/// The HTTP status that each kind of store error maps to.
pub open spec fn http_status_of(e: StoreError) -> u16 {
    match e {
        StoreError::NotFound(_) => 404,
        StoreError::Conflict(_) => 409,
        StoreError::Validation(_) => 400,
        StoreError::Internal(_) => 500,
    }
}

impl ApiError {
    pub fn from_store(err: StoreError, request_id: String) -> (r: ApiError)
        ensures
            r.status == http_status_of(err),
            r.body.code == api_code_of(err),
            r.body.message == error_message(err),
            r.body.retryable == (err is Internal),
            r.body.request_id == Some(request_id),
    {
        let status: u16 = match &err {
            StoreError::NotFound(_) => 404,
            StoreError::Conflict(_) => 409,
            StoreError::Validation(_) => 400,
            StoreError::Internal(_) => 500,
        };
        ApiError { status, body: err.into_api().request_id(request_id) }
    }

    pub fn unauthorized(request_id: String) -> (r: ApiError)
        ensures
            r.status == 401,
            r.body.code == RemoteApiErrorCode::Unauthorized,
            r.body.message@ == "unauthorized"@,
            !r.body.retryable,
            r.body.request_id == Some(request_id),
    {
        let body = RemoteApiErrorBody::new(
            RemoteApiErrorCode::Unauthorized,
            string_of("unauthorized"),
        );
        ApiError { status: 401, body: body.request_id(request_id) }
    }

    pub fn forbidden(request_id: String, message: String) -> (r: ApiError)
        ensures
            r.status == 403,
            r.body.code == RemoteApiErrorCode::Forbidden,
            r.body.message == message,
            !r.body.retryable,
            r.body.request_id == Some(request_id),
    {
        let body = RemoteApiErrorBody::new(RemoteApiErrorCode::Forbidden, message);
        ApiError { status: 403, body: body.request_id(request_id) }
    }

    pub fn rate_limited(request_id: String) -> (r: ApiError)
        ensures
            r.status == 429,
            r.body.code == RemoteApiErrorCode::RateLimited,
            r.body.message@ == "rate limited"@,
            !r.body.retryable,
            r.body.request_id == Some(request_id),
    {
        let body = RemoteApiErrorBody::new(
            RemoteApiErrorCode::RateLimited,
            string_of("rate limited"),
        );
        ApiError { status: 429, body: body.request_id(request_id) }
    }

    pub fn other(status: u16, code: RemoteApiErrorCode, message: String, request_id: String) -> (r:
        ApiError)
        ensures
            r.status == status,
            r.body.code == code,
            r.body.message == message,
            !r.body.retryable,
            r.body.request_id == Some(request_id),
    {
        ApiError { status, body: RemoteApiErrorBody::new(code, message).request_id(request_id) }
    }
}

} // verus!
