//! Refusals of the HTTP endpoints.
use vstd::prelude::*;

verus! {

/// A refusal: an HTTP status and a message. Its view is the status with the
/// text of the message.
#[derive(Debug, Clone, Copy, PartialEq, Eq)]
pub struct ApiError {
    pub status: u16,
    pub message: &'static str,
}

impl View for ApiError {
    type V = (u16, Seq<char>);

    open spec fn view(&self) -> (u16, Seq<char>) {
        (self.status, self.message@)
    }
}

/// A result with the refusal taken by its view.
pub open spec fn refusal<T>(r: Result<T, ApiError>) -> Option<(u16, Seq<char>)> {
    match r {
        Ok(_) => None,
        Err(error) => Some(error@),
    }
}

impl ApiError {
    pub fn with_status(status: u16, message: &'static str) -> (r: ApiError)
        ensures
            r@ == (status, message@),
    {
        ApiError { status, message }
    }

    pub fn bad_request(message: &'static str) -> (r: ApiError)
        ensures
            r@ == (400u16, message@),
    {
        ApiError { status: 400, message }
    }

    pub fn not_found(message: &'static str) -> (r: ApiError)
        ensures
            r@ == (404u16, message@),
    {
        ApiError { status: 404, message }
    }

    pub fn internal(message: &'static str) -> (r: ApiError)
        ensures
            r@ == (500u16, message@),
    {
        ApiError { status: 500, message }
    }
}

} // verus!
