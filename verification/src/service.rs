//! The answer handed back for a request.

use vstd::prelude::*;

verus! {

/// How a request ended.
#[derive(Clone, Copy, Debug, PartialEq, Eq, Structural)]
pub enum ResponseType {
    Success,
    Failure,
    Canceled,
}

/// The answer to a request: how it ended, with the result of a success or
/// the message of a failure.
pub struct Response<T> {
    pub result: ResponseType,
    pub response: Option<T>,
    pub error: Option<String>,
}

impl<T> Response<T> {
    /// Whether this is a success that carries `value`.
    pub open spec fn is_success_of(self, value: T) -> bool {
        &&& self.result == ResponseType::Success
        &&& self.response == Some(value)
        &&& self.error is None
    }

    /// Whether this is a failure with `message`.
    pub open spec fn is_failure_of(self, message: Seq<char>) -> bool {
        &&& self.result == ResponseType::Failure
        &&& self.response is None
        &&& self.error is Some
        &&& self.error->0@ == message
    }

    /// Whether this is a cancellation.
    pub open spec fn is_canceled(self) -> bool {
        &&& self.result == ResponseType::Canceled
        &&& self.response is None
        &&& self.error is None
    }
}

/// The answer of a success.
pub fn wrap_success<T>(response: T) -> (wrapped: Response<T>)
    ensures
        wrapped.is_success_of(response),
{
    Response { result: ResponseType::Success, response: Some(response), error: None }
}

/// The answer of a failure.
pub fn wrap_failure<T>(error: String) -> (wrapped: Response<T>)
    ensures
        wrapped.is_failure_of(error@),
{
    Response { result: ResponseType::Failure, response: None, error: Some(error) }
}

/// The answer of a request that the user called off.
pub fn wrap_canceled<T>() -> (wrapped: Response<T>)
    ensures
        wrapped.is_canceled(),
{
    Response { result: ResponseType::Canceled, response: None, error: None }
}

} // verus!
