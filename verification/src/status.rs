//! The answers that a request can fail with.

use vstd::prelude::*;
use vstd::string::*;

verus! {

/// Why a request failed, in the terms of gRPC.
#[derive(Clone, Copy, Debug, PartialEq, Eq, Structural)]
pub enum Code {
    /// The request itself is at fault.
    InvalidArgument,
    /// Something failed on the server's side.
    Internal,
    /// The server cannot take the request at the moment.
    Unavailable,
}

/// The answer to a request that failed.
#[derive(Debug, PartialEq, Eq)]
pub struct Status {
    pub code: Code,
    pub message: String,
}

/// What a [`Status`] says.
pub struct StatusView {
    pub code: Code,
    pub message: Seq<char>,
}

impl View for Status {
    type V = StatusView;

    open spec fn view(&self) -> StatusView {
        StatusView { code: self.code, message: self.message@ }
    }
}

/// The request is at fault, for the reason given.
pub open spec fn invalid_argument(message: Seq<char>) -> StatusView {
    StatusView { code: Code::InvalidArgument, message }
}

/// The server is at fault, for the reason given.
pub open spec fn internal(message: Seq<char>) -> StatusView {
    StatusView { code: Code::Internal, message }
}

/// The server cannot take the request, for the reason given.
pub open spec fn unavailable(message: Seq<char>) -> StatusView {
    StatusView { code: Code::Unavailable, message }
}

impl Status {
    /// The request is at fault, for the reason given.
    pub fn invalid_argument(message: &str) -> (res: Status)
        ensures
            res@ == invalid_argument(message@),
            res.code == Code::InvalidArgument,
            res.message@ == message@,
    {
        Status { code: Code::InvalidArgument, message: message.to_owned() }
    }

    /// The server is at fault, for the reason given.
    pub fn internal(message: String) -> (res: Status)
        ensures
            res@ == internal(message@),
            res.code == Code::Internal,
            res.message == message,
    {
        Status { code: Code::Internal, message }
    }

    /// The server cannot take the request, for the reason given.
    pub fn unavailable(message: String) -> (res: Status)
        ensures
            res@ == unavailable(message@),
            res.code == Code::Unavailable,
            res.message == message,
    {
        Status { code: Code::Unavailable, message }
    }
}

/// What can go wrong below the level of a request.
#[derive(Debug, PartialEq, Eq)]
pub enum ArisaError {
    /// What was asked for is at fault.
    InvalidArgument(String),
    /// Something failed on the server's side.
    Internal(String),
}

/// What an [`ArisaError`] says, in the terms of a [`Status`].
impl View for ArisaError {
    type V = StatusView;

    open spec fn view(&self) -> StatusView {
        match self {
            ArisaError::InvalidArgument(message) => invalid_argument(message@),
            ArisaError::Internal(message) => internal(message@),
        }
    }
}

impl From<ArisaError> for Status {
    fn from(error: ArisaError) -> (res: Status)
        ensures
            res@ == error@,
            match error {
                ArisaError::InvalidArgument(message) => res.code == Code::InvalidArgument
                    && res.message == message,
                ArisaError::Internal(message) => res.code == Code::Internal && res.message
                    == message,
            },
    {
        match error {
            ArisaError::InvalidArgument(message) => Status {
                code: Code::InvalidArgument,
                message,
            },
            ArisaError::Internal(message) => Status { code: Code::Internal, message },
        }
    }
}

impl vstd::std_specs::convert::FromSpecImpl<ArisaError> for Status {
    open spec fn obeys_from_spec() -> bool {
        true
    }

    open spec fn from_spec(error: ArisaError) -> Status {
        match error {
            ArisaError::InvalidArgument(message) => Status {
                code: Code::InvalidArgument,
                message,
            },
            ArisaError::Internal(message) => Status { code: Code::Internal, message },
        }
    }
}

/// A result with both of its sides taken by their views.
pub open spec fn result_view<T: View, E: View>(result: Result<T, E>) -> Result<T::V, E::V> {
    match result {
        Ok(value) => Ok(value@),
        Err(error) => Err(error@),
    }
}

/// An answer carries the message that it was given, letter for letter, and the code of
/// its kind. What goes wrong below a request is answered in the same terms.
pub proof fn law_answers_carry_their_message(message: Seq<char>, error: ArisaError)
    ensures
        invalid_argument(message).code == Code::InvalidArgument,
        invalid_argument(message).message == message,
        internal(message).code == Code::Internal,
        internal(message).message == message,
        unavailable(message).code == Code::Unavailable,
        unavailable(message).message == message,
        match error {
            ArisaError::InvalidArgument(text) => error@.code == Code::InvalidArgument
                && error@.message == text@,
            ArisaError::Internal(text) => error@.code == Code::Internal && error@.message == text@,
        },
{
}

} // verus!
