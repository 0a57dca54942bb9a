//! The user-facing error taxonomy: every recoverable rejection of a request
//! is one of these variants, and each maps to a distinct message and HTTP
//! status code.

use vstd::prelude::*;

verus! {

#[derive(Copy, Clone, Debug, PartialEq, Eq, Structural)]
pub enum Error {
    RoomNotFound,
    RoomAlreadyExist,
    RoomNameTooShort,
    UsernameTooShort,
}

impl Error {
    /// The client-visible message for this rejection.
    pub fn message(&self) -> (r: &'static str)
        ensures
            self is RoomNotFound ==> r@ == "Room not found"@,
            self is RoomAlreadyExist ==> r@ == "Room already exists"@,
            self is RoomNameTooShort ==> r@ == "Room name too short"@,
            self is UsernameTooShort ==> r@ == "Username name too short"@,
    {
        match self {
            Error::RoomNotFound => "Room not found",
            Error::RoomAlreadyExist => "Room already exists",
            Error::RoomNameTooShort => "Room name too short",
            Error::UsernameTooShort => "Username name too short",
        }
    }

    /// The HTTP status code this rejection is rendered with.
    pub fn status_code(&self) -> (r: u16)
        ensures
            r == match self {
                Error::RoomNotFound => 404u16,
                Error::RoomAlreadyExist => 409u16,
                Error::RoomNameTooShort => 400u16,
                Error::UsernameTooShort => 400u16,
            },
    {
        match self {
            Error::RoomNotFound => 404,
            Error::RoomAlreadyExist => 409,
            Error::RoomNameTooShort => 400,
            Error::UsernameTooShort => 400,
        }
    }
}

} // verus!
