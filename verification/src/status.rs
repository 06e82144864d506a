//! The status of a response.

use vstd::prelude::*;

verus! {

/// The class of a status code, which its first digit gives.
#[derive(Clone, Copy, Debug, PartialEq, Eq, Structural)]
pub enum StatusClass {
    Informational,
    Success,
    Redirection,
    ClientError,
    ServerError,
    /// A code below 100 or above 599.
    Unknown,
}

/// The class of a status code.
pub open spec fn class_of(code: u16) -> StatusClass {
    if 100 <= code < 200 {
        StatusClass::Informational
    } else if 200 <= code < 300 {
        StatusClass::Success
    } else if 300 <= code < 400 {
        StatusClass::Redirection
    } else if 400 <= code < 500 {
        StatusClass::ClientError
    } else if 500 <= code < 600 {
        StatusClass::ServerError
    } else {
        StatusClass::Unknown
    }
}

/// The code and the reason phrase of a status line.
#[derive(Debug)]
pub struct Status {
    pub code: u16,
    pub reason: String,
}

impl Status {
    /// The class of the code.
    pub fn class(&self) -> (class: StatusClass)
        ensures
            class == class_of(self.code),
    {
        let code = self.code;
        if 100 <= code && code < 200 {
            StatusClass::Informational
        } else if 200 <= code && code < 300 {
            StatusClass::Success
        } else if 300 <= code && code < 400 {
            StatusClass::Redirection
        } else if 400 <= code && code < 500 {
            StatusClass::ClientError
        } else if 500 <= code && code < 600 {
            StatusClass::ServerError
        } else {
            StatusClass::Unknown
        }
    }

    /// Whether the code asks the client to go elsewhere.
    pub fn is_redirection(&self) -> (redirection: bool)
        ensures
            redirection == (class_of(self.code) == StatusClass::Redirection),
    {
        300 <= self.code && self.code < 400
    }
}

} // verus!
