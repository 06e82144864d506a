//! Protocol versions.

use vstd::prelude::*;
use crate::text::str_eq;

verus! {

/// The protocol version named in a request line or a status line.
#[derive(Clone, Copy, Debug, PartialEq, Eq, Structural)]
pub enum Version {
    Http10,
    Http11,
}

impl Version {
    /// The text that stands for the version on the wire.
    pub open spec fn token(self) -> Seq<char> {
        match self {
            Version::Http10 => "HTTP/1.0"@,
            Version::Http11 => "HTTP/1.1"@,
        }
    }

    /// The version whose text is `text`, if there is one.
    pub open spec fn of_token(text: Seq<char>) -> Option<Version> {
        if text == "HTTP/1.0"@ {
            Some(Version::Http10)
        } else if text == "HTTP/1.1"@ {
            Some(Version::Http11)
        } else {
            None
        }
    }

    pub fn as_str(self) -> (s: &'static str)
        ensures
            s@ == self.token(),
    {
        match self {
            Version::Http10 => "HTTP/1.0",
            Version::Http11 => "HTTP/1.1",
        }
    }

    /// Reads a version from its text.
    pub fn parse(text: &str) -> (v: Option<Version>)
        ensures
            v == Version::of_token(text@),
    {
        if str_eq(text, "HTTP/1.0") {
            Some(Version::Http10)
        } else if str_eq(text, "HTTP/1.1") {
            Some(Version::Http11)
        } else {
            None
        }
    }

    /// Every version is read back from its own text.
    pub proof fn lemma_token_round_trip(self)
        ensures
            Version::of_token(self.token()) == Some(self),
    {
        reveal_strlit("HTTP/1.0");
        reveal_strlit("HTTP/1.1");
        assert("HTTP/1.0"@[7] == '0');
        assert("HTTP/1.1"@[7] == '1');
    }
}

} // verus!
