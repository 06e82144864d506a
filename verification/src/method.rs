//! Request methods.

use vstd::prelude::*;
use crate::text::str_eq;

verus! {

/// The method of a request.
#[derive(Clone, Copy, Debug, PartialEq, Eq, Structural)]
pub enum Method {
    GET,
    HEAD,
    POST,
    PUT,
    DELETE,
    CONNECT,
    OPTIONS,
    TRACE,
    PATCH,
}

impl Method {
    /// The token that stands for the method in a request line.
    pub open spec fn token(self) -> Seq<char> {
        match self {
            Method::GET => "GET"@,
            Method::HEAD => "HEAD"@,
            Method::POST => "POST"@,
            Method::PUT => "PUT"@,
            Method::DELETE => "DELETE"@,
            Method::CONNECT => "CONNECT"@,
            Method::OPTIONS => "OPTIONS"@,
            Method::TRACE => "TRACE"@,
            Method::PATCH => "PATCH"@,
        }
    }

    /// The method whose token is `text`, if there is one.
    pub open spec fn of_token(text: Seq<char>) -> Option<Method> {
        if text == "GET"@ {
            Some(Method::GET)
        } else if text == "HEAD"@ {
            Some(Method::HEAD)
        } else if text == "POST"@ {
            Some(Method::POST)
        } else if text == "PUT"@ {
            Some(Method::PUT)
        } else if text == "DELETE"@ {
            Some(Method::DELETE)
        } else if text == "CONNECT"@ {
            Some(Method::CONNECT)
        } else if text == "OPTIONS"@ {
            Some(Method::OPTIONS)
        } else if text == "TRACE"@ {
            Some(Method::TRACE)
        } else if text == "PATCH"@ {
            Some(Method::PATCH)
        } else {
            None
        }
    }

    pub fn as_str(self) -> (s: &'static str)
        ensures
            s@ == self.token(),
    {
        match self {
            Method::GET => "GET",
            Method::HEAD => "HEAD",
            Method::POST => "POST",
            Method::PUT => "PUT",
            Method::DELETE => "DELETE",
            Method::CONNECT => "CONNECT",
            Method::OPTIONS => "OPTIONS",
            Method::TRACE => "TRACE",
            Method::PATCH => "PATCH",
        }
    }

    /// Reads a method from its token. Tokens are case-sensitive.
    pub fn parse(text: &str) -> (m: Option<Method>)
        ensures
            m == Method::of_token(text@),
    {
        if str_eq(text, "GET") {
            Some(Method::GET)
        } else if str_eq(text, "HEAD") {
            Some(Method::HEAD)
        } else if str_eq(text, "POST") {
            Some(Method::POST)
        } else if str_eq(text, "PUT") {
            Some(Method::PUT)
        } else if str_eq(text, "DELETE") {
            Some(Method::DELETE)
        } else if str_eq(text, "CONNECT") {
            Some(Method::CONNECT)
        } else if str_eq(text, "OPTIONS") {
            Some(Method::OPTIONS)
        } else if str_eq(text, "TRACE") {
            Some(Method::TRACE)
        } else if str_eq(text, "PATCH") {
            Some(Method::PATCH)
        } else {
            None
        }
    }

    /// Every method is read back from its own token.
    pub proof fn lemma_token_round_trip(self)
        ensures
            Method::of_token(self.token()) == Some(self),
    {
        reveal_strlit("GET");
        reveal_strlit("HEAD");
        reveal_strlit("POST");
        reveal_strlit("PUT");
        reveal_strlit("DELETE");
        reveal_strlit("CONNECT");
        reveal_strlit("OPTIONS");
        reveal_strlit("TRACE");
        reveal_strlit("PATCH");
        assert("GET"@.len() == 3);
        assert("HEAD"@[0] == 'H');
        assert("POST"@[1] == 'O');
        assert("PUT"@[1] == 'U');
        assert("DELETE"@.len() == 6);
        assert("CONNECT"@[0] == 'C');
        assert("OPTIONS"@[0] == 'O');
        assert("TRACE"@[0] == 'T');
        assert("PATCH"@[1] == 'A');
    }
}

} // verus!
