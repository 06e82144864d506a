//! Credentials in the form that the `Basic` authentication scheme sends.

use vstd::prelude::*;
use crate::text::wire;

verus! {

/// The base64 text, in the standard alphabet and padded, of a run of bytes.
pub uninterp spec fn base64_text(input: Seq<u8>) -> Seq<char>;

/// `base64::encode`: the standard, padded base64 text of `input`. It panics
/// only where the length of the text would not fit in a `usize`, which no
/// slice is long enough to cause.
#[verifier::external_body]
fn base64_encode(input: &[u8]) -> (text: String)
    ensures
        text@ == base64_text(input@),
{
    base64::encode(input)
}

/// A user name and a password as one token: the base64 text of the name, a
/// colon and the password.
pub open spec fn token_of(username: Seq<char>, password: Seq<char>) -> Seq<char> {
    base64_text(wire(username + ":"@ + password))
}

/// The value of an authorization field that carries a name and a password.
pub open spec fn basic_value(username: Seq<char>, password: Seq<char>) -> Seq<char> {
    "Basic "@ + token_of(username, password)
}

/// The token for a user name and a password.
pub fn token(username: &str, password: &str) -> (text: String)
    ensures
        text@ == token_of(username@, password@),
{
    let mut pair = username.to_owned();
    pair.append(":");
    pair.append(password);
    base64_encode(pair.as_str().as_bytes())
}

/// The value of an authorization field made from a token.
pub fn basic_from_token(token: &str) -> (value: String)
    ensures
        value@ == "Basic "@ + token@,
{
    let mut value = "Basic ".to_owned();
    value.append(token);
    value
}

/// The value of an authorization field for a user name and a password.
pub fn basic(username: &str, password: &str) -> (value: String)
    ensures
        value@ == basic_value(username@, password@),
{
    let token = token(username, password);
    basic_from_token(token.as_str())
}

} // verus!
