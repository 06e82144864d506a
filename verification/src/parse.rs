//! Reading a request back from the bytes that were sent.

use vstd::prelude::*;
use vstd::utf8::{decode_utf8, valid_utf8};
use crate::headers::{merged, Fields, Headers};
use crate::lines::{
    copy_range, field_block, find, find_byte, find_line_end, lemma_line_end, line_end,
    read_field_block, text_of, Scan,
};
use crate::method::Method;
use crate::version::Version;

verus! {

/// What a request holds on the wire.
#[derive(Debug)]
pub struct RequestParts {
    pub method: Method,
    pub target: String,
    pub version: Version,
    pub headers: Headers,
    pub body: Vec<u8>,
}

/// The parts of a request as plain values.
pub struct RequestPartsView {
    pub method: Method,
    pub target: Seq<char>,
    pub version: Version,
    pub fields: Fields,
    pub body: Seq<u8>,
}

impl View for RequestParts {
    type V = RequestPartsView;

    open spec fn view(&self) -> RequestPartsView {
        RequestPartsView {
            method: self.method,
            target: self.target@,
            version: self.version,
            fields: self.headers@,
            body: self.body@,
        }
    }
}

/// The text that bytes encode, if they are UTF-8.
pub open spec fn text_in(bytes: Seq<u8>) -> Option<Seq<char>> {
    if valid_utf8(bytes) {
        Some(decode_utf8(bytes))
    } else {
        None
    }
}

/// What the request line that ends at `end` holds: a method, a target and
/// a version, a space between each two.
pub open spec fn request_line_parts(bytes: Seq<u8>, end: int) -> Option<
    (Method, Seq<char>, Version),
> {
    let first = find_byte(bytes, 32, 0, end);
    let second = find_byte(bytes, 32, first + 1, end);
    if first >= end || second >= end {
        None
    } else {
        match (
            text_in(bytes.subrange(0, first)),
            text_in(bytes.subrange(first + 1, second)),
            text_in(bytes.subrange(second + 1, end)),
        ) {
            (Some(method), Some(target), Some(version)) => match (
                Method::of_token(method),
                Version::of_token(version),
            ) {
                (Some(m), Some(v)) => Some((m, target, v)),
                _ => None,
            },
            _ => None,
        }
    }
}

/// The request that bytes hold: a request line, a block of fields, and as
/// body all that follows the empty line.
pub open spec fn request_in(bytes: Seq<u8>) -> Option<RequestPartsView> {
    let end = line_end(bytes, 0);
    if end + 2 > bytes.len() {
        None
    } else {
        match (request_line_parts(bytes, end), field_block(bytes, end + 2)) {
            (Some((method, target, version)), Scan::Done((lines, start))) => Some(
                RequestPartsView {
                    method,
                    target,
                    version,
                    fields: merged(Seq::empty(), lines),
                    body: bytes.skip(start),
                },
            ),
            _ => None,
        }
    }
}

fn read_text(bytes: &[u8], from: usize, to: usize) -> (text: Option<String>)
    requires
        from <= to <= bytes.len(),
    ensures
        match text {
            Some(t) => text_in(bytes@.subrange(from as int, to as int)) == Some(t@),
            None => text_in(bytes@.subrange(from as int, to as int)).is_none(),
        },
{
    match text_of(copy_range(bytes, from, to)) {
        Some(text) => {
            proof {
                vstd::utf8::encode_utf8_decode_utf8(text@);
            }
            Some(text)
        },
        None => None,
    }
}

fn read_request_line(bytes: &[u8], end: usize) -> (line: Option<(Method, String, Version)>)
    requires
        end <= bytes.len(),
    ensures
        match line {
            Some((method, target, version)) => request_line_parts(bytes@, end as int) == Some(
                (method, target@, version),
            ),
            None => request_line_parts(bytes@, end as int).is_none(),
        },
{
    let first = find(bytes, 32, 0, end);
    if first >= end {
        return None;
    }
    let second = find(bytes, 32, first + 1, end);
    if second >= end {
        return None;
    }
    let method = read_text(bytes, 0, first);
    let target = read_text(bytes, first + 1, second);
    let version = read_text(bytes, second + 1, end);
    match (method, target, version) {
        (Some(method), Some(target), Some(version)) => {
            match (Method::parse(method.as_str()), Version::parse(version.as_str())) {
                (Some(m), Some(v)) => Some((m, target, v)),
                _ => None,
            }
        },
        _ => None,
    }
}

/// Reads a request from its bytes.
pub fn parse_request(bytes: &[u8]) -> (request: Option<RequestParts>)
    ensures
        match request {
            Some(parts) => request_in(bytes@) == Some(parts@),
            None => request_in(bytes@).is_none(),
        },
{
    let end = find_line_end(bytes, 0);
    if end >= bytes.len() {
        return None;
    }
    proof {
        lemma_line_end(bytes@, 0);
    }
    let (method, target, version) = match read_request_line(bytes, end) {
        Some(line) => line,
        None => {
            return None;
        },
    };
    match read_field_block(bytes, end + 2) {
        Scan::Done((headers, start)) => {
            let body = copy_range(bytes, start, bytes.len());
            assert(body@ =~= bytes@.skip(start as int));
            Some(RequestParts { method, target, version, headers, body })
        },
        _ => None,
    }
}

} // verus!
