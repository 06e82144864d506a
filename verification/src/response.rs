//! A response as read from the byte stream of a transport.

use vstd::prelude::*;
use vstd::utf8::{decode_utf8, valid_utf8};
use crate::chunked::{chunked_body, read_chunked_body};
use crate::error::Error;
use crate::headers::{merged, name_eq, same_name, value_of, Fields, Headers};
use crate::lines::{
    copy_range, field_block, find, find_byte, find_line_end, lemma_line_end, line_end,
    read_field_block, text_of, Scan,
};
use crate::status::{class_of, Status, StatusClass};
use crate::text::{all_digits, bytes_eq, digits_value, number_of, parse_number, wire};
use crate::version::Version;

verus! {

/// A response.
#[derive(Debug)]
pub struct Response {
    pub version: Version,
    pub status: Status,
    pub headers: Headers,
    pub body: Vec<u8>,
}

/// A response as plain values.
pub struct ResponseView {
    pub version: Version,
    pub code: u16,
    pub reason: Seq<char>,
    pub fields: Fields,
    pub body: Seq<u8>,
}

impl View for Response {
    type V = ResponseView;

    open spec fn view(&self) -> ResponseView {
        ResponseView {
            version: self.version,
            code: self.status.code,
            reason: self.status.reason@,
            fields: self.headers@,
            body: self.body@,
        }
    }
}

/// How the end of a body is known.
pub enum Framing {
    /// The body comes in chunks.
    Chunked,
    /// The body has this many bytes.
    Length(nat),
    /// The body goes on until the connection is closed.
    UntilClose,
    /// The fields give a length that is no number.
    Invalid,
}

/// The version that a status line starts with.
pub open spec fn version_of_wire(bytes: Seq<u8>) -> Option<Version> {
    if bytes == wire(Version::Http10.token()) {
        Some(Version::Http10)
    } else if bytes == wire(Version::Http11.token()) {
        Some(Version::Http11)
    } else {
        None
    }
}

/// What the status line that ends at `end` holds: a version, a space, a
/// code of three digits, and, behind another space, a reason phrase.
pub open spec fn status_line(bytes: Seq<u8>, end: int) -> Option<(Version, u16, Seq<char>)> {
    let first = find_byte(bytes, 32, 0, end);
    let second = find_byte(bytes, 32, first + 1, end);
    let code = bytes.subrange(first + 1, second);
    let reason = if second < end {
        bytes.subrange(second + 1, end)
    } else {
        Seq::empty()
    };
    if first >= end {
        None
    } else if version_of_wire(bytes.subrange(0, first)).is_none() {
        None
    } else if code.len() != 3 || !all_digits(code) || !valid_utf8(reason) {
        None
    } else {
        Some(
            (
                version_of_wire(bytes.subrange(0, first)).unwrap(),
                digits_value(code) as u16,
                decode_utf8(reason),
            ),
        )
    }
}

/// How the fields frame the body: `Transfer-Encoding: chunked` comes
/// first, then `Content-Length`; without either the body ends with the
/// connection.
pub open spec fn framing_of(fields: Fields) -> Framing {
    if value_of(fields, "Transfer-Encoding"@).is_some() && same_name(
        value_of(fields, "Transfer-Encoding"@).unwrap(),
        "chunked"@,
    ) {
        Framing::Chunked
    } else {
        match value_of(fields, "Content-Length"@) {
            Some(value) => match number_of(wire(value)) {
                Some(n) => if n <= usize::MAX {
                    Framing::Length(n)
                } else {
                    Framing::Invalid
                },
                None => Framing::Invalid,
            },
            None => Framing::UntilClose,
        }
    }
}

/// The body that starts at `start`. `at_end` says that the connection is
/// closed, so that no more bytes will come.
pub open spec fn body_of(bytes: Seq<u8>, start: int, framing: Framing, at_end: bool) -> Scan<
    Seq<u8>,
> {
    match framing {
        Framing::Chunked => chunked_body(bytes, start),
        Framing::Length(n) => if start + n <= bytes.len() {
            Scan::Done(bytes.subrange(start, start + n))
        } else {
            Scan::More
        },
        Framing::UntilClose => if at_end {
            Scan::Done(bytes.skip(start))
        } else {
            Scan::More
        },
        Framing::Invalid => Scan::Bad,
    }
}

/// The response at the start of a stream, as far as it has arrived: a
/// status line, a block of fields, and the body that the fields frame.
pub open spec fn response_so_far(bytes: Seq<u8>, at_end: bool) -> Scan<ResponseView> {
    let end = line_end(bytes, 0);
    if end + 2 > bytes.len() {
        Scan::More
    } else {
        match status_line(bytes, end) {
            None => Scan::Bad,
            Some((version, code, reason)) => match field_block(bytes, end + 2) {
                Scan::More => Scan::More,
                Scan::Bad => Scan::Bad,
                Scan::Done((lines, start)) => {
                    let fields = merged(Seq::empty(), lines);
                    match body_of(bytes, start, framing_of(fields), at_end) {
                        Scan::More => Scan::More,
                        Scan::Bad => Scan::Bad,
                        Scan::Done(body) => Scan::Done(
                            ResponseView { version, code, reason, fields, body },
                        ),
                    }
                },
            },
        }
    }
}

/// The response that a stream holds. On a closed connection a response
/// that has not arrived in full is malformed.
pub open spec fn response_of(bytes: Seq<u8>, at_end: bool) -> Scan<ResponseView> {
    match response_so_far(bytes, at_end) {
        Scan::More => if at_end {
            Scan::Bad
        } else {
            Scan::More
        },
        Scan::Bad => Scan::Bad,
        Scan::Done(response) => Scan::Done(response),
    }
}

fn read_version(bytes: &[u8], to: usize) -> (version: Option<Version>)
    requires
        to <= bytes.len(),
    ensures
        version == version_of_wire(bytes@.subrange(0, to as int)),
{
    let part = copy_range(bytes, 0, to);
    if bytes_eq(part.as_slice(), Version::Http10.as_str().as_bytes()) {
        Some(Version::Http10)
    } else if bytes_eq(part.as_slice(), Version::Http11.as_str().as_bytes()) {
        Some(Version::Http11)
    } else {
        None
    }
}

fn read_code(bytes: &[u8], from: usize, to: usize) -> (code: Option<u16>)
    requires
        from <= to <= bytes.len(),
    ensures
        match code {
            Some(c) => {
                let digits = bytes@.subrange(from as int, to as int);
                digits.len() == 3 && all_digits(digits) && c == digits_value(digits)
            },
            None => {
                let digits = bytes@.subrange(from as int, to as int);
                digits.len() != 3 || !all_digits(digits)
            },
        },
{
    if to - from != 3 {
        return None;
    }
    let ghost digits = bytes@.subrange(from as int, to as int);
    let a = bytes[from];
    let b = bytes[from + 1];
    let c = bytes[from + 2];
    assert(digits[0] == a && digits[1] == b && digits[2] == c);
    if a < 0x30 || a > 0x39 || b < 0x30 || b > 0x39 || c < 0x30 || c > 0x39 {
        return None;
    }
    proof {
        reveal_with_fuel(digits_value, 4);
        let two = digits.drop_last();
        let one = two.drop_last();
        assert(two.last() == b);
        assert(one.last() == a);
        assert(one.drop_last().len() == 0);
    }
    let value: u16 = (a - 0x30) as u16 * 100 + (b - 0x30) as u16 * 10 + (c - 0x30) as u16;
    Some(value)
}

fn read_status_line(bytes: &[u8], end: usize) -> (line: Option<(Version, Status)>)
    requires
        end <= bytes.len(),
    ensures
        match line {
            Some((version, status)) => status_line(bytes@, end as int) == Some(
                (version, status.code, status.reason@),
            ),
            None => status_line(bytes@, end as int).is_none(),
        },
{
    let first = find(bytes, 32, 0, end);
    if first >= end {
        return None;
    }
    let version = match read_version(bytes, first) {
        Some(version) => version,
        None => {
            return None;
        },
    };
    let second = find(bytes, 32, first + 1, end);
    let code = match read_code(bytes, first + 1, second) {
        Some(code) => code,
        None => {
            return None;
        },
    };
    let phrase = if second < end {
        copy_range(bytes, second + 1, end)
    } else {
        Vec::new()
    };
    let reason = match text_of(phrase) {
        Some(reason) => reason,
        None => {
            return None;
        },
    };
    proof {
        vstd::utf8::encode_utf8_decode_utf8(reason@);
    }
    Some((version, Status { code, reason }))
}

/// A way of framing that an executable value stands for.
enum BodyFraming {
    Chunked,
    Length(usize),
    UntilClose,
    Invalid,
}

impl BodyFraming {
    spec fn view(self) -> Framing {
        match self {
            BodyFraming::Chunked => Framing::Chunked,
            BodyFraming::Length(n) => Framing::Length(n as nat),
            BodyFraming::UntilClose => Framing::UntilClose,
            BodyFraming::Invalid => Framing::Invalid,
        }
    }
}

fn read_framing(headers: &Headers) -> (framing: BodyFraming)
    ensures
        framing.view() == framing_of(headers@),
{
    let chunked = match headers.get("Transfer-Encoding") {
        Some(coding) => name_eq(coding.as_str(), "chunked"),
        None => false,
    };
    if chunked {
        return BodyFraming::Chunked;
    }
    match headers.get("Content-Length") {
        Some(value) => match parse_number(value.as_str().as_bytes()) {
            Some(n) => BodyFraming::Length(n),
            None => BodyFraming::Invalid,
        },
        None => BodyFraming::UntilClose,
    }
}

fn read_body(bytes: &[u8], start: usize, framing: BodyFraming, at_end: bool) -> (body: Scan<
    Vec<u8>,
>)
    requires
        start <= bytes.len(),
    ensures
        match body {
            Scan::Done(data) => body_of(bytes@, start as int, framing.view(), at_end)
                == Scan::Done(data@),
            Scan::More => body_of(bytes@, start as int, framing.view(), at_end) == Scan::<
                Seq<u8>,
            >::More,
            Scan::Bad => body_of(bytes@, start as int, framing.view(), at_end) == Scan::<
                Seq<u8>,
            >::Bad,
        },
{
    match framing {
        BodyFraming::Chunked => read_chunked_body(bytes, start),
        BodyFraming::Length(n) => {
            if n <= bytes.len() - start {
                Scan::Done(copy_range(bytes, start, start + n))
            } else {
                Scan::More
            }
        },
        BodyFraming::UntilClose => {
            if at_end {
                let body = copy_range(bytes, start, bytes.len());
                assert(body@ =~= bytes@.skip(start as int));
                Scan::Done(body)
            } else {
                Scan::More
            }
        },
        BodyFraming::Invalid => Scan::Bad,
    }
}

impl Response {
    /// Reads the response at the start of `bytes`, which is what has come
    /// from the transport so far; `at_end` says that the connection is
    /// closed. The result is the response, or `None` where more bytes are
    /// needed, or `MalformedResponse` where the bytes are not the start of a
    /// response, or end before the response does.
    pub fn parse(bytes: &[u8], at_end: bool) -> (result: Result<Option<Response>, Error>)
        ensures
            match result {
                Ok(Some(response)) => response_of(bytes@, at_end) == Scan::Done(response@),
                Ok(None) => response_of(bytes@, at_end) == Scan::<ResponseView>::More,
                Err(error) => response_of(bytes@, at_end) == Scan::<ResponseView>::Bad && error
                    == Error::MalformedResponse,
            },
    {
        match Response::read(bytes, at_end) {
            Scan::Done(response) => Ok(Some(response)),
            Scan::More => if at_end {
                Err(Error::MalformedResponse)
            } else {
                Ok(None)
            },
            Scan::Bad => Err(Error::MalformedResponse),
        }
    }

    fn read(bytes: &[u8], at_end: bool) -> (result: Scan<Response>)
        ensures
            match result {
                Scan::Done(response) => response_so_far(bytes@, at_end) == Scan::Done(response@),
                Scan::More => response_so_far(bytes@, at_end) == Scan::<ResponseView>::More,
                Scan::Bad => response_so_far(bytes@, at_end) == Scan::<ResponseView>::Bad,
            },
    {
        let end = find_line_end(bytes, 0);
        if end >= bytes.len() {
            return Scan::More;
        }
        proof {
            lemma_line_end(bytes@, 0);
        }
        let (version, status) = match read_status_line(bytes, end) {
            Some(line) => line,
            None => {
                return Scan::Bad;
            },
        };
        let (headers, start) = match read_field_block(bytes, end + 2) {
            Scan::Done(block) => block,
            Scan::More => {
                return Scan::More;
            },
            Scan::Bad => {
                return Scan::Bad;
            },
        };
        let framing = read_framing(&headers);
        match read_body(bytes, start, framing, at_end) {
            Scan::Done(body) => Scan::Done(Response { version, status, headers, body }),
            Scan::More => Scan::More,
            Scan::Bad => Scan::Bad,
        }
    }

    /// The value of the `Location` field of a response that redirects.
    pub fn location(&self) -> (target: Option<String>)
        ensures
            match target {
                Some(t) => class_of(self@.code) == StatusClass::Redirection && value_of(
                    self@.fields,
                    "Location"@,
                ) == Some(t@),
                None => class_of(self@.code) != StatusClass::Redirection || value_of(
                    self@.fields,
                    "Location"@,
                ).is_none(),
            },
    {
        if self.status.is_redirection() {
            self.headers.get("Location")
        } else {
            None
        }
    }
}

} // verus!
