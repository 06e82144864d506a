//! A request and its form on the wire.

use vstd::prelude::*;
use bytes::Bytes;
use crate::credentials::{basic, basic_value};
use crate::endpoint::{Endpoint, EndpointView, ProxyTarget, ProxyTargetView};
use crate::headers::{
    has_name, inserted, lemma_removed, merged, removed, value_of, Fields, Headers,
};
use crate::method::Method;
use crate::payload::payload;
use crate::text::{decimal, decimal_string, number_of, parse_number, push_text, wire};
use crate::version::Version;

verus! {

/// A request to be sent.
#[derive(Debug)]
pub struct Request {
    method: Method,
    request_uri: String,
    version: Version,
    headers: Headers,
    host: String,
    body: Option<Bytes>,
}

/// A request as plain values.
pub struct RequestView {
    pub method: Method,
    /// The request-target, in the form chosen when the request was made.
    pub target: Seq<char>,
    pub version: Version,
    pub fields: Fields,
    /// The host and port that the request is for.
    pub host: Seq<char>,
    pub body: Option<Seq<u8>>,
}

/// The request-target for an endpoint: absolute-form through a proxy that
/// forwards requests, origin-form without a proxy and through a tunnel.
pub open spec fn target_of(uri: EndpointView, proxy: Option<ProxyTargetView>) -> Seq<char> {
    match proxy {
        Some(p) => if p.wants_absolute_form() {
            uri.absolute_uri()
        } else {
            uri.abs_path()
        },
        None => uri.abs_path(),
    }
}

/// The request that `Request::new` makes.
pub open spec fn initial(uri: EndpointView, proxy: Option<ProxyTargetView>) -> RequestView {
    RequestView {
        method: Method::GET,
        target: target_of(uri, proxy),
        version: Version::Http11,
        fields: seq![("Host"@, uri.host_header())],
        host: match uri.host_port() {
            Some(address) => address,
            None => Seq::empty(),
        },
        body: None,
    }
}

/// The first line of a request.
pub open spec fn request_line_of(method: Method, target: Seq<char>, version: Version) -> Seq<char> {
    method.token() + " "@ + target + " "@ + version.token() + "\r\n"@
}

/// One field as a line.
pub open spec fn field_line(field: (Seq<char>, Seq<char>)) -> Seq<char> {
    field.0 + ": "@ + field.1 + "\r\n"@
}

/// The fields as lines, in order.
pub open spec fn field_lines(fields: Fields) -> Seq<char>
    decreases fields.len(),
{
    if fields.len() == 0 {
        Seq::empty()
    } else {
        field_lines(fields.drop_last()) + field_line(fields.last())
    }
}

/// The number that the `Content-Length` field stands for; zero where there
/// is no such field and where its value is no number that a `usize` holds.
pub open spec fn content_length_of(fields: Fields) -> nat {
    match value_of(fields, "Content-Length"@) {
        Some(value) => match number_of(wire(value)) {
            Some(n) => if n <= usize::MAX {
                n
            } else {
                0
            },
            None => 0,
        },
        None => 0,
    }
}

impl RequestView {
    /// The first line.
    pub open spec fn request_line(self) -> Seq<char> {
        request_line_of(self.method, self.target, self.version)
    }

    /// All that precedes the body: the first line, the fields and an empty
    /// line.
    pub open spec fn head(self) -> Seq<char> {
        self.request_line() + field_lines(self.fields) + "\r\n"@
    }

    /// The bytes of the body; none where no body is set.
    pub open spec fn body_bytes(self) -> Seq<u8> {
        match self.body {
            Some(b) => b,
            None => Seq::empty(),
        }
    }

    /// The request as it is sent.
    pub open spec fn message(self) -> Seq<u8> {
        wire(self.head()) + self.body_bytes()
    }

    /// The request with a body set, or with none: a body brings a
    /// `Content-Length` field with its length, no body takes the field away.
    pub open spec fn with_body(self, body: Option<Seq<u8>>) -> RequestView {
        RequestView {
            fields: match body {
                Some(b) => inserted(self.fields, "Content-Length"@, decimal(b.len())),
                None => removed(self.fields, "Content-Length"@),
            },
            body,
            ..self
        }
    }

    /// Whether the `Content-Length` field and the body agree: the field is
    /// there exactly if a body is set, and then gives its length.
    pub open spec fn framed(self) -> bool {
        match self.body {
            Some(b) => value_of(self.fields, "Content-Length"@) == Some(decimal(b.len())),
            None => !has_name(self.fields, "Content-Length"@),
        }
    }
}

impl View for Request {
    type V = RequestView;

    closed spec fn view(&self) -> RequestView {
        RequestView {
            method: self.method,
            target: self.request_uri@,
            version: self.version,
            fields: self.headers@,
            host: self.host@,
            body: match self.body {
                Some(b) => Some(payload(b)),
                None => None,
            },
        }
    }
}

impl Clone for Request {
    fn clone(&self) -> (copy: Self)
        ensures
            copy@ == self@,
    {
        Request {
            method: self.method,
            request_uri: self.request_uri.clone(),
            version: self.version,
            headers: self.headers.clone(),
            host: self.host.clone(),
            body: self.get_body(),
        }
    }
}

impl Request {
    /// A `GET` request for `uri` over HTTP/1.1 with a `Host` field and no
    /// body. Its target is in absolute-form where `proxy` forwards requests,
    /// else in origin-form.
    pub fn new(uri: &Endpoint, proxy: Option<&ProxyTarget>) -> (request: Request)
        ensures
            request@ == initial(
                uri@,
                match proxy {
                    Some(p) => Some(p@),
                    None => None,
                },
            ),
    {
        let absolute = match proxy {
            Some(p) => p.wants_absolute_form(),
            None => false,
        };
        let request_uri = if absolute {
            uri.absolute_uri()
        } else {
            uri.abs_path()
        };
        let host = match uri.host_port() {
            Some(address) => address,
            None => String::new(),
        };
        Request {
            method: Method::GET,
            request_uri,
            version: Version::Http11,
            headers: Headers::default_http(uri.host_header().as_str()),
            host,
            body: None,
        }
    }

    /// The first line: method, request-target and version, each a space
    /// apart, then CR LF.
    pub fn request_line(&self) -> (line: String)
        ensures
            line@ == self@.request_line(),
    {
        let mut line = self.method.as_str().to_owned();
        line.append(" ");
        line.append(self.request_uri.as_str());
        line.append(" ");
        line.append(self.version.as_str());
        line.append("\r\n");
        line
    }

    /// The value of the `User-Agent` field.
    pub fn user_agent(&self) -> (value: Option<String>)
        ensures
            match value {
                Some(v) => value_of(self@.fields, "User-Agent"@) == Some(v@),
                None => value_of(self@.fields, "User-Agent"@).is_none(),
            },
    {
        self.headers.get("User-Agent")
    }

    /// The value of the `Referer` field.
    pub fn referer(&self) -> (value: Option<String>)
        ensures
            match value {
                Some(v) => value_of(self@.fields, "Referer"@) == Some(v@),
                None => value_of(self@.fields, "Referer"@).is_none(),
            },
    {
        self.headers.get("Referer")
    }

    /// Gives each field of `headers`, in order, to the request.
    pub fn headers(&mut self, headers: Headers) -> (this: &mut Self)
        ensures
            this@ == (RequestView {
                fields: merged(old(self)@.fields, headers@),
                ..old(self)@
            }),
            *final(self) == *final(this),
    {
        self.headers.extend(&headers);
        self
    }

    /// Gives the field `key` the value `val`.
    pub fn header(&mut self, key: &str, val: &str) -> (this: &mut Self)
        ensures
            this@ == (RequestView { fields: inserted(old(self)@.fields, key@, val@), ..old(self)@ }),
            *final(self) == *final(this),
    {
        self.headers.insert(key, val);
        self
    }

    /// Takes out every field named `key`.
    pub fn header_remove(&mut self, key: &str) -> (this: &mut Self)
        ensures
            this@ == (RequestView { fields: removed(old(self)@.fields, key@), ..old(self)@ }),
            *final(self) == *final(this),
    {
        self.headers.remove(key);
        self
    }

    /// Sets the method.
    pub fn method(&mut self, method: Method) -> (this: &mut Self)
        ensures
            this@ == (RequestView { method, ..old(self)@ }),
            *final(self) == *final(this),
    {
        self.method = method;
        self
    }

    /// Sets the version.
    pub fn version(&mut self, version: Version) -> (this: &mut Self)
        ensures
            this@ == (RequestView { version, ..old(self)@ }),
            *final(self) == *final(this),
    {
        self.version = version;
        self
    }

    /// Sets the body from the outcome of a conversion. A body that was
    /// converted is set, and `Content-Length` with its length; where the
    /// conversion failed (`None`) the body and the field are taken away.
    pub fn body(&mut self, value: Option<Bytes>) -> (this: &mut Self)
        ensures
            this@ == old(self)@.with_body(
                match value {
                    Some(b) => Some(payload(b)),
                    None => None,
                },
            ),
            this@.framed(),
            content_length_of(this@.fields) == this@.body_bytes().len(),
            *final(self) == *final(this),
    {
        self.headers.names_are_distinct();
        match value {
            Some(body) => {
                let length = decimal_string(body.len());
                proof {
                    lemma_with_body(self@, Some(payload(body)));
                }
                self.body = Some(body);
                self.headers.insert("Content-Length", length.as_str());
            },
            None => {
                proof {
                    lemma_with_body(self@, None);
                }
                self.body = None;
                self.headers.remove("Content-Length");
            },
        }
        self
    }

    /// Sets the body where there is one to set, as `body` does; with
    /// `None` the body and `Content-Length` are taken away.
    pub fn opt_body(&mut self, value: Option<Option<Bytes>>) -> (this: &mut Self)
        ensures
            this@ == old(self)@.with_body(
                match value {
                    Some(Some(b)) => Some(payload(b)),
                    _ => None,
                },
            ),
            this@.framed(),
            content_length_of(this@.fields) == this@.body_bytes().len(),
            *final(self) == *final(this),
    {
        match value {
            Some(body) => self.body(body),
            None => self.body(None),
        }
    }

    /// Sets `Authorization` to the `Basic` credentials of a user name and a
    /// password.
    pub fn set_basic_auth(&mut self, username: &str, password: &str) -> (this: &mut Self)
        ensures
            this@ == (RequestView {
                fields: inserted(
                    old(self)@.fields,
                    "Authorization"@,
                    basic_value(username@, password@),
                ),
                ..old(self)@
            }),
            *final(self) == *final(this),
    {
        let value = basic(username, password);
        self.headers.insert("Authorization", value.as_str());
        self
    }

    /// The request as it is sent: the first line, each field as a line, an
    /// empty line, and the body.
    pub fn to_vec(&self) -> (message: Vec<u8>)
        ensures
            message@ == self@.message(),
    {
        let mut head = self.request_line();
        let fields = self.headers.iter();
        let mut i: usize = 0;
        assert(self@.fields.take(0) =~= Fields::empty());
        while i < fields.len()
            invariant
                i <= fields.len(),
                crate::headers::fields_view(fields@) == self@.fields,
                head@ == self@.request_line() + field_lines(self@.fields.take(i as int)),
            decreases fields.len() - i,
        {
            proof {
                assert(self@.fields.take(i + 1).drop_last() =~= self@.fields.take(i as int));
                assert(self@.fields.take(i + 1).last() == self@.fields[i as int]);
            }
            let ghost before = head@;
            head.append(fields[i].0.as_str());
            head.append(": ");
            head.append(fields[i].1.as_str());
            head.append("\r\n");
            assert(head@ =~= before + field_line(self@.fields[i as int]));
            assert(head@ =~= self@.request_line() + field_lines(self@.fields.take(i + 1)));
            i += 1;
        }
        assert(self@.fields.take(i as int) =~= self@.fields);
        head.append("\r\n");
        let mut message: Vec<u8> = Vec::new();
        push_text(&mut message, head.as_str());
        match &self.body {
            Some(body) => {
                let held = body.as_ref();
                let ghost before = message@;
                let mut k: usize = 0;
                while k < held.len()
                    invariant
                        k <= held.len(),
                        message@ == before + held@.take(k as int),
                    decreases held.len() - k,
                {
                    message.push(held[k]);
                    k += 1;
                    assert(message@ =~= before + held@.take(k as int));
                }
                assert(held@.take(k as int) =~= held@);
            },
            None => {},
        }
        assert(message@ =~= self@.message());
        message
    }

    /// The number that the `Content-Length` field stands for; zero where
    /// there is no such field and where its value is no such number.
    pub fn content_length(&self) -> (length: usize)
        ensures
            length == content_length_of(self@.fields),
    {
        match self.headers.get("Content-Length") {
            Some(value) => match parse_number(value.as_str().as_bytes()) {
                Some(n) => n,
                None => 0,
            },
            None => 0,
        }
    }

    /// The body, if one is set.
    pub fn get_body(&self) -> (body: Option<Bytes>)
        ensures
            match body {
                Some(b) => self@.body == Some(payload(b)),
                None => self@.body.is_none(),
            },
    {
        match &self.body {
            Some(b) => Some(b.clone()),
            None => None,
        }
    }

    /// A copy of the fields.
    pub fn get_headers(&self) -> (headers: Headers)
        ensures
            headers@ == self@.fields,
    {
        self.headers.clone()
    }

    /// The request-target.
    pub fn request_uri(&self) -> (target: String)
        ensures
            target@ == self@.target,
    {
        self.request_uri.clone()
    }

    /// The host and port that the request is for.
    pub fn host(&self) -> (host: String)
        ensures
            host@ == self@.host,
    {
        self.host.clone()
    }
}

/// After a body is set, `Content-Length` gives its length; after it is
/// taken away, there is no such field and the length reads as zero.
pub proof fn lemma_with_body(request: RequestView, body: Option<Seq<u8>>)
    requires
        crate::headers::distinct_names(request.fields),
        body matches Some(b) ==> b.len() <= usize::MAX,
    ensures
        request.with_body(body).framed(),
        content_length_of(request.with_body(body).fields) == request.with_body(body).body_bytes().len(),
        body.is_none() ==> !has_name(request.with_body(body).fields, "Content-Length"@),
{
    match body {
        Some(b) => {
            crate::headers::lemma_value_of_inserted(
                request.fields,
                "Content-Length"@,
                decimal(b.len()),
            );
            crate::text::lemma_number_of_decimal(b.len());
        },
        None => {
            lemma_removed(request.fields, "Content-Length"@);
        },
    }
}

} // verus!
