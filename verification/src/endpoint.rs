//! Where a request goes, and through which proxy: the parts of a parsed URI
//! that the engine reads.

use vstd::prelude::*;
use crate::credentials::{token, token_of};
use crate::text::{decimal, push_decimal, str_eq};

verus! {

/// The port that a scheme uses where a URI names none.
pub open spec fn default_port_of(scheme: Seq<char>) -> Option<u16> {
    if scheme == "http"@ {
        Some(80u16)
    } else if scheme == "https"@ {
        Some(443u16)
    } else if scheme == "socks5"@ || scheme == "socks5h"@ {
        Some(1080u16)
    } else {
        None
    }
}

/// The port that a scheme uses where a URI names none.
pub fn default_port(scheme: &str) -> (port: Option<u16>)
    ensures
        port == default_port_of(scheme@),
{
    if str_eq(scheme, "http") {
        Some(80)
    } else if str_eq(scheme, "https") {
        Some(443)
    } else if str_eq(scheme, "socks5") || str_eq(scheme, "socks5h") {
        Some(1080)
    } else {
        None
    }
}

/// The port to connect to: the one that the URI names, else the scheme's.
pub open spec fn effective_port_of(scheme: Seq<char>, port: Option<u16>) -> Option<u16> {
    match port {
        Some(p) => Some(p),
        None => default_port_of(scheme),
    }
}

/// A host as an authority: the host alone, or the host, a colon and the
/// port where the URI names a port that is not the scheme's own.
pub open spec fn authority_of(scheme: Seq<char>, host: Seq<char>, port: Option<u16>) -> Seq<char> {
    match port {
        Some(p) => if default_port_of(scheme) == Some(p) {
            host
        } else {
            host + ":"@ + decimal(p as nat)
        },
        None => host,
    }
}

/// A host and the port to connect to, joined by a colon.
pub open spec fn address_of(scheme: Seq<char>, host: Seq<char>, port: Option<u16>) -> Option<
    Seq<char>,
> {
    match effective_port_of(scheme, port) {
        Some(p) => Some(host + ":"@ + decimal(p as nat)),
        None => None,
    }
}

fn authority(scheme: &str, host: &str, port: Option<u16>) -> (text: String)
    ensures
        text@ == authority_of(scheme@, host@, port),
{
    let mut text = host.to_owned();
    match port {
        Some(p) => {
            if default_port(scheme) != Some(p) {
                text.append(":");
                push_decimal(&mut text, p as usize);
            }
        },
        None => {},
    }
    text
}

fn address(scheme: &str, host: &str, port: Option<u16>) -> (text: Option<String>)
    ensures
        match text {
            Some(t) => address_of(scheme@, host@, port) == Some(t@),
            None => address_of(scheme@, host@, port).is_none(),
        },
{
    let effective = match port {
        Some(p) => Some(p),
        None => default_port(scheme),
    };
    match effective {
        Some(p) => {
            let mut text = host.to_owned();
            text.append(":");
            push_decimal(&mut text, p as usize);
            Some(text)
        },
        None => None,
    }
}

/// The target of a request: the parts of its URI.
#[derive(Debug)]
pub struct Endpoint {
    pub scheme: String,
    pub host: String,
    /// The port that the URI names, if it names one.
    pub port: Option<u16>,
    pub path: String,
    /// What follows the question mark, if there is one.
    pub query: Option<String>,
}

/// An endpoint as plain values.
pub struct EndpointView {
    pub scheme: Seq<char>,
    pub host: Seq<char>,
    pub port: Option<u16>,
    pub path: Seq<char>,
    pub query: Option<Seq<char>>,
}

impl EndpointView {
    /// Origin-form: the path, or a slash where the path is empty, then the
    /// query behind a question mark.
    pub open spec fn abs_path(self) -> Seq<char> {
        let path = if self.path.len() == 0 {
            "/"@
        } else {
            self.path
        };
        match self.query {
            Some(q) => path + "?"@ + q,
            None => path,
        }
    }

    /// What the `Host` field holds.
    pub open spec fn host_header(self) -> Seq<char> {
        authority_of(self.scheme, self.host, self.port)
    }

    /// The host and the port to connect to.
    pub open spec fn host_port(self) -> Option<Seq<char>> {
        address_of(self.scheme, self.host, self.port)
    }

    /// Absolute-form: scheme, authority and origin-form.
    pub open spec fn absolute_uri(self) -> Seq<char> {
        self.scheme + "://"@ + self.host_header() + self.abs_path()
    }

    /// Whether the scheme asks for TLS.
    pub open spec fn is_secure(self) -> bool {
        self.scheme == "https"@
    }
}

impl View for Endpoint {
    type V = EndpointView;

    open spec fn view(&self) -> EndpointView {
        EndpointView {
            scheme: self.scheme@,
            host: self.host@,
            port: self.port,
            path: self.path@,
            query: match self.query {
                Some(q) => Some(q@),
                None => None,
            },
        }
    }
}

impl Endpoint {
    /// The request-target in origin-form.
    pub fn abs_path(&self) -> (target: String)
        ensures
            target@ == self@.abs_path(),
    {
        let mut target = if self.path.as_str().is_empty() {
            "/".to_owned()
        } else {
            self.path.clone()
        };
        match &self.query {
            Some(q) => {
                target.append("?");
                target.append(q.as_str());
            },
            None => {},
        }
        target
    }

    /// The value of the `Host` field.
    pub fn host_header(&self) -> (text: String)
        ensures
            text@ == self@.host_header(),
    {
        authority(self.scheme.as_str(), self.host.as_str(), self.port)
    }

    /// The host and the port to connect to, if the URI or its scheme names
    /// a port.
    pub fn host_port(&self) -> (text: Option<String>)
        ensures
            match text {
                Some(t) => self@.host_port() == Some(t@),
                None => self@.host_port().is_none(),
            },
    {
        address(self.scheme.as_str(), self.host.as_str(), self.port)
    }

    /// The request-target in absolute-form.
    pub fn absolute_uri(&self) -> (target: String)
        ensures
            target@ == self@.absolute_uri(),
    {
        let mut target = self.scheme.clone();
        target.append("://");
        target.append(self.host_header().as_str());
        target.append(self.abs_path().as_str());
        target
    }

    /// Whether the scheme asks for TLS.
    pub fn is_secure(&self) -> (secure: bool)
        ensures
            secure == self@.is_secure(),
    {
        str_eq(self.scheme.as_str(), "https")
    }
}

impl Clone for Endpoint {
    fn clone(&self) -> (copy: Self)
        ensures
            copy@ == self@,
    {
        Endpoint {
            scheme: self.scheme.clone(),
            host: self.host.clone(),
            port: self.port,
            path: self.path.clone(),
            query: match &self.query {
                Some(q) => Some(q.clone()),
                None => None,
            },
        }
    }
}

/// How a proxy carries a request.
#[derive(Clone, Copy, Debug, PartialEq, Eq, Structural)]
pub enum ProxyKind {
    /// A SOCKS5 tunnel to an address that this side has resolved.
    Socks5,
    /// A SOCKS5 tunnel to a host name that the proxy resolves.
    Socks5h,
    /// A forward proxy reached in the clear.
    Http,
    /// A forward proxy reached over TLS.
    Https,
}

/// The kind of proxy that a scheme names, if it is one of the four known.
pub open spec fn proxy_kind_of(scheme: Seq<char>) -> Option<ProxyKind> {
    if scheme == "socks5"@ {
        Some(ProxyKind::Socks5)
    } else if scheme == "socks5h"@ {
        Some(ProxyKind::Socks5h)
    } else if scheme == "http"@ {
        Some(ProxyKind::Http)
    } else if scheme == "https"@ {
        Some(ProxyKind::Https)
    } else {
        None
    }
}

impl ProxyKind {
    /// Whether the proxy relays bytes below the level of requests.
    pub open spec fn is_tunnel(self) -> bool {
        self == ProxyKind::Socks5 || self == ProxyKind::Socks5h
    }
}

/// A proxy: the parts of its URI.
#[derive(Debug)]
pub struct ProxyTarget {
    pub scheme: String,
    pub host: String,
    /// The port that the URI names, if it names one.
    pub port: Option<u16>,
    /// The user name and the password that the URI carries, if any.
    pub credentials: Option<(String, String)>,
}

/// A proxy as plain values.
pub struct ProxyTargetView {
    pub scheme: Seq<char>,
    pub host: Seq<char>,
    pub port: Option<u16>,
    pub credentials: Option<(Seq<char>, Seq<char>)>,
}

impl ProxyTargetView {
    /// The kind of the proxy, if its scheme is known.
    pub open spec fn kind(self) -> Option<ProxyKind> {
        proxy_kind_of(self.scheme)
    }

    /// Whether a request through this proxy names its target in full: so it
    /// is for every proxy but a SOCKS5 tunnel.
    pub open spec fn wants_absolute_form(self) -> bool {
        self.scheme != "socks5"@ && self.scheme != "socks5h"@
    }

    /// The credentials as one token.
    pub open spec fn base64_auth(self) -> Option<Seq<char>> {
        match self.credentials {
            Some(c) => Some(token_of(c.0, c.1)),
            None => None,
        }
    }

    /// The host and the port to connect to.
    pub open spec fn host_port(self) -> Option<Seq<char>> {
        address_of(self.scheme, self.host, self.port)
    }

    /// Whether the proxy itself is reached over TLS.
    pub open spec fn is_secure(self) -> bool {
        self.scheme == "https"@
    }
}

impl View for ProxyTarget {
    type V = ProxyTargetView;

    open spec fn view(&self) -> ProxyTargetView {
        ProxyTargetView {
            scheme: self.scheme@,
            host: self.host@,
            port: self.port,
            credentials: match self.credentials {
                Some(c) => Some((c.0@, c.1@)),
                None => None,
            },
        }
    }
}

impl ProxyTarget {
    /// The kind of the proxy, if its scheme is known.
    pub fn kind(&self) -> (kind: Option<ProxyKind>)
        ensures
            kind == self@.kind(),
    {
        let scheme = self.scheme.as_str();
        if str_eq(scheme, "socks5") {
            Some(ProxyKind::Socks5)
        } else if str_eq(scheme, "socks5h") {
            Some(ProxyKind::Socks5h)
        } else if str_eq(scheme, "http") {
            Some(ProxyKind::Http)
        } else if str_eq(scheme, "https") {
            Some(ProxyKind::Https)
        } else {
            None
        }
    }

    /// Whether a request through this proxy names its target in full.
    pub fn wants_absolute_form(&self) -> (absolute: bool)
        ensures
            absolute == self@.wants_absolute_form(),
    {
        let scheme = self.scheme.as_str();
        !str_eq(scheme, "socks5") && !str_eq(scheme, "socks5h")
    }

    /// The credentials that the URI carries, as one token.
    pub fn base64_auth(&self) -> (text: Option<String>)
        ensures
            match text {
                Some(t) => self@.base64_auth() == Some(t@),
                None => self@.base64_auth().is_none(),
            },
    {
        match &self.credentials {
            Some(c) => Some(token(c.0.as_str(), c.1.as_str())),
            None => None,
        }
    }

    /// The host and the port to connect to, if the URI or its scheme names
    /// a port.
    pub fn host_port(&self) -> (text: Option<String>)
        ensures
            match text {
                Some(t) => self@.host_port() == Some(t@),
                None => self@.host_port().is_none(),
            },
    {
        address(self.scheme.as_str(), self.host.as_str(), self.port)
    }

    /// Whether the proxy itself is reached over TLS.
    pub fn is_secure(&self) -> (secure: bool)
        ensures
            secure == self@.is_secure(),
    {
        str_eq(self.scheme.as_str(), "https")
    }
}

impl Clone for ProxyTarget {
    fn clone(&self) -> (copy: Self)
        ensures
            copy@ == self@,
    {
        ProxyTarget {
            scheme: self.scheme.clone(),
            host: self.host.clone(),
            port: self.port,
            credentials: match &self.credentials {
                Some(c) => Some((c.0.clone(), c.1.clone())),
                None => None,
            },
        }
    }
}

} // verus!
