//! What can go wrong between configuring a client and reading a response.

use vstd::prelude::*;

verus! {

/// Why no connection came about.
#[derive(Clone, Copy, Debug, PartialEq, Eq, Structural)]
pub enum ConnectFailure {
    /// No address could be found for the peer.
    Resolve,
    /// The peer did not answer in time.
    TimedOut,
    /// The peer refused the connection.
    Refused,
}

/// Why a SOCKS5 negotiation failed.
#[derive(Clone, Copy, Debug, PartialEq, Eq, Structural)]
pub enum SocksFailure {
    /// A reply did not start with the version byte of SOCKS5.
    BadVersion,
    /// The proxy accepted none of the offered authentication methods.
    AuthRejected,
    /// The proxy could not reach the target; the byte is its reply code.
    TargetRefused(u8),
    /// The target cannot be named in a request, or a reply is cut short
    /// or names an unknown kind of address.
    Malformed,
}

/// An error of the engine.
#[derive(Debug)]
pub enum Error {
    /// No target URI was configured.
    EmptyUri,
    /// The proxy URI has a scheme other than the four known; it is held
    /// here.
    UnsupportedProxyScheme(String),
    Connect(ConnectFailure),
    TlsHandshake,
    SocksNegotiation(SocksFailure),
    /// The exchange took longer than the configured timeout.
    Timeout,
    MalformedResponse,
    /// A chain of redirects is too long or comes back to an endpoint.
    RedirectLimitExceeded,
}

/// An error as plain values.
pub enum ErrorView {
    EmptyUri,
    UnsupportedProxyScheme(Seq<char>),
    Connect(ConnectFailure),
    TlsHandshake,
    SocksNegotiation(SocksFailure),
    Timeout,
    MalformedResponse,
    RedirectLimitExceeded,
}

impl View for Error {
    type V = ErrorView;

    open spec fn view(&self) -> ErrorView {
        match self {
            Error::EmptyUri => ErrorView::EmptyUri,
            Error::UnsupportedProxyScheme(scheme) => ErrorView::UnsupportedProxyScheme(scheme@),
            Error::Connect(why) => ErrorView::Connect(*why),
            Error::TlsHandshake => ErrorView::TlsHandshake,
            Error::SocksNegotiation(why) => ErrorView::SocksNegotiation(*why),
            Error::Timeout => ErrorView::Timeout,
            Error::MalformedResponse => ErrorView::MalformedResponse,
            Error::RedirectLimitExceeded => ErrorView::RedirectLimitExceeded,
        }
    }
}

impl ErrorView {
    /// The error in words.
    pub open spec fn message(self) -> Seq<char> {
        match self {
            ErrorView::EmptyUri => "empty uri"@,
            ErrorView::UnsupportedProxyScheme(scheme) => "unsupported proxy scheme: "@ + scheme,
            ErrorView::Connect(ConnectFailure::Resolve) => "cannot resolve address"@,
            ErrorView::Connect(ConnectFailure::TimedOut) => "connect timed out"@,
            ErrorView::Connect(ConnectFailure::Refused) => "connection refused"@,
            ErrorView::TlsHandshake => "tls handshake failed"@,
            ErrorView::SocksNegotiation(SocksFailure::BadVersion) => "socks: bad version"@,
            ErrorView::SocksNegotiation(SocksFailure::AuthRejected) => "socks: authentication rejected"@,
            ErrorView::SocksNegotiation(SocksFailure::TargetRefused(_)) => "socks: target refused"@,
            ErrorView::SocksNegotiation(SocksFailure::Malformed) => "socks: malformed message"@,
            ErrorView::Timeout => "timeout"@,
            ErrorView::MalformedResponse => "malformed response"@,
            ErrorView::RedirectLimitExceeded => "redirect limit exceeded"@,
        }
    }
}

impl Error {
    /// The error in words.
    pub fn message(&self) -> (text: String)
        ensures
            text@ == self@.message(),
    {
        match self {
            Error::EmptyUri => "empty uri".to_owned(),
            Error::UnsupportedProxyScheme(scheme) => {
                let mut text = "unsupported proxy scheme: ".to_owned();
                text.append(scheme.as_str());
                text
            },
            Error::Connect(ConnectFailure::Resolve) => "cannot resolve address".to_owned(),
            Error::Connect(ConnectFailure::TimedOut) => "connect timed out".to_owned(),
            Error::Connect(ConnectFailure::Refused) => "connection refused".to_owned(),
            Error::TlsHandshake => "tls handshake failed".to_owned(),
            Error::SocksNegotiation(SocksFailure::BadVersion) => "socks: bad version".to_owned(),
            Error::SocksNegotiation(SocksFailure::AuthRejected) => {
                "socks: authentication rejected".to_owned()
            },
            Error::SocksNegotiation(SocksFailure::TargetRefused(_)) => {
                "socks: target refused".to_owned()
            },
            Error::SocksNegotiation(SocksFailure::Malformed) => "socks: malformed message".to_owned(),
            Error::Timeout => "timeout".to_owned(),
            Error::MalformedResponse => "malformed response".to_owned(),
            Error::RedirectLimitExceeded => "redirect limit exceeded".to_owned(),
        }
    }
}

} // verus!
