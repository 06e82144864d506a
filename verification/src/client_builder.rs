//! Configuration of a client, gathered call by call and checked once, when
//! the client is built.

use vstd::prelude::*;
use std::time::Duration;
use bytes::Bytes;
use crate::client::{Client, ClientView};
use crate::credentials::basic_from_token;
use crate::endpoint::{Endpoint, EndpointView, ProxyKind, ProxyTarget, ProxyTargetView};
use crate::error::{Error, ErrorView};
use crate::headers::{
    distinct_names, inserted, lemma_merged_keeps_distinct, merged, removed, Fields, Headers,
};
use crate::method::Method;
use crate::payload::payload;
use crate::request::{content_length_of, initial, lemma_with_body, Request, RequestView};
use crate::transport::{selected, Transport};
use crate::version::Version;

verus! {

/// What a client is to be built from.
#[derive(Debug)]
pub struct ClientBuilder {
    uri: Option<Endpoint>,
    headers: Headers,
    method: Method,
    version: Version,
    body: Option<Bytes>,
    proxy: Option<ProxyTarget>,
    nodelay: bool,
    timeout: Option<Duration>,
    connect_timeout: Option<Duration>,
}

/// A configuration as plain values.
pub struct ClientBuilderView {
    pub uri: Option<EndpointView>,
    pub fields: Fields,
    pub method: Method,
    pub version: Version,
    pub body: Option<Seq<u8>>,
    pub proxy: Option<ProxyTargetView>,
    pub nodelay: bool,
    pub timeout: Option<Duration>,
    pub connect_timeout: Option<Duration>,
}

/// The view of an endpoint that may be missing.
pub open spec fn endpoint_view(value: Option<Endpoint>) -> Option<EndpointView> {
    match value {
        Some(uri) => Some(uri@),
        None => None,
    }
}

/// The view of a proxy that may be missing.
pub open spec fn proxy_view(value: Option<ProxyTarget>) -> Option<ProxyTargetView> {
    match value {
        Some(proxy) => Some(proxy@),
        None => None,
    }
}

/// The bytes of a body that may be missing.
pub open spec fn body_view(value: Option<Bytes>) -> Option<Seq<u8>> {
    match value {
        Some(body) => Some(payload(body)),
        None => None,
    }
}

/// The fields that a proxy adds to a request: a forward proxy whose URI
/// carries credentials is sent them in `Proxy-Authorization`.
pub open spec fn with_proxy_authorization(fields: Fields, proxy: Option<ProxyTargetView>) -> Fields {
    match proxy {
        Some(p) => match (p.kind(), p.base64_auth()) {
            (Some(ProxyKind::Http), Some(token)) => inserted(
                fields,
                "Proxy-Authorization"@,
                "Basic "@ + token,
            ),
            (Some(ProxyKind::Https), Some(token)) => inserted(
                fields,
                "Proxy-Authorization"@,
                "Basic "@ + token,
            ),
            _ => fields,
        },
        None => fields,
    }
}

impl ClientBuilderView {
    /// A configuration without a target: `GET` over HTTP/1.1, nothing else
    /// set.
    pub open spec fn empty() -> ClientBuilderView {
        ClientBuilderView {
            uri: None,
            fields: Seq::empty(),
            method: Method::GET,
            version: Version::Http11,
            body: None,
            proxy: None,
            nodelay: false,
            timeout: None,
            connect_timeout: None,
        }
    }

    /// The request for `uri` that the configuration describes: the request
    /// for the endpoint and the proxy, with the configured method and
    /// version, then the configured fields and what the proxy adds to them,
    /// then the body.
    pub open spec fn request_for(self, uri: EndpointView) -> RequestView {
        let first = initial(uri, self.proxy);
        (RequestView {
            method: self.method,
            version: self.version,
            fields: merged(first.fields, with_proxy_authorization(self.fields, self.proxy)),
            ..first
        }).with_body(self.body)
    }

    /// What building gives: without a target `EmptyUri`, whatever else is
    /// set; else the error that selecting the transport gives; else a client
    /// that nothing led to.
    pub open spec fn built(self) -> Result<ClientView, ErrorView> {
        match self.uri {
            None => Err(ErrorView::EmptyUri),
            Some(uri) => match selected(uri, self.proxy, self.nodelay, self.connect_timeout) {
                Err(error) => Err(error),
                Ok(transport) => Ok(
                    ClientView {
                        request: self.request_for(uri),
                        uri,
                        proxy: self.proxy,
                        transport,
                        timeout: self.timeout,
                        ancestors: Seq::empty(),
                    },
                ),
            },
        }
    }
}

impl View for ClientBuilder {
    type V = ClientBuilderView;

    closed spec fn view(&self) -> ClientBuilderView {
        ClientBuilderView {
            uri: endpoint_view(self.uri),
            fields: self.headers@,
            method: self.method,
            version: self.version,
            body: body_view(self.body),
            proxy: proxy_view(self.proxy),
            nodelay: self.nodelay,
            timeout: self.timeout,
            connect_timeout: self.connect_timeout,
        }
    }
}

impl Default for ClientBuilder {
    fn default() -> (builder: Self)
        ensures
            builder@ == ClientBuilderView::empty(),
    {
        Self::new()
    }
}

impl ClientBuilder {
    /// A configuration without a target: `GET` over HTTP/1.1, nothing else
    /// set.
    pub fn new() -> (builder: Self)
        ensures
            builder@ == ClientBuilderView::empty(),
    {
        let headers = Headers::new();
        ClientBuilder {
            uri: None,
            headers,
            method: Method::GET,
            version: Version::Http11,
            body: None,
            proxy: None,
            nodelay: false,
            timeout: None,
            connect_timeout: None,
        }
    }

    /// Checks the configuration and makes the client. Nothing is connected:
    /// the client holds the transport to establish.
    pub fn build(self) -> (result: Result<Client, Error>)
        ensures
            match result {
                Ok(client) => self@.built() == Ok::<ClientView, ErrorView>(client@),
                Err(error) => self@.built() == Err::<ClientView, ErrorView>(error@),
            },
    {
        let uri = match self.uri {
            Some(uri) => uri,
            None => {
                return Err(Error::EmptyUri);
            },
        };
        let transport = match Transport::select(
            &uri,
            self.proxy.as_ref(),
            self.nodelay,
            self.connect_timeout,
        ) {
            Ok(transport) => transport,
            Err(error) => {
                return Err(error);
            },
        };
        let mut headers = self.headers;
        match &self.proxy {
            Some(proxy) => match proxy.kind() {
                Some(ProxyKind::Http) | Some(ProxyKind::Https) => {
                    match proxy.base64_auth() {
                        Some(token) => {
                            let value = basic_from_token(token.as_str());
                            headers.insert("Proxy-Authorization", value.as_str());
                        },
                        None => {},
                    }
                },
                _ => {},
            },
            None => {},
        }
        let mut request = Request::new(&uri, self.proxy.as_ref());
        request.method(self.method);
        request.headers(headers);
        request.version(self.version);
        request.opt_body(Some(self.body));
        Ok(Client::new(request, uri, self.proxy, transport, self.timeout, None))
    }

    /// Sets the target from the outcome of a conversion; a failed one
    /// (`None`) leaves no target.
    pub fn uri(self, value: Option<Endpoint>) -> (builder: ClientBuilder)
        ensures
            builder@ == (ClientBuilderView { uri: endpoint_view(value), ..self@ }),
    {
        let mut this = self;
        this.uri = value;
        this
    }

    /// Sets the proxy from the outcome of a conversion; a failed one
    /// (`None`) leaves no proxy.
    pub fn proxy(self, value: Option<ProxyTarget>) -> (builder: ClientBuilder)
        ensures
            builder@ == (ClientBuilderView { proxy: proxy_view(value), ..self@ }),
    {
        let mut this = self;
        this.proxy = value;
        this
    }

    /// Gives each field of `headers`, in order, to the configuration.
    pub fn headers(self, headers: Headers) -> (builder: ClientBuilder)
        ensures
            builder@ == (ClientBuilderView { fields: merged(self@.fields, headers@), ..self@ }),
    {
        let mut this = self;
        this.headers.extend(&headers);
        this
    }

    /// Gives the field `key` the value `value`.
    pub fn header(self, key: &str, value: &str) -> (builder: ClientBuilder)
        ensures
            builder@ == (ClientBuilderView { fields: inserted(self@.fields, key@, value@), ..self@ }),
    {
        let mut this = self;
        this.headers.insert(key, value);
        this
    }

    /// Takes out every field named `key`.
    pub fn header_remove(self, key: &str) -> (builder: ClientBuilder)
        ensures
            builder@ == (ClientBuilderView { fields: removed(self@.fields, key@), ..self@ }),
    {
        let mut this = self;
        this.headers.remove(key);
        this
    }

    /// Sets the method from the outcome of a conversion; a failed one
    /// (`None`) sets `GET`.
    pub fn method(self, value: Option<Method>) -> (builder: ClientBuilder)
        ensures
            builder@ == (ClientBuilderView {
                method: match value {
                    Some(m) => m,
                    None => Method::GET,
                },
                ..self@
            }),
    {
        let mut this = self;
        this.method = match value {
            Some(m) => m,
            None => Method::GET,
        };
        this
    }

    /// Sets the target as `uri` does, and the method `GET`.
    pub fn get(self, value: Option<Endpoint>) -> (builder: ClientBuilder)
        ensures
            builder@ == (ClientBuilderView {
                uri: endpoint_view(value),
                method: Method::GET,
                ..self@
            }),
    {
        let mut this = self;
        this.uri = value;
        this.method = Method::GET;
        this
    }

    /// Sets the target as `uri` does, and the method `POST`.
    pub fn post(self, value: Option<Endpoint>) -> (builder: ClientBuilder)
        ensures
            builder@ == (ClientBuilderView {
                uri: endpoint_view(value),
                method: Method::POST,
                ..self@
            }),
    {
        let mut this = self;
        this.uri = value;
        this.method = Method::POST;
        this
    }

    /// Sets the target as `uri` does, and the method `OPTIONS`.
    pub fn options(self, value: Option<Endpoint>) -> (builder: ClientBuilder)
        ensures
            builder@ == (ClientBuilderView {
                uri: endpoint_view(value),
                method: Method::OPTIONS,
                ..self@
            }),
    {
        let mut this = self;
        this.uri = value;
        this.method = Method::OPTIONS;
        this
    }

    /// Sets the target as `uri` does, and the method `DELETE`.
    pub fn delete(self, value: Option<Endpoint>) -> (builder: ClientBuilder)
        ensures
            builder@ == (ClientBuilderView {
                uri: endpoint_view(value),
                method: Method::DELETE,
                ..self@
            }),
    {
        let mut this = self;
        this.uri = value;
        this.method = Method::DELETE;
        this
    }

    /// Sets the version from the outcome of a conversion; a failed one
    /// (`None`) sets HTTP/1.1.
    pub fn version(self, value: Option<Version>) -> (builder: ClientBuilder)
        ensures
            builder@ == (ClientBuilderView {
                version: match value {
                    Some(v) => v,
                    None => Version::Http11,
                },
                ..self@
            }),
    {
        let mut this = self;
        this.version = match value {
            Some(v) => v,
            None => Version::Http11,
        };
        this
    }

    /// Sets the body from the outcome of a conversion; a failed one
    /// (`None`) leaves no body.
    pub fn body(self, value: Option<Bytes>) -> (builder: ClientBuilder)
        ensures
            builder@ == (ClientBuilderView { body: body_view(value), ..self@ }),
    {
        let mut this = self;
        this.body = value;
        this
    }

    /// Sets a JSON body from the outcome of a conversion: a converted body
    /// is set together with `Content-Type: application/json`; a failed
    /// conversion (`None`) takes away the body and `Content-Type`.
    pub fn json(self, value: Option<Bytes>) -> (builder: ClientBuilder)
        ensures
            builder@ == (ClientBuilderView {
                body: body_view(value),
                fields: match value {
                    Some(_) => inserted(self@.fields, "Content-Type"@, "application/json"@),
                    None => removed(self@.fields, "Content-Type"@),
                },
                ..self@
            }),
    {
        let mut this = self;
        match value {
            Some(body) => this.body(Some(body)).header("Content-Type", "application/json"),
            None => {
                this.body = None;
                this.header_remove("Content-Type")
            },
        }
    }

    /// Asks for Nagle's buffering to be switched off.
    pub fn tcp_nodelay(self) -> (builder: ClientBuilder)
        ensures
            builder@ == (ClientBuilderView { nodelay: true, ..self@ }),
    {
        let mut this = self;
        this.nodelay = true;
        this
    }

    /// Bounds the whole exchange.
    pub fn timeout(self, timeout: Duration) -> (builder: ClientBuilder)
        ensures
            builder@ == (ClientBuilderView { timeout: Some(timeout), ..self@ }),
    {
        let mut this = self;
        this.timeout = Some(timeout);
        this
    }

    /// Bounds the establishing of the transport.
    pub fn connect_timeout(self, timeout: Duration) -> (builder: ClientBuilder)
        ensures
            builder@ == (ClientBuilderView { connect_timeout: Some(timeout), ..self@ }),
    {
        let mut this = self;
        this.connect_timeout = Some(timeout);
        this
    }

    /// Sets `Referer` to a URI in absolute-form, from the outcome of a
    /// conversion; a failed one (`None`) changes nothing.
    pub fn referer(self, value: Option<Endpoint>) -> (builder: ClientBuilder)
        ensures
            builder@ == match value {
                Some(uri) => (ClientBuilderView {
                    fields: inserted(self@.fields, "Referer"@, uri@.absolute_uri()),
                    ..self@
                }),
                None => self@,
            },
    {
        match value {
            Some(uri) => {
                let text = uri.absolute_uri();
                self.header("Referer", text.as_str())
            },
            None => self,
        }
    }
}

/// Without a target, building fails with `EmptyUri`, whatever else is
/// configured.
pub proof fn lemma_build_without_uri(builder: ClientBuilderView)
    requires
        builder.uri.is_none(),
    ensures
        builder.built() == Err::<ClientView, ErrorView>(ErrorView::EmptyUri),
{
}

/// With a target and a proxy whose scheme is none of the four known,
/// building fails with `UnsupportedProxyScheme` and that scheme.
pub proof fn lemma_build_with_unknown_proxy(builder: ClientBuilderView)
    requires
        builder.uri.is_some(),
        builder.proxy.is_some(),
        builder.proxy.unwrap().kind().is_none(),
    ensures
        builder.built() == Err::<ClientView, ErrorView>(
            ErrorView::UnsupportedProxyScheme(builder.proxy.unwrap().scheme),
        ),
{
}

/// The request of a client that was built names its target in
/// absolute-form where the proxy is a forward proxy, and in origin-form
/// without a proxy and through a SOCKS5 tunnel.
pub proof fn lemma_build_target_form(builder: ClientBuilderView)
    requires
        builder.built().is_ok(),
    ensures
        builder.built()->Ok_0.request.target == match builder.proxy {
            Some(p) => if p.kind().unwrap().is_tunnel() {
                builder.uri.unwrap().abs_path()
            } else {
                builder.uri.unwrap().absolute_uri()
            },
            None => builder.uri.unwrap().abs_path(),
        },
{
    reveal_strlit("socks5");
    reveal_strlit("socks5h");
    reveal_strlit("http");
    reveal_strlit("https");
    match builder.proxy {
        Some(p) => {
            if p.scheme == "http"@ || p.scheme == "https"@ {
                assert(p.scheme.len() == 4 || p.scheme.len() == 5);
                assert(p.scheme[0] == 'h');
                assert("socks5"@[0] == 's');
                assert("socks5h"@[0] == 's');
            }
        },
        None => {},
    }
}

/// A client that was built has a request whose `Content-Length` field and
/// body agree: the field is there exactly if a body is configured, and then
/// gives its length, which the request reads back.
pub proof fn lemma_build_framed(builder: ClientBuilderView)
    requires
        builder.built().is_ok(),
        builder.body matches Some(b) ==> b.len() <= usize::MAX,
    ensures
        builder.built()->Ok_0.request.framed(),
        content_length_of(builder.built()->Ok_0.request.fields) == builder.built()->Ok_0.request.body_bytes().len(),
{
    let uri = builder.uri.unwrap();
    let first = initial(uri, builder.proxy);
    assert(distinct_names(first.fields));
    lemma_merged_keeps_distinct(
        first.fields,
        with_proxy_authorization(builder.fields, builder.proxy),
    );
    let before = RequestView {
        method: builder.method,
        version: builder.version,
        fields: merged(first.fields, with_proxy_authorization(builder.fields, builder.proxy)),
        ..first
    };
    lemma_with_body(before, builder.body);
}

/// A client that was built for a secure endpoint, reached directly or
/// through a tunnel, has a transport that speaks TLS with the endpoint's
/// host as server name.
pub proof fn lemma_build_secure_endpoint(builder: ClientBuilderView)
    requires
        builder.built().is_ok(),
        builder.uri.unwrap().is_secure(),
        builder.proxy matches Some(p) ==> p.kind().unwrap().is_tunnel(),
    ensures
        builder.built()->Ok_0.transport.server_name == Some(builder.uri.unwrap().host),
{
}

} // verus!
