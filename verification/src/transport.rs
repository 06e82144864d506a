//! Which transport a configuration calls for: whom to connect to, whether
//! a tunnel is asked of a proxy, and with whom TLS is then spoken.

use vstd::prelude::*;
use std::time::Duration;
use crate::endpoint::{
    default_port, effective_port_of, Endpoint, EndpointView, ProxyKind, ProxyTarget,
    ProxyTargetView,
};
use crate::error::{ConnectFailure, Error, ErrorView};

verus! {

/// The shape of a transport.
#[derive(Clone, Copy, Debug, PartialEq, Eq, Structural)]
pub enum TransportKind {
    /// A TCP connection to the endpoint.
    Plain,
    /// TLS over a TCP connection to the endpoint.
    TlsWrapped,
    /// A SOCKS5 tunnel to the endpoint, with TLS inside it where the
    /// endpoint is secure.
    Socks5Tunneled,
    /// A connection to a forward proxy, which is handed the request.
    HttpProxyTunneled,
}

/// The far end of a tunnel.
#[derive(Debug)]
pub struct TunnelTarget {
    pub host: String,
    pub port: u16,
    /// Whether the proxy resolves the host name (SOCKS5h) or this side
    /// does.
    pub remote_dns: bool,
}

/// The far end of a tunnel as plain values.
pub struct TunnelTargetView {
    pub host: Seq<char>,
    pub port: u16,
    pub remote_dns: bool,
}

impl View for TunnelTarget {
    type V = TunnelTargetView;

    open spec fn view(&self) -> TunnelTargetView {
        TunnelTargetView { host: self.host@, port: self.port, remote_dns: self.remote_dns }
    }
}

/// A transport to be established: a description of the byte stream that a
/// client talks over.
#[derive(Debug)]
pub struct Transport {
    pub kind: TransportKind,
    /// The host that the TCP connection goes to.
    pub peer_host: String,
    /// The port that the TCP connection goes to.
    pub peer_port: u16,
    /// The tunnel asked of the proxy, if any.
    pub tunnel: Option<TunnelTarget>,
    /// The server name of the TLS handshake, if there is to be one.
    pub server_name: Option<String>,
    /// Whether Nagle's buffering is switched off right after connecting.
    pub nodelay: bool,
    /// How long establishing the transport may take.
    pub connect_timeout: Option<Duration>,
}

/// A transport as plain values.
pub struct TransportView {
    pub kind: TransportKind,
    pub peer_host: Seq<char>,
    pub peer_port: u16,
    pub tunnel: Option<TunnelTargetView>,
    pub server_name: Option<Seq<char>>,
    pub nodelay: bool,
    pub connect_timeout: Option<Duration>,
}

impl View for Transport {
    type V = TransportView;

    open spec fn view(&self) -> TransportView {
        TransportView {
            kind: self.kind,
            peer_host: self.peer_host@,
            peer_port: self.peer_port,
            tunnel: match self.tunnel {
                Some(t) => Some(t@),
                None => None,
            },
            server_name: match self.server_name {
                Some(name) => Some(name@),
                None => None,
            },
            nodelay: self.nodelay,
            connect_timeout: self.connect_timeout,
        }
    }
}

/// The transport for an endpoint reached without a proxy: TCP to the
/// endpoint, and TLS with the endpoint's host as server name where its scheme
/// is secure. An endpoint without a port has no address.
pub open spec fn direct(
    uri: EndpointView,
    nodelay: bool,
    connect_timeout: Option<Duration>,
) -> Result<TransportView, ErrorView> {
    match effective_port_of(uri.scheme, uri.port) {
        Some(port) => Ok(
            TransportView {
                kind: if uri.is_secure() {
                    TransportKind::TlsWrapped
                } else {
                    TransportKind::Plain
                },
                peer_host: uri.host,
                peer_port: port,
                tunnel: None,
                server_name: if uri.is_secure() {
                    Some(uri.host)
                } else {
                    None
                },
                nodelay,
                connect_timeout,
            },
        ),
        None => Err(ErrorView::Connect(ConnectFailure::Resolve)),
    }
}

/// The transport for an endpoint reached through a SOCKS5 proxy: TCP to the
/// proxy, a tunnel to the endpoint's host and port, and TLS inside the
/// tunnel, with the endpoint's host as server name, where the endpoint's
/// scheme is secure.
pub open spec fn tunneled(
    uri: EndpointView,
    proxy: ProxyTargetView,
    remote_dns: bool,
    nodelay: bool,
    connect_timeout: Option<Duration>,
) -> Result<TransportView, ErrorView> {
    match (effective_port_of(proxy.scheme, proxy.port), effective_port_of(uri.scheme, uri.port)) {
        (Some(proxy_port), Some(port)) => Ok(
            TransportView {
                kind: TransportKind::Socks5Tunneled,
                peer_host: proxy.host,
                peer_port: proxy_port,
                tunnel: Some(TunnelTargetView { host: uri.host, port, remote_dns }),
                server_name: if uri.is_secure() {
                    Some(uri.host)
                } else {
                    None
                },
                nodelay,
                connect_timeout,
            },
        ),
        _ => Err(ErrorView::Connect(ConnectFailure::Resolve)),
    }
}

/// The transport for an endpoint reached through a forward proxy: TCP to
/// the proxy, and TLS with the proxy's host as server name where the proxy's
/// scheme is secure.
pub open spec fn forwarded(
    proxy: ProxyTargetView,
    nodelay: bool,
    connect_timeout: Option<Duration>,
) -> Result<TransportView, ErrorView> {
    match effective_port_of(proxy.scheme, proxy.port) {
        Some(port) => Ok(
            TransportView {
                kind: TransportKind::HttpProxyTunneled,
                peer_host: proxy.host,
                peer_port: port,
                tunnel: None,
                server_name: if proxy.is_secure() {
                    Some(proxy.host)
                } else {
                    None
                },
                nodelay,
                connect_timeout,
            },
        ),
        None => Err(ErrorView::Connect(ConnectFailure::Resolve)),
    }
}

/// The transport that a configuration calls for. A proxy whose scheme is
/// none of `socks5`, `socks5h`, `http` and `https` is refused, whatever else
/// is configured.
pub open spec fn selected(
    uri: EndpointView,
    proxy: Option<ProxyTargetView>,
    nodelay: bool,
    connect_timeout: Option<Duration>,
) -> Result<TransportView, ErrorView> {
    match proxy {
        None => direct(uri, nodelay, connect_timeout),
        Some(p) => match p.kind() {
            None => Err(ErrorView::UnsupportedProxyScheme(p.scheme)),
            Some(ProxyKind::Socks5) => tunneled(uri, p, false, nodelay, connect_timeout),
            Some(ProxyKind::Socks5h) => tunneled(uri, p, true, nodelay, connect_timeout),
            Some(ProxyKind::Http) => forwarded(p, nodelay, connect_timeout),
            Some(ProxyKind::Https) => forwarded(p, nodelay, connect_timeout),
        },
    }
}

/// Whether a result of selecting a transport is the given outcome.
pub open spec fn is_outcome(
    result: Result<Transport, Error>,
    outcome: Result<TransportView, ErrorView>,
) -> bool {
    match result {
        Ok(transport) => outcome == Ok::<TransportView, ErrorView>(transport@),
        Err(error) => outcome == Err::<TransportView, ErrorView>(error@),
    }
}

fn port_of(scheme: &str, port: Option<u16>) -> (effective: Option<u16>)
    ensures
        effective == effective_port_of(scheme@, port),
{
    match port {
        Some(p) => Some(p),
        None => default_port(scheme),
    }
}

fn server_name_for(secure: bool, host: &String) -> (name: Option<String>)
    ensures
        match name {
            Some(n) => secure && n@ == host@,
            None => !secure,
        },
{
    if secure {
        Some(host.clone())
    } else {
        None
    }
}

impl Transport {
    /// Selects the transport for an endpoint and an optional proxy. No
    /// connection is attempted: the result says what is to be established.
    pub fn select(
        uri: &Endpoint,
        proxy: Option<&ProxyTarget>,
        nodelay: bool,
        connect_timeout: Option<Duration>,
    ) -> (result: Result<Transport, Error>)
        ensures
            is_outcome(
                result,
                selected(
                    uri@,
                    match proxy {
                        Some(p) => Some(p@),
                        None => None,
                    },
                    nodelay,
                    connect_timeout,
                ),
            ),
    {
        match proxy {
            None => {
                match port_of(uri.scheme.as_str(), uri.port) {
                    Some(port) => {
                        let secure = uri.is_secure();
                        Ok(
                            Transport {
                                kind: if secure {
                                    TransportKind::TlsWrapped
                                } else {
                                    TransportKind::Plain
                                },
                                peer_host: uri.host.clone(),
                                peer_port: port,
                                tunnel: None,
                                server_name: server_name_for(secure, &uri.host),
                                nodelay,
                                connect_timeout,
                            },
                        )
                    },
                    None => Err(Error::Connect(ConnectFailure::Resolve)),
                }
            },
            Some(p) => {
                match p.kind() {
                    None => Err(Error::UnsupportedProxyScheme(p.scheme.clone())),
                    Some(ProxyKind::Socks5) => Transport::tunnel(
                        uri,
                        p,
                        false,
                        nodelay,
                        connect_timeout,
                    ),
                    Some(ProxyKind::Socks5h) => Transport::tunnel(
                        uri,
                        p,
                        true,
                        nodelay,
                        connect_timeout,
                    ),
                    Some(_) => {
                        match port_of(p.scheme.as_str(), p.port) {
                            Some(port) => Ok(
                                Transport {
                                    kind: TransportKind::HttpProxyTunneled,
                                    peer_host: p.host.clone(),
                                    peer_port: port,
                                    tunnel: None,
                                    server_name: server_name_for(p.is_secure(), &p.host),
                                    nodelay,
                                    connect_timeout,
                                },
                            ),
                            None => Err(Error::Connect(ConnectFailure::Resolve)),
                        }
                    },
                }
            },
        }
    }

    fn tunnel(
        uri: &Endpoint,
        proxy: &ProxyTarget,
        remote_dns: bool,
        nodelay: bool,
        connect_timeout: Option<Duration>,
    ) -> (result: Result<Transport, Error>)
        ensures
            is_outcome(result, tunneled(uri@, proxy@, remote_dns, nodelay, connect_timeout)),
    {
        match (port_of(proxy.scheme.as_str(), proxy.port), port_of(uri.scheme.as_str(), uri.port)) {
            (Some(proxy_port), Some(port)) => Ok(
                Transport {
                    kind: TransportKind::Socks5Tunneled,
                    peer_host: proxy.host.clone(),
                    peer_port: proxy_port,
                    tunnel: Some(TunnelTarget { host: uri.host.clone(), port, remote_dns }),
                    server_name: server_name_for(uri.is_secure(), &uri.host),
                    nodelay,
                    connect_timeout,
                },
            ),
            _ => Err(Error::Connect(ConnectFailure::Resolve)),
        }
    }
}

} // verus!
