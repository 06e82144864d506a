//! A client: one request bound to one transport, and the clients that a
//! chain of redirects led through before it.

use vstd::prelude::*;
use std::time::Duration;
use crate::endpoint::{
    effective_port_of, Endpoint, EndpointView, ProxyTarget, ProxyTargetView,
};
use crate::error::Error;
use crate::request::{Request, RequestView};
use crate::text::str_eq;
use crate::transport::{Transport, TransportView};

verus! {

/// Whether two endpoints are the same place: the same scheme and host, the
/// same port to connect to, and the same origin-form.
pub open spec fn same_endpoint(a: EndpointView, b: EndpointView) -> bool {
    &&& a.scheme == b.scheme
    &&& a.host == b.host
    &&& effective_port_of(a.scheme, a.port) == effective_port_of(b.scheme, b.port)
    &&& a.abs_path() == b.abs_path()
}

/// Whether two endpoints are the same place.
pub fn endpoints_match(a: &Endpoint, b: &Endpoint) -> (same: bool)
    ensures
        same == same_endpoint(a@, b@),
{
    if !str_eq(a.scheme.as_str(), b.scheme.as_str()) {
        return false;
    }
    if !str_eq(a.host.as_str(), b.host.as_str()) {
        return false;
    }
    let port_a = match a.port {
        Some(p) => Some(p),
        None => crate::endpoint::default_port(a.scheme.as_str()),
    };
    let port_b = match b.port {
        Some(p) => Some(p),
        None => crate::endpoint::default_port(b.scheme.as_str()),
    };
    if port_a != port_b {
        return false;
    }
    str_eq(a.abs_path().as_str(), b.abs_path().as_str())
}

/// Whether some endpoint of a chain is the same place as `location`.
pub open spec fn visited(chain: Seq<EndpointView>, location: EndpointView) -> bool {
    exists|i: int| 0 <= i < chain.len() && same_endpoint(#[trigger] chain[i], location)
}

/// Whether a client for `location` may follow a chain of clients: the
/// chain holds at most `limit` clients, none of them for `location`.
pub open spec fn may_follow(chain: Seq<EndpointView>, location: EndpointView, limit: nat) -> bool {
    chain.len() <= limit && !visited(chain, location)
}

/// One request, the transport it goes over, and the client that was
/// redirected here, if any.
#[derive(Debug)]
pub struct Client {
    request: Request,
    uri: Endpoint,
    proxy: Option<ProxyTarget>,
    transport: Transport,
    timeout: Option<Duration>,
    previous: Option<Box<Client>>,
}

/// A client as plain values.
pub struct ClientView {
    pub request: RequestView,
    pub uri: EndpointView,
    pub proxy: Option<ProxyTargetView>,
    pub transport: TransportView,
    /// How long the exchange may take.
    pub timeout: Option<Duration>,
    /// The endpoints of the clients that led here, the nearest first.
    pub ancestors: Seq<EndpointView>,
}

impl ClientView {
    /// The endpoints of this client and of those that led here, this one
    /// first.
    pub open spec fn chain(self) -> Seq<EndpointView> {
        seq![self.uri] + self.ancestors
    }
}

impl Client {
    /// The endpoints of the clients that led here, the nearest first.
    pub closed spec fn ancestors(&self) -> Seq<EndpointView>
        decreases self,
    {
        match self.previous {
            Some(p) => seq![p.uri@] + p.ancestors(),
            None => Seq::empty(),
        }
    }
}

impl View for Client {
    type V = ClientView;

    closed spec fn view(&self) -> ClientView {
        ClientView {
            request: self.request@,
            uri: self.uri@,
            proxy: match self.proxy {
                Some(p) => Some(p@),
                None => None,
            },
            transport: self.transport@,
            timeout: self.timeout,
            ancestors: self.ancestors(),
        }
    }
}

impl Client {
    /// A client from its parts. `previous` is the client that was
    /// redirected here.
    pub fn new(
        request: Request,
        uri: Endpoint,
        proxy: Option<ProxyTarget>,
        transport: Transport,
        timeout: Option<Duration>,
        previous: Option<Client>,
    ) -> (client: Client)
        ensures
            client@ == (ClientView {
                request: request@,
                uri: uri@,
                proxy: match proxy {
                    Some(p) => Some(p@),
                    None => None,
                },
                transport: transport@,
                timeout,
                ancestors: match previous {
                    Some(p) => p@.chain(),
                    None => Seq::empty(),
                },
            }),
    {
        let previous = match previous {
            Some(p) => Some(Box::new(p)),
            None => None,
        };
        Client { request, uri, proxy, transport, timeout, previous }
    }

    /// The request.
    pub fn request(&self) -> (request: &Request)
        ensures
            request@ == self@.request,
    {
        &self.request
    }

    /// The endpoint that the request is for.
    pub fn uri(&self) -> (uri: &Endpoint)
        ensures
            uri@ == self@.uri,
    {
        &self.uri
    }

    /// The proxy, if one is configured.
    pub fn proxy(&self) -> (proxy: Option<&ProxyTarget>)
        ensures
            match proxy {
                Some(p) => self@.proxy == Some(p@),
                None => self@.proxy.is_none(),
            },
    {
        self.proxy.as_ref()
    }

    /// The transport.
    pub fn transport(&self) -> (transport: &Transport)
        ensures
            transport@ == self@.transport,
    {
        &self.transport
    }

    /// How long the exchange may take.
    pub fn timeout(&self) -> (timeout: Option<Duration>)
        ensures
            timeout == self@.timeout,
    {
        self.timeout
    }

    /// The client that was redirected here, if any.
    pub fn previous(&self) -> (previous: Option<&Client>)
        ensures
            match previous {
                Some(p) => self@.ancestors == p@.chain(),
                None => self@.ancestors.len() == 0,
            },
    {
        match &self.previous {
            Some(p) => Some(&**p),
            None => None,
        }
    }

    /// The bytes to send.
    pub fn to_vec(&self) -> (message: Vec<u8>)
        ensures
            message@ == self@.request.message(),
    {
        self.request.to_vec()
    }

    /// Whether the chain that ends in this client holds more than `n`
    /// clients.
    pub fn chain_longer_than(&self, n: usize) -> (longer: bool)
        ensures
            longer == (self@.chain().len() > n),
        decreases self,
    {
        if n == 0 {
            true
        } else {
            match &self.previous {
                Some(p) => p.chain_longer_than(n - 1),
                None => false,
            }
        }
    }

    /// Whether this client or one that led to it is for `location`.
    pub fn has_visited(&self, location: &Endpoint) -> (seen: bool)
        ensures
            seen == visited(self@.chain(), location@),
        decreases self,
    {
        if endpoints_match(&self.uri, location) {
            assert(same_endpoint(self@.chain()[0], location@));
            true
        } else {
            match &self.previous {
                Some(p) => {
                    let seen = p.has_visited(location);
                    proof {
                        let chain = self@.chain();
                        let rest = p@.chain();
                        assert(chain =~= seq![self.uri@] + rest);
                        if seen {
                            let i = choose|i: int|
                                0 <= i < rest.len() && same_endpoint(#[trigger] rest[i], location@);
                            assert(same_endpoint(chain[i + 1], location@));
                        }
                        if visited(chain, location@) {
                            let i = choose|i: int|
                                0 <= i < chain.len() && same_endpoint(
                                    #[trigger] chain[i],
                                    location@,
                                );
                            assert(same_endpoint(rest[i - 1], location@));
                        }
                    }
                    seen
                },
                None => {
                    proof {
                        let chain = self@.chain();
                        assert(chain =~= seq![self.uri@]);
                        if visited(chain, location@) {
                            let i = choose|i: int|
                                0 <= i < chain.len() && same_endpoint(
                                    #[trigger] chain[i],
                                    location@,
                                );
                            assert(i == 0);
                        }
                    }
                    false
                },
            }
        }
    }

    /// Follows a redirect: `next`, a client for the location that a
    /// response named, takes this client as the one that led to it. That is
    /// refused where the chain would come to hold more than `limit`
    /// redirects, and where this client or one before it was for the same
    /// place as `next`. What `next` itself was led by is dropped.
    pub fn redirect(self, next: Client, limit: usize) -> (result: Result<Client, Error>)
        ensures
            match result {
                Ok(client) => may_follow(self@.chain(), next@.uri, limit as nat) && client@ == (
                ClientView { ancestors: self@.chain(), ..next@ }),
                Err(error) => !may_follow(self@.chain(), next@.uri, limit as nat) && error
                    == Error::RedirectLimitExceeded,
            },
    {
        if self.chain_longer_than(limit) || self.has_visited(&next.uri) {
            Err(Error::RedirectLimitExceeded)
        } else {
            Ok(
                Client {
                    request: next.request,
                    uri: next.uri,
                    proxy: next.proxy,
                    transport: next.transport,
                    timeout: next.timeout,
                    previous: Some(Box::new(self)),
                },
            )
        }
    }
}

} // verus!
