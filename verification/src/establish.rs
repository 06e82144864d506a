//! Establishing a transport, one step at a time: the caller connects,
//! sends, receives and performs handshakes, and is told after each event
//! what to do next.

use vstd::prelude::*;
use crate::error::{ConnectFailure, Error, ErrorView, SocksFailure};
use crate::socks::{
    connect_reply, connect_request, connect_request_bytes, greeting, greeting_bytes,
    method_reply, read_connect_reply, read_method_reply, TunnelAddress, TunnelAddressView,
};
use crate::transport::{Transport, TransportView};

verus! {

/// How far a transport has come.
#[derive(Clone, Copy, Debug, PartialEq, Eq, Structural)]
pub enum Stage {
    /// Nothing was done yet.
    Idle,
    /// A TCP connection to the peer was asked for.
    Connecting,
    /// The greeting was sent to the proxy.
    Negotiating,
    /// The address of the tunnel's far end was asked for.
    Resolving,
    /// The request to connect was sent to the proxy.
    Tunneling,
    /// A TLS handshake was asked for.
    Securing,
    /// The byte stream is ready.
    Established,
    /// Establishing failed.
    Failed,
}

/// What happened since the last step.
#[derive(Debug)]
pub enum Event {
    /// Establishing begins.
    Start,
    Connected,
    ConnectFailed(ConnectFailure),
    /// All the bytes that arrived since the last message was sent.
    Received(Vec<u8>),
    Resolved(TunnelAddress),
    ResolveFailed,
    Secured,
    SecureFailed,
    /// The time for establishing the transport ran out.
    TimedOut,
}

/// An event as plain values.
pub enum EventView {
    Start,
    Connected,
    ConnectFailed(ConnectFailure),
    Received(Seq<u8>),
    Resolved(TunnelAddressView),
    ResolveFailed,
    Secured,
    SecureFailed,
    TimedOut,
}

impl View for Event {
    type V = EventView;

    open spec fn view(&self) -> EventView {
        match self {
            Event::Start => EventView::Start,
            Event::Connected => EventView::Connected,
            Event::ConnectFailed(why) => EventView::ConnectFailed(*why),
            Event::Received(bytes) => EventView::Received(bytes@),
            Event::Resolved(address) => EventView::Resolved(address@),
            Event::ResolveFailed => EventView::ResolveFailed,
            Event::Secured => EventView::Secured,
            Event::SecureFailed => EventView::SecureFailed,
            Event::TimedOut => EventView::TimedOut,
        }
    }
}

/// What the caller is to do next.
#[derive(Debug)]
pub enum Action {
    /// Open a TCP connection.
    Connect { host: String, port: u16 },
    /// Send these bytes, then receive.
    Send(Vec<u8>),
    /// Receive more.
    Receive,
    /// Find the address of this host.
    Resolve { host: String },
    /// Perform a TLS handshake over the stream, with this server name.
    Handshake { server_name: String },
    /// The stream is ready for the request.
    Ready,
    /// Close the stream and report this error.
    Fail(Error),
}

/// An action as plain values.
pub enum ActionView {
    Connect { host: Seq<char>, port: u16 },
    Send(Seq<u8>),
    Receive,
    Resolve { host: Seq<char> },
    Handshake { server_name: Seq<char> },
    Ready,
    Fail(ErrorView),
}

impl View for Action {
    type V = ActionView;

    open spec fn view(&self) -> ActionView {
        match self {
            Action::Connect { host, port } => ActionView::Connect { host: host@, port: *port },
            Action::Send(bytes) => ActionView::Send(bytes@),
            Action::Receive => ActionView::Receive,
            Action::Resolve { host } => ActionView::Resolve { host: host@ },
            Action::Handshake { server_name } => ActionView::Handshake {
                server_name: server_name@,
            },
            Action::Ready => ActionView::Ready,
            Action::Fail(error) => ActionView::Fail(error@),
        }
    }
}

/// The stage that a step leads to, and what to do there.
#[derive(Debug)]
pub struct Step {
    pub stage: Stage,
    pub action: Action,
}

/// A failure: close the stream and report.
pub open spec fn failed(error: ErrorView) -> (Stage, ActionView) {
    (Stage::Failed, ActionView::Fail(error))
}

/// What follows once bytes pass to the far end: the TLS handshake, where
/// the transport has a server name, and else nothing more.
pub open spec fn secured_or_ready(transport: TransportView) -> (Stage, ActionView) {
    match transport.server_name {
        Some(name) => (Stage::Securing, ActionView::Handshake { server_name: name }),
        None => (Stage::Established, ActionView::Ready),
    }
}

/// The request for a tunnel to an address, or a failure where the address
/// cannot be carried.
pub open spec fn tunnel_request(address: TunnelAddressView, port: u16) -> (Stage, ActionView) {
    match connect_request_bytes(address, port) {
        Some(message) => (Stage::Tunneling, ActionView::Send(message)),
        None => failed(ErrorView::SocksNegotiation(SocksFailure::Malformed)),
    }
}

/// The step that an event causes at a stage; none where the event does
/// not belong to the stage. Connecting comes first. Through a proxy that
/// tunnels, the greeting follows, then the request to connect, which names
/// the far end by its host name where the proxy resolves names and else by
/// an address that the caller finds. A TLS handshake comes last, where the
/// transport has a server name. Whatever fails, fails once: nothing follows
/// a failure, and nothing follows readiness.
pub open spec fn next_step(transport: TransportView, stage: Stage, event: EventView) -> Option<
    (Stage, ActionView),
> {
    match (stage, event) {
        (Stage::Established, _) => None,
        (Stage::Failed, _) => None,
        (Stage::Idle, EventView::Start) => Some(
            (
                Stage::Connecting,
                ActionView::Connect { host: transport.peer_host, port: transport.peer_port },
            ),
        ),
        (Stage::Idle, _) => None,
        (_, EventView::TimedOut) => Some(failed(ErrorView::Connect(ConnectFailure::TimedOut))),
        (Stage::Connecting, EventView::Connected) => match transport.tunnel {
            Some(_) => Some((Stage::Negotiating, ActionView::Send(greeting_bytes()))),
            None => Some(secured_or_ready(transport)),
        },
        (Stage::Connecting, EventView::ConnectFailed(why)) => Some(
            failed(ErrorView::Connect(why)),
        ),
        (Stage::Negotiating, EventView::Received(bytes)) => match (
            method_reply(bytes),
            transport.tunnel,
        ) {
            (Err(why), _) => Some(failed(ErrorView::SocksNegotiation(why))),
            (Ok(None), _) => Some((Stage::Negotiating, ActionView::Receive)),
            (Ok(Some(_)), Some(tunnel)) => if tunnel.remote_dns {
                Some(tunnel_request(TunnelAddressView::Domain(tunnel.host), tunnel.port))
            } else {
                Some((Stage::Resolving, ActionView::Resolve { host: tunnel.host }))
            },
            (Ok(Some(_)), None) => None,
        },
        (Stage::Resolving, EventView::Resolved(address)) => match transport.tunnel {
            Some(tunnel) => Some(tunnel_request(address, tunnel.port)),
            None => None,
        },
        (Stage::Resolving, EventView::ResolveFailed) => Some(
            failed(ErrorView::Connect(ConnectFailure::Resolve)),
        ),
        (Stage::Tunneling, EventView::Received(bytes)) => match connect_reply(bytes) {
            Err(why) => Some(failed(ErrorView::SocksNegotiation(why))),
            Ok(None) => Some((Stage::Tunneling, ActionView::Receive)),
            Ok(Some(_)) => Some(secured_or_ready(transport)),
        },
        (Stage::Securing, EventView::Secured) => Some((Stage::Established, ActionView::Ready)),
        (Stage::Securing, EventView::SecureFailed) => Some(failed(ErrorView::TlsHandshake)),
        _ => None,
    }
}

/// Whether a step is the given outcome.
pub open spec fn is_step(step: Option<Step>, outcome: Option<(Stage, ActionView)>) -> bool {
    match step {
        Some(s) => outcome == Some((s.stage, s.action@)),
        None => outcome.is_none(),
    }
}

fn fail(error: Error) -> (step: Option<Step>)
    ensures
        is_step(step, Some(failed(error@))),
{
    Some(Step { stage: Stage::Failed, action: Action::Fail(error) })
}

impl Transport {
    fn secure_or_ready(&self) -> (step: Option<Step>)
        ensures
            is_step(step, Some(secured_or_ready(self@))),
    {
        match &self.server_name {
            Some(name) => Some(
                Step {
                    stage: Stage::Securing,
                    action: Action::Handshake { server_name: name.clone() },
                },
            ),
            None => Some(Step { stage: Stage::Established, action: Action::Ready }),
        }
    }

    /// The step that `event` causes at `stage`; none where the event does
    /// not belong to the stage.
    pub fn step(&self, stage: Stage, event: Event) -> (step: Option<Step>)
        ensures
            is_step(step, next_step(self@, stage, event@)),
    {
        match stage {
            Stage::Established => None,
            Stage::Failed => None,
            Stage::Idle => match event {
                Event::Start => Some(
                    Step {
                        stage: Stage::Connecting,
                        action: Action::Connect {
                            host: self.peer_host.clone(),
                            port: self.peer_port,
                        },
                    },
                ),
                _ => None,
            },
            Stage::Connecting => match event {
                Event::TimedOut => fail(Error::Connect(ConnectFailure::TimedOut)),
                Event::Connected => match &self.tunnel {
                    Some(_) => Some(
                        Step { stage: Stage::Negotiating, action: Action::Send(greeting()) },
                    ),
                    None => self.secure_or_ready(),
                },
                Event::ConnectFailed(why) => fail(Error::Connect(why)),
                _ => None,
            },
            Stage::Negotiating => match event {
                Event::TimedOut => fail(Error::Connect(ConnectFailure::TimedOut)),
                Event::Received(bytes) => match read_method_reply(bytes.as_slice()) {
                    Err(why) => fail(Error::SocksNegotiation(why)),
                    Ok(None) => Some(Step { stage: Stage::Negotiating, action: Action::Receive }),
                    Ok(Some(_)) => match &self.tunnel {
                        Some(tunnel) => {
                            if tunnel.remote_dns {
                                let address = TunnelAddress::Domain(tunnel.host.clone());
                                tunnel_step(&address, tunnel.port)
                            } else {
                                Some(
                                    Step {
                                        stage: Stage::Resolving,
                                        action: Action::Resolve { host: tunnel.host.clone() },
                                    },
                                )
                            }
                        },
                        None => None,
                    },
                },
                _ => None,
            },
            Stage::Resolving => match event {
                Event::TimedOut => fail(Error::Connect(ConnectFailure::TimedOut)),
                Event::Resolved(address) => match &self.tunnel {
                    Some(tunnel) => tunnel_step(&address, tunnel.port),
                    None => None,
                },
                Event::ResolveFailed => fail(Error::Connect(ConnectFailure::Resolve)),
                _ => None,
            },
            Stage::Tunneling => match event {
                Event::TimedOut => fail(Error::Connect(ConnectFailure::TimedOut)),
                Event::Received(bytes) => match read_connect_reply(bytes.as_slice()) {
                    Err(why) => fail(Error::SocksNegotiation(why)),
                    Ok(None) => Some(Step { stage: Stage::Tunneling, action: Action::Receive }),
                    Ok(Some(_)) => self.secure_or_ready(),
                },
                _ => None,
            },
            Stage::Securing => match event {
                Event::TimedOut => fail(Error::Connect(ConnectFailure::TimedOut)),
                Event::Secured => Some(Step { stage: Stage::Established, action: Action::Ready }),
                Event::SecureFailed => fail(Error::TlsHandshake),
                _ => None,
            },
        }
    }
}

fn tunnel_step(address: &TunnelAddress, port: u16) -> (step: Option<Step>)
    ensures
        is_step(step, Some(tunnel_request(address@, port))),
{
    match connect_request(address, port) {
        Some(message) => Some(Step { stage: Stage::Tunneling, action: Action::Send(message) }),
        None => fail(Error::SocksNegotiation(SocksFailure::Malformed)),
    }
}

/// Nothing follows readiness, and nothing follows a failure.
pub proof fn lemma_last_stages(transport: TransportView, event: EventView)
    ensures
        next_step(transport, Stage::Established, event).is_none(),
        next_step(transport, Stage::Failed, event).is_none(),
{
}

/// A step that reports a failure leads to the stage `Failed`, and no other
/// step does.
pub proof fn lemma_failure_is_final(transport: TransportView, stage: Stage, event: EventView)
    requires
        next_step(transport, stage, event).is_some(),
    ensures
        (next_step(transport, stage, event).unwrap().1 is Fail) <==> next_step(
            transport,
            stage,
            event,
        ).unwrap().0 == Stage::Failed,
{
}

/// A transport with a server name is ready only after a TLS handshake
/// succeeded, and a handshake is asked for with that name only.
pub proof fn lemma_ready_after_handshake(transport: TransportView, stage: Stage, event: EventView)
    requires
        next_step(transport, stage, event).is_some(),
    ensures
        transport.server_name.is_some() && next_step(transport, stage, event).unwrap().1
            == ActionView::Ready ==> stage == Stage::Securing && event == EventView::Secured,
        next_step(transport, stage, event).unwrap().1 matches ActionView::Handshake {
            server_name,
        } ==> transport.server_name == Some(server_name),
{
}

/// Through a proxy that tunnels, bytes pass to the far end only after the
/// proxy replied with success to a request to connect: a handshake or
/// readiness follows the stage `Tunneling` alone.
pub proof fn lemma_tunnel_before_traffic(transport: TransportView, stage: Stage, event: EventView)
    requires
        transport.tunnel.is_some(),
        next_step(transport, stage, event).is_some(),
        stage != Stage::Securing,
    ensures
        next_step(transport, stage, event).unwrap().0 == Stage::Securing || next_step(
            transport,
            stage,
            event,
        ).unwrap().0 == Stage::Established ==> stage == Stage::Tunneling && connect_reply(
            event->Received_0,
        ) matches Ok(Some(_)),
{
}

} // verus!
