//! The messages of a SOCKS5 negotiation without authentication: the
//! greeting, the request to connect, and the proxy's replies.

use vstd::prelude::*;
use crate::error::SocksFailure;
use crate::text::wire;

verus! {

/// The address that a proxy is asked to connect to.
#[derive(Debug)]
pub enum TunnelAddress {
    /// A host name, which the proxy resolves.
    Domain(String),
    /// An IPv4 address.
    V4([u8; 4]),
    /// An IPv6 address.
    V6([u8; 16]),
}

/// An address as plain values.
pub enum TunnelAddressView {
    Domain(Seq<char>),
    V4(Seq<u8>),
    V6(Seq<u8>),
}

impl View for TunnelAddress {
    type V = TunnelAddressView;

    open spec fn view(&self) -> TunnelAddressView {
        match self {
            TunnelAddress::Domain(name) => TunnelAddressView::Domain(name@),
            TunnelAddress::V4(octets) => TunnelAddressView::V4(octets@),
            TunnelAddress::V6(octets) => TunnelAddressView::V6(octets@),
        }
    }
}

/// The greeting: version 5, one method offered, which is "no
/// authentication".
pub open spec fn greeting_bytes() -> Seq<u8> {
    seq![5u8, 1u8, 0u8]
}

/// An address as a request carries it: its kind, then the four or sixteen
/// bytes of an IP address, or the length and the bytes of a host name. A
/// host name that is empty or longer than 255 bytes cannot be carried.
pub open spec fn address_bytes(address: TunnelAddressView) -> Option<Seq<u8>> {
    match address {
        TunnelAddressView::Domain(name) => if 1 <= wire(name).len() <= 255 {
            Some(seq![3u8, wire(name).len() as u8] + wire(name))
        } else {
            None
        },
        TunnelAddressView::V4(octets) => Some(seq![1u8] + octets),
        TunnelAddressView::V6(octets) => Some(seq![4u8] + octets),
    }
}

/// The request to connect: version 5, the command `CONNECT`, a reserved
/// zero, the address, and the port with its high byte first.
pub open spec fn connect_request_bytes(address: TunnelAddressView, port: u16) -> Option<Seq<u8>> {
    match address_bytes(address) {
        Some(bytes) => Some(
            seq![5u8, 1u8, 0u8] + bytes + seq![(port / 256) as u8, (port % 256) as u8],
        ),
        None => None,
    }
}

/// What the proxy's choice of method says, as far as it has arrived. A
/// full reply is two bytes: version 5 and the method chosen, which must be
/// "no authentication".
pub open spec fn method_reply(bytes: Seq<u8>) -> Result<Option<nat>, SocksFailure> {
    if bytes.len() >= 1 && bytes[0] != 5 {
        Err(SocksFailure::BadVersion)
    } else if bytes.len() >= 2 && bytes[1] != 0 {
        Err(SocksFailure::AuthRejected)
    } else if bytes.len() >= 2 {
        Ok(Some(2nat))
    } else {
        Ok(None)
    }
}

/// What the proxy's reply to a request says, as far as it has arrived. A
/// full reply is version 5, a code that is zero for success, a reserved
/// byte, and the address and port that the proxy bound. With success comes
/// the length of the reply.
pub open spec fn connect_reply(bytes: Seq<u8>) -> Result<Option<nat>, SocksFailure> {
    if bytes.len() >= 1 && bytes[0] != 5 {
        Err(SocksFailure::BadVersion)
    } else if bytes.len() >= 2 && bytes[1] != 0 {
        Err(SocksFailure::TargetRefused(bytes[1]))
    } else if bytes.len() < 4 {
        Ok(None)
    } else if bytes[3] == 1 {
        reply_of_length(bytes, 10)
    } else if bytes[3] == 4 {
        reply_of_length(bytes, 22)
    } else if bytes[3] == 3 {
        if bytes.len() < 5 {
            Ok(None)
        } else {
            reply_of_length(bytes, 7 + bytes[4] as nat)
        }
    } else {
        Err(SocksFailure::Malformed)
    }
}

/// A successful reply of a known length: complete once that many bytes
/// have arrived.
pub open spec fn reply_of_length(bytes: Seq<u8>, length: nat) -> Result<Option<nat>, SocksFailure> {
    if bytes.len() >= length {
        Ok(Some(length))
    } else {
        Ok(None)
    }
}

/// Whether a result of reading a reply is the given outcome.
pub open spec fn is_reply(
    result: Result<Option<usize>, SocksFailure>,
    outcome: Result<Option<nat>, SocksFailure>,
) -> bool {
    match result {
        Ok(Some(n)) => outcome == Ok::<Option<nat>, SocksFailure>(Some(n as nat)),
        Ok(None) => outcome == Ok::<Option<nat>, SocksFailure>(None),
        Err(why) => outcome == Err::<Option<nat>, SocksFailure>(why),
    }
}

/// The greeting.
pub fn greeting() -> (message: Vec<u8>)
    ensures
        message@ == greeting_bytes(),
{
    let mut message: Vec<u8> = Vec::new();
    message.push(5);
    message.push(1);
    message.push(0);
    assert(message@ =~= greeting_bytes());
    message
}

fn push_all(message: &mut Vec<u8>, bytes: &[u8])
    ensures
        final(message)@ == old(message)@ + bytes@,
{
    let ghost before = message@;
    let mut i: usize = 0;
    while i < bytes.len()
        invariant
            i <= bytes.len(),
            message@ == before + bytes@.take(i as int),
        decreases bytes.len() - i,
    {
        message.push(bytes[i]);
        i += 1;
        assert(message@ =~= before + bytes@.take(i as int));
    }
    assert(bytes@.take(i as int) =~= bytes@);
}

/// The request to connect to `address` and `port`, where the address can
/// be carried.
pub fn connect_request(address: &TunnelAddress, port: u16) -> (message: Option<Vec<u8>>)
    ensures
        match message {
            Some(m) => connect_request_bytes(address@, port) == Some(m@),
            None => connect_request_bytes(address@, port).is_none(),
        },
{
    let mut message: Vec<u8> = Vec::new();
    message.push(5);
    message.push(1);
    message.push(0);
    match address {
        TunnelAddress::Domain(name) => {
            let bytes = name.as_str().as_bytes();
            if bytes.len() < 1 || bytes.len() > 255 {
                return None;
            }
            message.push(3);
            message.push(bytes.len() as u8);
            push_all(&mut message, bytes);
        },
        TunnelAddress::V4(octets) => {
            message.push(1);
            push_all(&mut message, octets.as_slice());
        },
        TunnelAddress::V6(octets) => {
            message.push(4);
            push_all(&mut message, octets.as_slice());
        },
    }
    message.push((port / 256) as u8);
    message.push((port % 256) as u8);
    assert(message@ =~= connect_request_bytes(address@, port).unwrap());
    Some(message)
}

/// Reads the proxy's choice of method from what has arrived.
pub fn read_method_reply(bytes: &[u8]) -> (result: Result<Option<usize>, SocksFailure>)
    ensures
        is_reply(result, method_reply(bytes@)),
{
    if bytes.len() >= 1 && bytes[0] != 5 {
        Err(SocksFailure::BadVersion)
    } else if bytes.len() >= 2 && bytes[1] != 0 {
        Err(SocksFailure::AuthRejected)
    } else if bytes.len() >= 2 {
        Ok(Some(2))
    } else {
        Ok(None)
    }
}

/// Reads the proxy's reply to a request from what has arrived.
pub fn read_connect_reply(bytes: &[u8]) -> (result: Result<Option<usize>, SocksFailure>)
    ensures
        is_reply(result, connect_reply(bytes@)),
{
    if bytes.len() >= 1 && bytes[0] != 5 {
        return Err(SocksFailure::BadVersion);
    }
    if bytes.len() >= 2 && bytes[1] != 0 {
        return Err(SocksFailure::TargetRefused(bytes[1]));
    }
    if bytes.len() < 4 {
        return Ok(None);
    }
    let length: usize = if bytes[3] == 1 {
        10
    } else if bytes[3] == 4 {
        22
    } else if bytes[3] == 3 {
        if bytes.len() < 5 {
            return Ok(None);
        }
        7 + bytes[4] as usize
    } else {
        return Err(SocksFailure::Malformed);
    };
    if bytes.len() >= length {
        Ok(Some(length))
    } else {
        Ok(None)
    }
}

} // verus!
