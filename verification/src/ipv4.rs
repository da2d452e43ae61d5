//! Decoding of the IPv4 header that raw sockets prepend to delivered
//! ICMP datagrams: version check, header-length skip, TTL and protocol
//! extraction.

use vstd::prelude::*;
use vstd::slice::slice_subrange;

verus! {

/// IPv4 delivery is rejected below this many bytes.
const MINIMUM_PACKET_SIZE: usize = 20;

/// The transport protocols this prober understands inside IPv4.
#[derive(Clone, Copy, Debug, PartialEq, Eq, Structural)]
pub enum IpV4Protocol {
    Icmp,
}

/// The protocol named by the IPv4 protocol byte, if understood.
pub open spec fn parse_protocol(data: u8) -> Option<IpV4Protocol> {
    if data == 1 {
        Some(IpV4Protocol::Icmp)
    } else {
        None
    }
}

impl IpV4Protocol {
    /// Decode the IPv4 header's protocol byte.
    pub fn decode(data: u8) -> (r: Option<IpV4Protocol>)
        ensures
            r == parse_protocol(data),
    {
        match data {
            1 => Some(IpV4Protocol::Icmp),
            _ => None,
        }
    }
}

/// Why an IPv4 datagram was rejected.
#[derive(Clone, Copy, Debug, PartialEq, Eq, Structural)]
pub enum IpV4DecodeError {
    /// Shorter than the 20-byte minimum IPv4 header.
    TooSmallHeader,
    /// Version nibble is not 4.
    InvalidVersion,
    /// Shorter than its own header-length field claims.
    TruncatedHeader,
    /// Protocol byte names a transport this prober does not understand.
    UnknownProtocol,
}

/// Length in bytes of the IPv4 header, from the low nibble of byte 0.
pub open spec fn ipv4_header_len(b: Seq<u8>) -> int {
    4 * (b[0] % 16)
}

/// What parsing an IPv4 datagram yields: protocol, TTL, and the offset at
/// which the payload starts — or the reason it was rejected.
pub open spec fn parse_ipv4(b: Seq<u8>) -> Result<(IpV4Protocol, u8, int), IpV4DecodeError> {
    if b.len() < 20 {
        Err(IpV4DecodeError::TooSmallHeader)
    } else if b[0] / 16 != 4 {
        Err(IpV4DecodeError::InvalidVersion)
    } else if b.len() < ipv4_header_len(b) {
        Err(IpV4DecodeError::TruncatedHeader)
    } else {
        match parse_protocol(b[9]) {
            Some(p) => Ok((p, b[8], ipv4_header_len(b))),
            None => Err(IpV4DecodeError::UnknownProtocol),
        }
    }
}

/// A decoded IPv4 datagram: protocol, TTL, and the payload that follows the
/// header.
pub struct IpV4Packet<'a> {
    pub protocol: IpV4Protocol,
    pub ttl: u8,
    pub data: &'a [u8],
}

impl<'a> IpV4Packet<'a> {
    /// Parse the IPv4 header and hand back the payload slice after it.
    pub fn decode(data: &'a [u8]) -> (r: Result<IpV4Packet<'a>, IpV4DecodeError>)
        ensures
            (match (r, parse_ipv4(data@)) {
                (Ok(p), Ok(t)) => p.protocol == t.0 && p.ttl == t.1 && p.data@ == data@.subrange(
                    t.2,
                    data@.len() as int,
                ),
                (Err(e1), Err(e2)) => e1 == e2,
                _ => false,
            }),
    {
        if data.len() < MINIMUM_PACKET_SIZE {
            return Err(IpV4DecodeError::TooSmallHeader);
        }
        let byte0 = data[0];
        let version = byte0 / 16;
        let header_size: usize = 4 * ((byte0 % 16) as usize);
        let ttl = data[8];
        if version != 4 {
            return Err(IpV4DecodeError::InvalidVersion);
        }
        if data.len() < header_size {
            return Err(IpV4DecodeError::TruncatedHeader);
        }
        let protocol = match IpV4Protocol::decode(data[9]) {
            Some(p) => p,
            None => {
                return Err(IpV4DecodeError::UnknownProtocol);
            },
        };
        let rest = slice_subrange(data, header_size, data.len());
        Ok(IpV4Packet { protocol, ttl, data: rest })
    }
}

} // verus!
