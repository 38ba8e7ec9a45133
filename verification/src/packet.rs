//! Per-packet classification: where a raw IPv4 packet is headed and which
//! link carries it.

use vstd::prelude::*;
use crate::addr::{octets_value, Ipv4Address, Ipv4Prefix};

verus! {

/// The shortest well-formed IPv4 header, in bytes.
pub const MIN_HEADER_LEN: usize = 20;

/// The largest IP packet that fits in the payload region of one frame.
pub const MAX_PAYLOAD_LEN: usize = 1500;

/// Why a single packet was not forwarded. None of these stops the capture loop.
#[derive(Clone, Copy, Debug, PartialEq, Eq, Structural)]
pub enum PacketError {
    /// The packet is shorter than an IPv4 header.
    TooShort,
    /// The packet does not fit in the payload region of a frame.
    TooLong,
    /// No link-layer address was learned for the destination in time.
    ResolutionTimeout,
    /// The raw channel refused the frame.
    TransmitFailed,
}

/// One of the two links a packet can leave on.
#[derive(Clone, Copy, Debug, PartialEq, Eq, Structural)]
pub enum Link {
    /// The link that carried the default route before the takeover.
    Physical,
    /// The link of the VPN tunnel.
    Tunnel,
}

/// The destination address of an IPv4 packet: bytes 16 to 19 of its header,
/// first octet first.
pub open spec fn destination_of(packet: Seq<u8>) -> Ipv4Address
    recommends
        packet.len() >= MIN_HEADER_LEN,
{
    Ipv4Address { bits: octets_value(packet[16], packet[17], packet[18], packet[19]) as u32 }
}

/// The link for a destination: the tunnel for an address inside the VPN
/// prefix, the physical link for every other address.
pub open spec fn link_for(dest: Ipv4Address, vpn_prefix: Ipv4Prefix) -> Link {
    if vpn_prefix.covers(dest) {
        Link::Tunnel
    } else {
        Link::Physical
    }
}

/// Reads the destination address out of a raw packet. A packet shorter than
/// an IPv4 header has none.
pub fn parse_destination(packet: &[u8]) -> (r: Result<Ipv4Address, PacketError>)
    ensures
        packet@.len() < MIN_HEADER_LEN ==> r == Err::<Ipv4Address, PacketError>(
            PacketError::TooShort,
        ),
        packet@.len() >= MIN_HEADER_LEN ==> r == Ok::<Ipv4Address, PacketError>(
            destination_of(packet@),
        ),
{
    if packet.len() < MIN_HEADER_LEN {
        return Err(PacketError::TooShort);
    }
    Ok(Ipv4Address::new(packet[16], packet[17], packet[18], packet[19]))
}

/// Chooses the outbound link for a destination address.
pub fn classify(dest: Ipv4Address, vpn_prefix: &Ipv4Prefix) -> (r: Link)
    ensures
        r == link_for(dest, *vpn_prefix),
        r == Link::Tunnel <==> (dest.bits & vpn_prefix.mask.bits) == vpn_prefix.network.bits,
{
    if vpn_prefix.contains(dest) {
        Link::Tunnel
    } else {
        Link::Physical
    }
}

/// Chooses the outbound link for a raw packet, or rejects a packet that is too
/// short to carry a destination.
pub fn classify_packet(packet: &[u8], vpn_prefix: &Ipv4Prefix) -> (r: Result<Link, PacketError>)
    ensures
        packet@.len() < MIN_HEADER_LEN ==> r == Err::<Link, PacketError>(PacketError::TooShort),
        packet@.len() >= MIN_HEADER_LEN ==> r == Ok::<Link, PacketError>(
            link_for(destination_of(packet@), *vpn_prefix),
        ),
{
    match parse_destination(packet) {
        Ok(dest) => Ok(classify(dest, vpn_prefix)),
        Err(e) => Err(e),
    }
}

} // verus!
