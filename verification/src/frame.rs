//! Link-layer frames: an IP packet wrapped for delivery to a resolved next hop.

use vstd::prelude::*;
use crate::addr::MacAddress;
use crate::packet::{PacketError, MAX_PAYLOAD_LEN, MIN_HEADER_LEN};

verus! {

/// The length of a frame header: two addresses and the ethertype.
pub const FRAME_HEADER_LEN: usize = 14;

/// The two ethertype bytes that announce an IPv4 payload (`0x0800`).
pub open spec fn ethertype_ipv4() -> Seq<u8> {
    seq![0x08u8, 0x00u8]
}

/// The frame that carries `packet` from `source` to `destination`: the
/// destination address, the source address, the IPv4 ethertype, then the
/// packet itself, byte for byte.
pub open spec fn frame_of(destination: MacAddress, source: MacAddress, packet: Seq<u8>) -> Seq<u8> {
    destination.octets@ + source.octets@ + ethertype_ipv4() + packet
}

/// Whether a packet of this length can be framed: it holds at least an IPv4
/// header and fits in the payload region.
pub open spec fn frameable(len: nat) -> bool {
    MIN_HEADER_LEN <= len <= MAX_PAYLOAD_LEN
}

/// Wraps a raw IP packet in a frame from `source` to `destination`.
///
/// A packet shorter than an IPv4 header is rejected as `TooShort`, one longer
/// than the payload region as `TooLong`; every other packet is framed.
pub fn build_frame(packet: &[u8], source: &MacAddress, destination: &MacAddress) -> (r: Result<
    Vec<u8>,
    PacketError,
>)
    ensures
        packet@.len() < MIN_HEADER_LEN ==> r == Err::<Vec<u8>, PacketError>(PacketError::TooShort),
        packet@.len() > MAX_PAYLOAD_LEN ==> r == Err::<Vec<u8>, PacketError>(PacketError::TooLong),
        frameable(packet@.len()) ==> r is Ok && r->Ok_0@ == frame_of(
            *destination,
            *source,
            packet@,
        ),
        r is Ok ==> r->Ok_0@.len() == FRAME_HEADER_LEN + packet@.len(),
{
    if packet.len() < MIN_HEADER_LEN {
        return Err(PacketError::TooShort);
    }
    if packet.len() > MAX_PAYLOAD_LEN {
        return Err(PacketError::TooLong);
    }
    let mut frame: Vec<u8> = Vec::with_capacity(FRAME_HEADER_LEN + packet.len());
    let mut i: usize = 0;
    while i < 6
        invariant
            i <= 6,
            frame@ == destination.octets@.subrange(0, i as int),
        decreases 6 - i,
    {
        frame.push(destination.octets[i]);
        assert(frame@ =~= destination.octets@.subrange(0, i + 1));
        i = i + 1;
    }
    assert(frame@ =~= destination.octets@);
    i = 0;
    while i < 6
        invariant
            i <= 6,
            frame@ == destination.octets@ + source.octets@.subrange(0, i as int),
        decreases 6 - i,
    {
        frame.push(source.octets[i]);
        assert(frame@ =~= destination.octets@ + source.octets@.subrange(0, i + 1));
        i = i + 1;
    }
    assert(frame@ =~= destination.octets@ + source.octets@);
    frame.push(0x08u8);
    frame.push(0x00u8);
    assert(frame@ =~= destination.octets@ + source.octets@ + ethertype_ipv4());
    i = 0;
    while i < packet.len()
        invariant
            i <= packet@.len(),
            frame@ == destination.octets@ + source.octets@ + ethertype_ipv4() + packet@.subrange(
                0,
                i as int,
            ),
        decreases packet@.len() - i,
    {
        frame.push(packet[i]);
        assert(frame@ =~= destination.octets@ + source.octets@ + ethertype_ipv4()
            + packet@.subrange(0, i + 1));
        i = i + 1;
    }
    assert(packet@.subrange(0, i as int) =~= packet@);
    Ok(frame)
}

} // verus!
