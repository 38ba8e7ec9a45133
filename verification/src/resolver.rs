//! Address resolution on the wire: the request that asks who has an address,
//! and the reading of a reply.
//!
//! Sending the request and waiting for the reply, with its timeout, is done
//! by whoever owns the raw channel. Nothing is remembered between two
//! resolutions.

use vstd::prelude::*;
use crate::addr::{octets_value, Ipv4Address, MacAddress};

verus! {

/// The length of a resolution frame: a frame header and the request or reply.
pub const ARP_FRAME_LEN: usize = 42;

/// The fixed middle of a request: the address-resolution ethertype, Ethernet
/// as hardware, IPv4 as protocol, their address lengths, and the operation
/// "request".
pub open spec fn request_preamble() -> Seq<u8> {
    seq![0x08u8, 0x06u8, 0x00u8, 0x01u8, 0x08u8, 0x00u8, 0x06u8, 0x04u8, 0x00u8, 0x01u8]
}

/// The same for a reply: only the operation differs.
pub open spec fn reply_preamble() -> Seq<u8> {
    seq![0x08u8, 0x06u8, 0x00u8, 0x01u8, 0x08u8, 0x00u8, 0x06u8, 0x04u8, 0x00u8, 0x02u8]
}

/// The broadcast frame that asks who has `target`: sent from `sender_mac`,
/// telling `sender_ip`, with the target's hardware address left zero.
pub open spec fn request_of(sender_mac: MacAddress, sender_ip: Ipv4Address, target: Ipv4Address) -> Seq<
    u8,
> {
    seq![0xffu8, 0xffu8, 0xffu8, 0xffu8, 0xffu8, 0xffu8] + sender_mac.octets@ + request_preamble()
        + sender_mac.octets@ + sender_ip.octets_seq() + seq![0u8, 0u8, 0u8, 0u8, 0u8, 0u8]
        + target.octets_seq()
}

/// Whether a frame is a reply in which the owner of `wanted` tells its
/// hardware address.
pub open spec fn is_reply_from(frame: Seq<u8>, wanted: Ipv4Address) -> bool {
    &&& frame.len() >= ARP_FRAME_LEN
    &&& frame.subrange(12, 22) == reply_preamble()
    &&& octets_value(frame[28], frame[29], frame[30], frame[31]) == wanted.bits as int
}

/// The hardware address that the sender of a reply tells.
pub open spec fn reply_sender(frame: Seq<u8>) -> MacAddress
    recommends
        frame.len() >= ARP_FRAME_LEN,
{
    MacAddress { octets: [frame[22], frame[23], frame[24], frame[25], frame[26], frame[27]] }
}

fn append_bytes(frame: &mut Vec<u8>, bytes: &[u8])
    ensures
        final(frame)@ == old(frame)@ + bytes@,
{
    let mut i: usize = 0;
    while i < bytes.len()
        invariant
            i <= bytes@.len(),
            frame@ == old(frame)@ + bytes@.subrange(0, i as int),
        decreases bytes@.len() - i,
    {
        frame.push(bytes[i]);
        assert(frame@ =~= old(frame)@ + bytes@.subrange(0, i + 1));
        i = i + 1;
    }
    assert(bytes@.subrange(0, i as int) =~= bytes@);
}

/// Builds the frame that asks, on the link of `sender_mac`, who has `target`.
pub fn build_request(sender_mac: &MacAddress, sender_ip: Ipv4Address, target: Ipv4Address) -> (r:
    Vec<u8>)
    ensures
        r@ == request_of(*sender_mac, sender_ip, target),
        r@.len() == ARP_FRAME_LEN,
{
    let mut frame: Vec<u8> = Vec::with_capacity(ARP_FRAME_LEN);
    let broadcast: [u8; 6] = [0xff, 0xff, 0xff, 0xff, 0xff, 0xff];
    let preamble: [u8; 10] = [0x08, 0x06, 0x00, 0x01, 0x08, 0x00, 0x06, 0x04, 0x00, 0x01];
    let unknown: [u8; 6] = [0, 0, 0, 0, 0, 0];
    let sender_octets = sender_ip.octets();
    let target_octets = target.octets();
    assert(broadcast@ =~= seq![0xffu8, 0xffu8, 0xffu8, 0xffu8, 0xffu8, 0xffu8]);
    assert(preamble@ =~= request_preamble());
    assert(unknown@ =~= seq![0u8, 0u8, 0u8, 0u8, 0u8, 0u8]);
    append_bytes(&mut frame, broadcast.as_slice());
    append_bytes(&mut frame, sender_mac.octets.as_slice());
    append_bytes(&mut frame, preamble.as_slice());
    append_bytes(&mut frame, sender_mac.octets.as_slice());
    append_bytes(&mut frame, sender_octets.as_slice());
    append_bytes(&mut frame, unknown.as_slice());
    append_bytes(&mut frame, target_octets.as_slice());
    assert(frame@ =~= request_of(*sender_mac, sender_ip, target));
    frame
}

/// Reads a received frame as the answer to a request for `wanted`: the
/// hardware address it tells, where the frame is a reply sent by the owner of
/// `wanted`; `None` for every other frame.
pub fn parse_reply(frame: &[u8], wanted: Ipv4Address) -> (r: Option<MacAddress>)
    ensures
        is_reply_from(frame@, wanted) ==> r == Some(reply_sender(frame@)),
        !is_reply_from(frame@, wanted) ==> r.is_none(),
{
    if frame.len() < ARP_FRAME_LEN {
        return None;
    }
    let preamble: [u8; 10] = [0x08, 0x06, 0x00, 0x01, 0x08, 0x00, 0x06, 0x04, 0x00, 0x02];
    let mut i: usize = 0;
    while i < 10
        invariant
            i <= 10,
            frame@.len() >= ARP_FRAME_LEN,
            preamble@ =~= reply_preamble(),
            forall|j: int| 0 <= j < i ==> frame@[12 + j] == reply_preamble()[j],
        decreases 10 - i,
    {
        if frame[12 + i] != preamble[i] {
            assert(frame@.subrange(12, 22)[i as int] != reply_preamble()[i as int]);
            return None;
        }
        i = i + 1;
    }
    assert(frame@.subrange(12, 22) =~= reply_preamble());
    let sender = Ipv4Address::new(frame[28], frame[29], frame[30], frame[31]);
    if sender.bits != wanted.bits {
        return None;
    }
    Some(MacAddress { octets: [frame[22], frame[23], frame[24], frame[25], frame[26], frame[27]] })
}

} // verus!
