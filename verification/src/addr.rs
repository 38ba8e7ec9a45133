//! IPv4 addresses, link-layer addresses and network prefixes as plain values.

use vstd::prelude::*;
use vstd::arithmetic::power2::{
    lemma2_to64, lemma_pow2_pos, lemma_pow2_strictly_increases, lemma_pow2_unfold, pow2,
};

verus! {

/// An IPv4 address, held as its 32 bits in network order: the first octet is
/// the most significant byte.
#[derive(Clone, Copy, Debug, PartialEq, Eq, Structural)]
pub struct Ipv4Address {
    pub bits: u32,
}

/// The 32-bit value whose bytes, most significant first, are `a`, `b`, `c`, `d`.
pub open spec fn octets_value(a: u8, b: u8, c: u8, d: u8) -> int {
    a as int * 0x100_0000 + b as int * 0x1_0000 + c as int * 0x100 + d as int
}

impl Ipv4Address {
    /// The address `a.b.c.d`.
    pub fn new(a: u8, b: u8, c: u8, d: u8) -> (r: Ipv4Address)
        ensures
            r.bits as int == octets_value(a, b, c, d),
    {
        let hi: u32 = a as u32 * 0x100_0000 + b as u32 * 0x1_0000;
        let lo: u32 = c as u32 * 0x100 + d as u32;
        Ipv4Address { bits: hi + lo }
    }

    /// The four octets of the address as a sequence, first octet first.
    pub open spec fn octets_seq(self) -> Seq<u8> {
        seq![
            (self.bits / 0x100_0000) as u8,
            (self.bits / 0x1_0000 % 0x100) as u8,
            (self.bits / 0x100 % 0x100) as u8,
            (self.bits % 0x100) as u8,
        ]
    }

    /// The four octets of the address, first octet first.
    pub fn octets(&self) -> (r: [u8; 4])
        ensures
            octets_value(r[0], r[1], r[2], r[3]) == self.bits as int,
            r@ == self.octets_seq(),
    {
        let a: u8 = (self.bits / 0x100_0000) as u8;
        let b: u8 = ((self.bits / 0x1_0000) % 0x100) as u8;
        let c: u8 = ((self.bits / 0x100) % 0x100) as u8;
        let d: u8 = (self.bits % 0x100) as u8;
        let r = [a, b, c, d];
        assert(r@ =~= self.octets_seq());
        r
    }
}

/// A 48-bit link-layer (Ethernet) address.
#[derive(Clone, Copy, Debug, PartialEq, Eq)]
pub struct MacAddress {
    pub octets: [u8; 6],
}

impl MacAddress {
    /// The address `00:00:00:00:00:00`, used where a link has no address of its own.
    pub fn zero() -> (r: MacAddress)
        ensures
            r.octets@ == seq![0u8, 0u8, 0u8, 0u8, 0u8, 0u8],
    {
        let r = MacAddress { octets: [0u8, 0u8, 0u8, 0u8, 0u8, 0u8] };
        assert(r.octets@ =~= seq![0u8, 0u8, 0u8, 0u8, 0u8, 0u8]);
        r
    }
}

/// The netmask with `n` leading one bits, as a number: `2^32 - 2^(32 - n)` for
/// `n <= 32`.
pub open spec fn mask_bits(n: nat) -> int
    decreases n,
{
    if n == 0 {
        0
    } else {
        mask_bits((n - 1) as nat) / 2 + 0x8000_0000
    }
}

/// The netmask of `n` leading ones is `2^32 - 2^(32 - n)`.
pub proof fn lemma_mask_bits_closed_form(n: nat)
    requires
        n <= 32,
    ensures
        mask_bits(n) == 0x1_0000_0000 - pow2((32 - n) as nat),
    decreases n,
{
    lemma2_to64();
    if n > 0 {
        lemma_mask_bits_closed_form((n - 1) as nat);
        lemma_pow2_unfold((33 - n) as nat);
    }
}

/// Every netmask of at most 32 leading ones fits in 32 bits, and a longer
/// prefix gives a strictly larger mask.
pub proof fn lemma_mask_bits_increasing(n: nat)
    requires
        n < 32,
    ensures
        0 <= mask_bits(n) < mask_bits(n + 1) <= 0xFFFF_FFFF,
        mask_bits(n) % 2 == 0,
{
    lemma2_to64();
    lemma_mask_bits_closed_form(n);
    lemma_mask_bits_closed_form(n + 1);
    lemma_pow2_unfold((32 - n) as nat);
    lemma_pow2_pos((31 - n) as nat);
    lemma_pow2_strictly_increases((32 - n) as nat, 33);
    assert(pow2(33) == 2 * pow2(32)) by {
        lemma_pow2_unfold(33);
    }
}

/// Two prefix lengths of at most 32 with the same netmask are equal.
pub proof fn lemma_mask_bits_injective(m: nat, n: nat)
    requires
        m <= 32,
        n <= 32,
        mask_bits(m) == mask_bits(n),
    ensures
        m == n,
    decreases
        (if m <= n { n - m } else { m - n }),
{
    if m < n {
        lemma_mask_bits_monotonic(m, n);
    } else if n < m {
        lemma_mask_bits_monotonic(n, m);
    }
}

/// A strictly longer prefix has a strictly larger netmask.
pub proof fn lemma_mask_bits_monotonic(m: nat, n: nat)
    requires
        m < n <= 32,
    ensures
        mask_bits(m) < mask_bits(n),
    decreases n - m,
{
    lemma_mask_bits_increasing((n - 1) as nat);
    if m + 1 < n {
        lemma_mask_bits_monotonic(m, (n - 1) as nat);
    }
}

/// The prefix length of a netmask: `Some(n)` exactly when `mask` consists of
/// `n` one bits followed by zero bits, `None` for any other bit pattern. No
/// mask has two prefix lengths.
pub fn mask_prefix_len(mask: Ipv4Address) -> (r: Option<u8>)
    ensures
        match r {
            Some(n) => {
                &&& n <= 32
                &&& mask.bits as int == mask_bits(n as nat)
                &&& forall|k: nat| k <= 32 && mask.bits as int == #[trigger] mask_bits(k) ==> k == n
            },
            None => forall|n: nat| n <= 32 ==> mask.bits as int != #[trigger] mask_bits(n),
        },
{
    let mut n: u8 = 0;
    let mut candidate: u32 = 0;
    while n < 32
        invariant
            n <= 32,
            candidate as int == mask_bits(n as nat),
            forall|k: nat| k < n ==> mask.bits as int != #[trigger] mask_bits(k),
        decreases 32 - n,
    {
        if candidate == mask.bits {
            proof {
                lemma_prefix_len_unique(mask.bits, n as nat);
            }
            return Some(n);
        }
        proof {
            lemma_mask_bits_increasing(n as nat);
        }
        candidate = candidate / 2 + 0x8000_0000;
        n = n + 1;
    }
    if candidate == mask.bits {
        proof {
            lemma_prefix_len_unique(mask.bits, n as nat);
        }
        Some(n)
    } else {
        None
    }
}

proof fn lemma_prefix_len_unique(bits: u32, n: nat)
    requires
        n <= 32,
        bits as int == mask_bits(n),
    ensures
        forall|k: nat| k <= 32 && bits as int == #[trigger] mask_bits(k) ==> k == n,
{
    assert forall|k: nat| k <= 32 && bits as int == #[trigger] mask_bits(k) implies k == n by {
        lemma_mask_bits_injective(k, n);
    }
}

/// A destination network: an address and a netmask. An address belongs to the
/// network when its masked bits equal the network address.
#[derive(Clone, Copy, Debug, PartialEq, Eq, Structural)]
pub struct Ipv4Prefix {
    pub network: Ipv4Address,
    pub mask: Ipv4Address,
}

impl Ipv4Prefix {
    /// Whether `dest` belongs to this network: `(dest & mask) == network`.
    pub open spec fn covers(self, dest: Ipv4Address) -> bool {
        (dest.bits & self.mask.bits) == self.network.bits
    }

    /// Whether `dest` belongs to this network.
    pub fn contains(&self, dest: Ipv4Address) -> (r: bool)
        ensures
            r == self.covers(dest),
    {
        (dest.bits & self.mask.bits) == self.network.bits
    }

    /// The number of leading one bits of the mask, where the mask is a run of
    /// ones followed by zeros; `None` for a mask with a gap.
    pub fn prefix_len(&self) -> (r: Option<u8>)
        ensures
            match r {
                Some(n) => {
                    &&& n <= 32
                    &&& self.mask.bits as int == mask_bits(n as nat)
                    &&& forall|k: nat|
                        k <= 32 && self.mask.bits as int == #[trigger] mask_bits(k) ==> k == n
                },
                None => forall|n: nat| n <= 32 ==> self.mask.bits as int != #[trigger] mask_bits(n),
            },
    {
        mask_prefix_len(self.mask)
    }
}

} // verus!
