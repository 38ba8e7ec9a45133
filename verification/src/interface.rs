//! Snapshots of network interfaces.

use vstd::prelude::*;
use crate::addr::{Ipv4Address, MacAddress};

verus! {

/// The identity of a link, as it was at discovery time. A snapshot is never
/// updated: a consumer that needs fresh data takes a new one.
#[derive(Clone, Debug, PartialEq, Eq)]
pub struct NetworkInterface {
    pub name: String,
    /// The index the operating system assigned to the interface.
    pub index: u32,
    /// The link-layer address; virtual links may have none.
    pub mac: Option<MacAddress>,
    pub is_up: bool,
    pub is_loopback: bool,
    pub addresses: Vec<Ipv4Address>,
}

/// Whether the snapshot holds an interface with this index.
pub open spec fn has_index(snapshot: Seq<NetworkInterface>, index: u32) -> bool {
    exists|i: int| 0 <= i < snapshot.len() && (#[trigger] snapshot[i]).index == index
}

/// The position of the first interface of the snapshot with the given index;
/// `None` where the snapshot holds no such interface.
pub fn find_interface(snapshot: &Vec<NetworkInterface>, index: u32) -> (r: Option<usize>)
    ensures
        match r {
            Some(i) => {
                &&& i < snapshot.len()
                &&& snapshot@[i as int].index == index
                &&& forall|j: int| 0 <= j < i ==> (#[trigger] snapshot@[j]).index != index
            },
            None => !has_index(snapshot@, index),
        },
{
    let mut i: usize = 0;
    while i < snapshot.len()
        invariant
            i <= snapshot.len(),
            forall|j: int| 0 <= j < i ==> (#[trigger] snapshot@[j]).index != index,
        decreases snapshot.len() - i,
    {
        if snapshot[i].index == index {
            return Some(i);
        }
        i = i + 1;
    }
    None
}

} // verus!
