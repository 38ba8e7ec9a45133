//! Routing entries, the operations a routing table accepts, and an in-memory
//! routing table that answers them as an operating system does.

use vstd::prelude::*;
use crate::addr::Ipv4Address;

verus! {

/// A routing entry: a destination prefix, an optional gateway, the interface
/// that owns the route and an optional metric.
#[derive(Clone, Copy, Debug, PartialEq, Eq)]
pub struct Route {
    pub destination: Ipv4Address,
    pub prefix_len: u8,
    pub gateway: Option<Ipv4Address>,
    pub ifindex: u32,
    pub metric: Option<u32>,
}

/// A change asked of a routing table.
#[derive(Clone, Copy, Debug, PartialEq, Eq)]
pub enum RouteOp {
    Add(Route),
    Delete(Route),
}

/// How a routing table answered one operation.
#[derive(Clone, Copy, Debug, PartialEq, Eq, Structural)]
pub enum OpOutcome {
    /// The table was changed as asked.
    Done,
    /// An add found the route already present; the table is unchanged.
    AlreadyExists,
    /// A delete found no such route; the table is unchanged.
    NotFound,
    /// The operation failed for another reason; the table is unchanged.
    Failed,
}

/// Two routes are the same entry when destination prefix and interface agree,
/// whatever their gateways and metrics.
pub open spec fn same_key(a: Route, b: Route) -> bool {
    a.destination == b.destination && a.prefix_len == b.prefix_len && a.ifindex == b.ifindex
}

/// Whether a route matches every destination.
pub open spec fn is_default(r: Route) -> bool {
    r.prefix_len == 0
}

/// Whether the table holds an entry with the key of `r`.
pub open spec fn has_key(table: Seq<Route>, r: Route) -> bool {
    exists|i: int| 0 <= i < table.len() && same_key(#[trigger] table[i], r)
}

/// No two entries of the table share a key.
pub open spec fn unique_keys(table: Seq<Route>) -> bool {
    forall|i: int, j: int|
        0 <= i < j < table.len() ==> !same_key(#[trigger] table[i], #[trigger] table[j])
}

/// The position of the entry with the key of `r`.
pub open spec fn key_index(table: Seq<Route>, r: Route) -> int {
    choose|i: int| 0 <= i < table.len() && same_key(#[trigger] table[i], r)
}

/// The table after one operation: an add appends the route unless its key is
/// present, a delete takes out the entry with the route's key.
pub open spec fn table_after(table: Seq<Route>, op: RouteOp) -> Seq<Route> {
    match op {
        RouteOp::Add(r) => if has_key(table, r) {
            table
        } else {
            table.push(r)
        },
        RouteOp::Delete(r) => if has_key(table, r) {
            table.remove(key_index(table, r))
        } else {
            table
        },
    }
}

/// The answer to one operation.
pub open spec fn outcome_of(table: Seq<Route>, op: RouteOp) -> OpOutcome {
    match op {
        RouteOp::Add(r) => if has_key(table, r) {
            OpOutcome::AlreadyExists
        } else {
            OpOutcome::Done
        },
        RouteOp::Delete(r) => if has_key(table, r) {
            OpOutcome::Done
        } else {
            OpOutcome::NotFound
        },
    }
}

/// The table after a list of operations, applied first to last.
pub open spec fn table_after_all(table: Seq<Route>, ops: Seq<RouteOp>) -> Seq<Route>
    decreases ops.len(),
{
    if ops.len() == 0 {
        table
    } else {
        table_after(table_after_all(table, ops.drop_last()), ops.last())
    }
}

/// Performing a list of operations and then one more is performing the longer
/// list.
pub proof fn lemma_table_after_push(table: Seq<Route>, ops: Seq<RouteOp>, op: RouteOp)
    ensures
        table_after_all(table, ops.push(op)) == table_after(table_after_all(table, ops), op),
{
    assert(ops.push(op).drop_last() =~= ops);
}

/// The default route that a query reports is an entry of the table and
/// matches every destination.
pub proof fn lemma_first_default_in_table(table: Seq<Route>)
    ensures
        match first_default(table) {
            Some(r) => table.contains(r) && is_default(r) && has_key(table, r),
            None => forall|i: int| 0 <= i < table.len() ==> !is_default(#[trigger] table[i]),
        },
    decreases table.len(),
{
    if table.len() > 0 {
        if is_default(table[0]) {
            assert(table[0] == table[0]);
            assert(same_key(table[0], table[0]));
        } else {
            let rest = table.subrange(1, table.len() as int);
            lemma_first_default_in_table(rest);
            match first_default(rest) {
                Some(r) => {
                    let i = choose|i: int| 0 <= i < rest.len() && rest[i] == r;
                    assert(table[i + 1] == r);
                    assert(same_key(table[i + 1], r));
                },
                None => {
                    assert forall|i: int| 0 <= i < table.len() implies !is_default(
                        #[trigger] table[i],
                    ) by {
                        if i > 0 {
                            assert(rest[i - 1] == table[i]);
                        }
                    }
                },
            }
        }
    }
}

/// The first default route of the table, if it has one.
pub open spec fn first_default(table: Seq<Route>) -> Option<Route>
    decreases table.len(),
{
    if table.len() == 0 {
        None
    } else if is_default(table[0]) {
        Some(table[0])
    } else {
        first_default(table.subrange(1, table.len() as int))
    }
}

/// What an operation does to the entries of a table without duplicate keys:
/// an add brings in exactly the new route, and only where its key was absent;
/// a delete takes out exactly the entries with the route's key.
pub proof fn lemma_table_after(table: Seq<Route>, op: RouteOp)
    requires
        unique_keys(table),
    ensures
        unique_keys(table_after(table, op)),
        match op {
            RouteOp::Add(r) => forall|x: Route| #[trigger]
                table_after(table, op).contains(x) <==> table.contains(x) || (x == r && !has_key(
                    table,
                    r,
                )),
            RouteOp::Delete(r) => forall|x: Route| #[trigger]
                table_after(table, op).contains(x) <==> table.contains(x) && !same_key(x, r),
        },
        match op {
            RouteOp::Add(r) => has_key(table_after(table, op), r),
            RouteOp::Delete(r) => !has_key(table_after(table, op), r),
        },
{
    let after = table_after(table, op);
    match op {
        RouteOp::Add(r) => {
            if has_key(table, r) {
            } else {
                assert forall|x: Route| #[trigger]
                    after.contains(x) <==> table.contains(x) || x == r by {
                    if after.contains(x) {
                        let i = choose|i: int| 0 <= i < after.len() && after[i] == x;
                        if i < table.len() {
                            assert(table[i] == x);
                        }
                    }
                    if table.contains(x) {
                        let i = choose|i: int| 0 <= i < table.len() && table[i] == x;
                        assert(after[i] == x);
                    }
                    if x == r {
                        assert(after[table.len() as int] == x);
                    }
                }
                assert(same_key(after[table.len() as int], r));
            }
        },
        RouteOp::Delete(r) => {
            if has_key(table, r) {
                let k = key_index(table, r);
                assert forall|x: Route| #[trigger]
                    after.contains(x) <==> table.contains(x) && !same_key(x, r) by {
                    if after.contains(x) {
                        let i = choose|i: int| 0 <= i < after.len() && after[i] == x;
                        if i < k {
                            assert(table[i] == x);
                        } else {
                            assert(table[i + 1] == x);
                        }
                    }
                    if table.contains(x) && !same_key(x, r) {
                        let i = choose|i: int| 0 <= i < table.len() && table[i] == x;
                        if i < k {
                            assert(after[i] == x);
                        } else {
                            assert(after[i - 1] == x);
                        }
                    }
                }
                assert forall|i: int| 0 <= i < after.len() implies !same_key(
                    #[trigger] after[i],
                    r,
                ) by {
                    if i < k {
                        assert(after[i] == table[i]);
                    } else {
                        assert(after[i] == table[i + 1]);
                    }
                }
                assert forall|i: int, j: int| 0 <= i < j < after.len() implies !same_key(
                    #[trigger] after[i],
                    #[trigger] after[j],
                ) by {
                    let si = if i < k {
                        i
                    } else {
                        i + 1
                    };
                    let sj = if j < k {
                        j
                    } else {
                        j + 1
                    };
                    assert(after[i] == table[si] && after[j] == table[sj]);
                }
            } else {
                assert forall|x: Route| #[trigger]
                    after.contains(x) <==> table.contains(x) && !same_key(x, r) by {
                    if table.contains(x) {
                        let i = choose|i: int| 0 <= i < table.len() && table[i] == x;
                        assert(!same_key(table[i], r));
                    }
                }
            }
        },
    }
}

/// Whether two routes have the same destination prefix and interface.
pub fn routes_match(a: &Route, b: &Route) -> (r: bool)
    ensures
        r == same_key(*a, *b),
{
    a.destination.bits == b.destination.bits && a.prefix_len == b.prefix_len && a.ifindex
        == b.ifindex
}

/// An in-memory routing table that answers operations as an operating system
/// does: adding a route whose key is present reports `AlreadyExists`, deleting
/// an absent one reports `NotFound`, and neither changes the table.
pub struct RouteTable {
    routes: Vec<Route>,
}

impl View for RouteTable {
    type V = Seq<Route>;

    closed spec fn view(&self) -> Seq<Route> {
        self.routes@
    }
}

impl RouteTable {
    /// The table holds no two entries with the same key.
    pub open spec fn wf(&self) -> bool {
        unique_keys(self@)
    }

    /// The empty table.
    pub fn new() -> (r: RouteTable)
        ensures
            r@ == Seq::<Route>::empty(),
            r.wf(),
    {
        RouteTable { routes: Vec::new() }
    }

    /// The number of entries.
    pub fn len(&self) -> (r: usize)
        ensures
            r == self@.len(),
    {
        self.routes.len()
    }

    /// The entry at `index`, or `None` past the end.
    pub fn get(&self, index: usize) -> (r: Option<Route>)
        ensures
            index < self@.len() ==> r == Some(self@[index as int]),
            index >= self@.len() ==> r.is_none(),
    {
        if index < self.routes.len() {
            Some(self.routes[index])
        } else {
            None
        }
    }

    fn position(&self, route: &Route) -> (r: Option<usize>)
        requires
            self.wf(),
        ensures
            r.is_some() == has_key(self@, *route),
            r.is_some() ==> r.unwrap() as int == key_index(self@, *route),
    {
        let mut i: usize = 0;
        while i < self.routes.len()
            invariant
                i <= self.routes.len(),
                self.wf(),
                forall|j: int| 0 <= j < i ==> !same_key(#[trigger] self@[j], *route),
            decreases self.routes.len() - i,
        {
            if routes_match(&self.routes[i], route) {
                proof {
                    let k = key_index(self@, *route);
                    assert(same_key(self@[i as int], *route));
                    assert(same_key(self@[k], *route));
                    if k < i {
                        assert(!same_key(self@[k], self@[i as int]));
                    } else if i < k {
                        assert(!same_key(self@[i as int], self@[k]));
                    }
                }
                return Some(i);
            }
            i = i + 1;
        }
        None
    }

    /// Whether the table holds exactly this route, gateway and metric included.
    pub fn contains(&self, route: &Route) -> (r: bool)
        ensures
            r == self@.contains(*route),
    {
        let mut i: usize = 0;
        while i < self.routes.len()
            invariant
                i <= self.routes.len(),
                forall|j: int| 0 <= j < i ==> self@[j] != *route,
            decreases self.routes.len() - i,
        {
            let here = self.routes[i];
            if routes_match(&here, route) && same_option(here.gateway, route.gateway)
                && same_metric(here.metric, route.metric) {
                assert(self@[i as int] == *route);
                return true;
            }
            i = i + 1;
        }
        false
    }

    /// The default route a query would report: the first entry that matches
    /// every destination, if there is one. The table is not changed.
    pub fn default_route(&self) -> (r: Option<Route>)
        ensures
            r == first_default(self@),
    {
        let mut i: usize = 0;
        assert(self@.subrange(0, self@.len() as int) =~= self@);
        while i < self.routes.len()
            invariant
                i <= self.routes.len(),
                first_default(self@) == first_default(self@.subrange(i as int, self@.len() as int)),
            decreases self.routes.len() - i,
        {
            let ghost rest = self@.subrange(i as int, self@.len() as int);
            assert(rest[0] == self@[i as int]);
            assert(rest.subrange(1, rest.len() as int) =~= self@.subrange(
                i + 1,
                self@.len() as int,
            ));
            if self.routes[i].prefix_len == 0 {
                return Some(self.routes[i]);
            }
            i = i + 1;
        }
        None
    }

    /// Adds a route. Where an entry with its key is present the table stays as
    /// it is and the answer is `AlreadyExists`.
    pub fn add(&mut self, route: Route) -> (r: OpOutcome)
        requires
            old(self).wf(),
        ensures
            final(self).wf(),
            final(self)@ == table_after(old(self)@, RouteOp::Add(route)),
            r == outcome_of(old(self)@, RouteOp::Add(route)),
    {
        proof {
            lemma_table_after(self@, RouteOp::Add(route));
        }
        match self.position(&route) {
            Some(_) => OpOutcome::AlreadyExists,
            None => {
                self.routes.push(route);
                OpOutcome::Done
            },
        }
    }

    /// Deletes the entry with the key of `route`. Where there is none the table
    /// stays as it is and the answer is `NotFound`.
    pub fn delete(&mut self, route: &Route) -> (r: OpOutcome)
        requires
            old(self).wf(),
        ensures
            final(self).wf(),
            final(self)@ == table_after(old(self)@, RouteOp::Delete(*route)),
            r == outcome_of(old(self)@, RouteOp::Delete(*route)),
    {
        proof {
            lemma_table_after(self@, RouteOp::Delete(*route));
        }
        match self.position(route) {
            Some(i) => {
                self.routes.remove(i);
                OpOutcome::Done
            },
            None => OpOutcome::NotFound,
        }
    }

    /// Carries out one operation and reports how it went.
    pub fn apply(&mut self, op: &RouteOp) -> (r: OpOutcome)
        requires
            old(self).wf(),
        ensures
            final(self).wf(),
            final(self)@ == table_after(old(self)@, *op),
            r == outcome_of(old(self)@, *op),
    {
        match op {
            RouteOp::Add(route) => self.add(*route),
            RouteOp::Delete(route) => self.delete(route),
        }
    }
}

fn same_option(a: Option<Ipv4Address>, b: Option<Ipv4Address>) -> (r: bool)
    ensures
        r == (a == b),
{
    match (a, b) {
        (Some(x), Some(y)) => x.bits == y.bits,
        (None, None) => true,
        _ => false,
    }
}

fn same_metric(a: Option<u32>, b: Option<u32>) -> (r: bool)
    ensures
        r == (a == b),
{
    match (a, b) {
        (Some(x), Some(y)) => x == y,
        (None, None) => true,
        _ => false,
    }
}

} // verus!
