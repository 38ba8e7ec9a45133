//! What holds of every session, stated over the routing-table model, the
//! controller's plans and the server's steps, and proved.

use vstd::prelude::*;
use crate::addr::MacAddress;
use crate::controller::{
    confirmed, install_accepted, installed_after, removals, restore_plan, takeover_plan,
};
use crate::frame::{frame_of, frameable};
use crate::utils::{candidate, is_first_free, lemma_some_candidate_free, name_taken};
use crate::packet::{destination_of, Link, PacketError, MIN_HEADER_LEN};
use crate::route::{
    first_default, has_key, lemma_first_default_in_table, lemma_table_after,
    lemma_table_after_push, outcome_of, same_key, table_after, table_after_all, unique_keys,
    Route, RouteOp,
};
use crate::reroute_server::{step, ActionView, Event, Phase, ServerView};

verus! {

proof fn lemma_least_free(names: Seq<String>, base: Seq<char>, bound: nat)
    requires
        !name_taken(names, candidate(base, bound)),
    ensures
        exists|k: nat| k <= bound && is_first_free(names, base, k),
    decreases bound,
{
    if forall|j: nat| j < bound ==> name_taken(names, #[trigger] candidate(base, j)) {
        assert(is_first_free(names, base, bound));
    } else {
        let j = choose|j: nat| j < bound && !name_taken(names, #[trigger] candidate(base, j));
        lemma_least_free(names, base, j);
        let k = choose|k: nat| k <= j && is_first_free(names, base, k);
        assert(k <= bound && is_first_free(names, base, k));
    }
}

/// A snapshot determines the free name.
///
/// Whatever the interfaces, exactly one suffix is the first free one, and it
/// is at most the number of interfaces. Where no interface carries `base0`,
/// it is 0; where one carries `base0` and none carries `base1`, it is 1.
pub proof fn lemma_free_name_is_determined(names: Seq<String>, base: Seq<char>)
    ensures
        exists|k: nat| k <= names.len() && is_first_free(names, base, k),
        forall|a: nat, b: nat|
            is_first_free(names, base, a) && is_first_free(names, base, b) ==> a == b,
        !name_taken(names, candidate(base, 0)) ==> is_first_free(names, base, 0),
        name_taken(names, candidate(base, 0)) && !name_taken(names, candidate(base, 1))
            ==> is_first_free(names, base, 1),
{
    lemma_some_candidate_free(names, base);
    let free = choose|k: nat|
        k <= names.len() && !name_taken(names, #[trigger] candidate(base, k));
    lemma_least_free(names, base, free);
    let least = choose|k: nat| k <= free && is_first_free(names, base, k);
    assert(least <= names.len() && is_first_free(names, base, least));
    assert forall|a: nat, b: nat|
        is_first_free(names, base, a) && is_first_free(names, base, b) implies a == b by {
        if a < b {
            assert(name_taken(names, candidate(base, a)));
        } else if b < a {
            assert(name_taken(names, candidate(base, b)));
        }
    }
    if name_taken(names, candidate(base, 0)) && !name_taken(names, candidate(base, 1)) {
        assert forall|j: nat| j < 1 implies name_taken(names, #[trigger] candidate(base, j)) by {
            assert(j == 0);
        }
    }
}

/// The installed routes after a list of operations was performed on `table`
/// and every answer was taken note of, starting from `installed`.
pub open spec fn installed_after_all(table: Seq<Route>, installed: Seq<Route>, ops: Seq<RouteOp>) -> Seq<
    Route,
>
    decreases ops.len(),
{
    if ops.len() == 0 {
        installed
    } else {
        let before = table_after_all(table, ops.drop_last());
        installed_after(
            installed_after_all(table, installed, ops.drop_last()),
            ops.last(),
            outcome_of(before, ops.last()),
        )
    }
}

/// Whether every operation of the list, performed in order on `table`, got an
/// answer that lets startup go on.
pub open spec fn all_confirmed(table: Seq<Route>, ops: Seq<RouteOp>) -> bool
    decreases ops.len(),
{
    if ops.len() == 0 {
        true
    } else {
        &&& all_confirmed(table, ops.drop_last())
        &&& confirmed(ops.last(), outcome_of(table_after_all(table, ops.drop_last()), ops.last()))
    }
}

/// Installing a route a second time succeeds and changes nothing: the table
/// stays as the first install left it, and the answer is one that records no
/// further route.
pub proof fn lemma_install_idempotent(table: Seq<Route>, installed: Seq<Route>, route: Route)
    requires
        unique_keys(table),
    ensures
        ({
            let op = RouteOp::Add(route);
            let once = table_after(table, op);
            let recorded = installed_after(installed, op, outcome_of(table, op));
            &&& install_accepted(outcome_of(table, op))
            &&& install_accepted(outcome_of(once, op))
            &&& table_after(once, op) == once
            &&& installed_after(recorded, op, outcome_of(once, op)) == recorded
        }),
{
    lemma_table_after(table, RouteOp::Add(route));
}

proof fn lemma_installed_push(
    table: Seq<Route>,
    installed: Seq<Route>,
    ops: Seq<RouteOp>,
    op: RouteOp,
)
    ensures
        installed_after_all(table, installed, ops.push(op)) == installed_after(
            installed_after_all(table, installed, ops),
            op,
            outcome_of(table_after_all(table, ops), op),
        ),
        all_confirmed(table, ops.push(op)) == (all_confirmed(table, ops) && confirmed(
            op,
            outcome_of(table_after_all(table, ops), op),
        )),
{
    assert(ops.push(op).drop_last() =~= ops);
}

proof fn lemma_removals_push(installed: Seq<Route>, route: Route)
    ensures
        removals(installed.push(route)) == seq![RouteOp::Delete(route)] + removals(installed),
{
    assert(removals(installed.push(route)) =~= seq![RouteOp::Delete(route)] + removals(
        installed,
    ));
}

proof fn lemma_table_after_concat(table: Seq<Route>, first: Seq<RouteOp>, second: Seq<RouteOp>)
    ensures
        table_after_all(table, first + second) == table_after_all(
            table_after_all(table, first),
            second,
        ),
    decreases second.len(),
{
    if second.len() == 0 {
        assert(first + second =~= first);
    } else {
        lemma_table_after_concat(table, first, second.drop_last());
        assert((first + second).drop_last() =~= first + second.drop_last());
        assert((first + second).last() == second.last());
    }
}

proof fn lemma_table_after_one(table: Seq<Route>, op: RouteOp)
    ensures
        table_after_all(table, seq![op]) == table_after(table, op),
{
    assert(seq![op].drop_last() =~= Seq::<RouteOp>::empty());
    assert(table_after_all(table, Seq::<RouteOp>::empty()) == table);
}

/// A full cycle leaves the routing table as it found it.
///
/// Take any table without duplicate keys. Perform the takeover for the
/// default route it reports, taking note of every answer; then perform the
/// restoration. Every step of the takeover is accepted, and afterwards the
/// table holds exactly the routes it held before: none leaked, and the
/// original default route is back if there was one and absent if there was
/// none.
pub proof fn lemma_cycle_restores_table(table: Seq<Route>, capture: Route, split: Route)
    requires
        unique_keys(table),
    ensures
        ({
            let original = first_default(table);
            let plan = takeover_plan(original, capture, split);
            let taken = table_after_all(table, plan);
            let installed = installed_after_all(table, Seq::<Route>::empty(), plan);
            let restored = table_after_all(taken, restore_plan(installed, original));
            &&& all_confirmed(table, plan)
            &&& unique_keys(restored)
            &&& restored.to_set() == table.to_set()
        }),
{
    let original = first_default(table);
    let plan = takeover_plan(original, capture, split);
    let none = Seq::<Route>::empty();
    let no_ops = Seq::<RouteOp>::empty();
    lemma_first_default_in_table(table);

    // The takeover, step by step.
    let first = match original {
        Some(r) => seq![RouteOp::Delete(r)],
        None => no_ops,
    };
    let t1 = table_after_all(table, first);
    let i1 = installed_after_all(table, none, first);
    match original {
        Some(r) => {
            lemma_table_after_one(table, RouteOp::Delete(r));
            assert(first =~= no_ops.push(RouteOp::Delete(r)));
            lemma_installed_push(table, none, no_ops, RouteOp::Delete(r));
            lemma_table_after(table, RouteOp::Delete(r));
            assert(t1 == table_after(table, RouteOp::Delete(r)));
        },
        None => {},
    }
    assert(i1 == none);
    assert(all_confirmed(table, first));
    assert(unique_keys(t1));

    let add_capture = RouteOp::Add(capture);
    let second = first.push(add_capture);
    lemma_table_after_push(table, first, add_capture);
    lemma_installed_push(table, none, first, add_capture);
    lemma_table_after(t1, add_capture);
    let t2 = table_after(t1, add_capture);
    let i2 = installed_after(i1, add_capture, outcome_of(t1, add_capture));

    let add_split = RouteOp::Add(split);
    lemma_table_after_push(table, second, add_split);
    lemma_installed_push(table, none, second, add_split);
    lemma_table_after(t2, add_split);
    let t3 = table_after(t2, add_split);
    let i3 = installed_after(i2, add_split, outcome_of(t2, add_split));
    assert(plan == second.push(add_split));
    assert(table_after_all(table, plan) == t3);
    assert(installed_after_all(table, none, plan) == i3);
    assert(all_confirmed(table, plan));

    // The restoration: deletions first, newest route first.
    let undo = removals(i3);
    let t4 = table_after_all(t3, undo);
    assert(unique_keys(t4) && forall|x: Route| #[trigger]
        t4.contains(x) <==> t1.contains(x)) by {
        let took_capture = !has_key(t1, capture);
        let took_split = !has_key(t2, split);
        if took_capture && took_split {
            assert(i3 == none.push(capture).push(split));
            lemma_removals_push(none.push(capture), split);
            lemma_removals_push(none, capture);
            assert(removals(none) =~= no_ops);
            assert(undo =~= seq![RouteOp::Delete(split)] + seq![RouteOp::Delete(capture)]);
            lemma_table_after_concat(
                t3,
                seq![RouteOp::Delete(split)],
                seq![RouteOp::Delete(capture)],
            );
            lemma_table_after_one(t3, RouteOp::Delete(split));
            let mid = table_after(t3, RouteOp::Delete(split));
            lemma_table_after(t3, RouteOp::Delete(split));
            lemma_table_after_one(mid, RouteOp::Delete(capture));
            lemma_table_after(mid, RouteOp::Delete(capture));
            lemma_absent_key(t1, capture);
            lemma_absent_key(t2, split);
            assert(!same_key(capture, split)) by {
                assert(has_key(t2, capture));
                if same_key(capture, split) {
                    let i = choose|i: int| 0 <= i < t2.len() && same_key(#[trigger] t2[i], capture);
                    assert(same_key(t2[i], split));
                }
            }
        } else if took_capture {
            assert(i3 == none.push(capture));
            lemma_removals_push(none, capture);
            assert(removals(none) =~= no_ops);
            assert(undo =~= seq![RouteOp::Delete(capture)]);
            lemma_table_after_one(t3, RouteOp::Delete(capture));
            lemma_table_after(t3, RouteOp::Delete(capture));
            lemma_absent_key(t1, capture);
        } else if took_split {
            assert(i3 == none.push(split));
            lemma_removals_push(none, split);
            assert(removals(none) =~= no_ops);
            assert(undo =~= seq![RouteOp::Delete(split)]);
            lemma_table_after_one(t3, RouteOp::Delete(split));
            lemma_table_after(t3, RouteOp::Delete(split));
            lemma_absent_key(t2, split);
        } else {
            assert(i3 == none);
            assert(undo =~= no_ops);
        }
    }

    // Then the original default route comes back.
    let restored = table_after_all(t3, restore_plan(i3, original));
    match original {
        Some(r) => {
            lemma_table_after_push(t3, undo, RouteOp::Add(r));
            lemma_table_after(t4, RouteOp::Add(r));
            assert(!has_key(t4, r)) by {
                if has_key(t4, r) {
                    let i = choose|i: int| 0 <= i < t4.len() && same_key(#[trigger] t4[i], r);
                    assert(t4.contains(t4[i]));
                    assert(t1.contains(t4[i]));
                }
            }
            assert(restored == table_after(t4, RouteOp::Add(r)));
            assert forall|x: Route| #[trigger] restored.contains(x) <==> table.contains(x) by {
                if table.contains(x) && same_key(r, x) {
                    lemma_unique_entry(table, r, x);
                }
            }
        },
        None => {
            assert(restored == t4);
        },
    }
    assert(restored.to_set() =~= table.to_set());
}

proof fn lemma_absent_key(table: Seq<Route>, route: Route)
    requires
        !has_key(table, route),
    ensures
        forall|x: Route| table.contains(x) ==> !same_key(x, route),
{
    assert forall|x: Route| table.contains(x) implies !same_key(x, route) by {
        let i = choose|i: int| 0 <= i < table.len() && table[i] == x;
        assert(!same_key(table[i], route));
    }
}

proof fn lemma_unique_entry(table: Seq<Route>, a: Route, b: Route)
    requires
        unique_keys(table),
        table.contains(a),
        table.contains(b),
        same_key(a, b),
    ensures
        a == b,
{
    let i = choose|i: int| 0 <= i < table.len() && table[i] == a;
    let j = choose|j: int| 0 <= j < table.len() && table[j] == b;
    if i < j {
        assert(!same_key(table[i], table[j]));
    } else if j < i {
        assert(!same_key(table[j], table[i]));
    }
}

/// A starting server driven against a routing table: for at most `steps`
/// operations, the operation in hand is performed on the table and its answer
/// is given to the server.
pub open spec fn run_startup(s: ServerView, table: Seq<Route>, steps: nat) -> (
    ServerView,
    Seq<Route>,
)
    decreases steps,
{
    if steps == 0 || s.phase != Phase::Starting {
        (s, table)
    } else {
        let op = s.plan[s.cursor as int];
        run_startup(
            step(s, Event::RouteAnswer(outcome_of(table, op))).0,
            table_after(table, op),
            (steps - 1) as nat,
        )
    }
}

/// A server that starts and stops leaves the routing table as it found it.
///
/// Take any table without duplicate keys and a server that is about to take
/// over the default route which that table reports. Driven against the
/// table, the server reaches the running phase. When it is then asked to
/// stop, the teardown it hands out brings the table back to exactly the
/// routes it held before the start.
pub proof fn lemma_start_stop_restores_table(
    s: ServerView,
    table: Seq<Route>,
    capture: Route,
    split: Route,
)
    requires
        unique_keys(table),
        s.phase == Phase::Starting,
        s.cursor == 0,
        s.installed == Seq::<Route>::empty(),
        s.original == first_default(table),
        s.plan == takeover_plan(first_default(table), capture, split),
    ensures
        ({
            let started = run_startup(s, table, s.plan.len());
            let stopped = step(started.0, Event::StopRequested);
            let teardown = restore_plan(started.0.installed, started.0.original);
            &&& started.0.phase == Phase::Running
            &&& stopped.0.phase == Phase::Stopping
            &&& stopped.1 == ActionView::Teardown { ops: teardown, error: None }
            &&& table_after_all(started.1, teardown).to_set() == table.to_set()
        }),
{
    let original = first_default(table);
    let none = Seq::<Route>::empty();
    let no_ops = Seq::<RouteOp>::empty();
    let add_capture = RouteOp::Add(capture);
    let add_split = RouteOp::Add(split);
    lemma_cycle_restores_table(table, capture, split);
    lemma_first_default_in_table(table);
    reveal_with_fuel(run_startup, 4);

    let first = match original {
        Some(r) => seq![RouteOp::Delete(r)],
        None => no_ops,
    };
    let t1 = table_after_all(table, first);
    match original {
        Some(r) => {
            assert(first =~= no_ops.push(RouteOp::Delete(r)));
            lemma_table_after_one(table, RouteOp::Delete(r));
            lemma_installed_push(table, none, no_ops, RouteOp::Delete(r));
            assert(s.plan[0] == RouteOp::Delete(r));
            assert(s.plan[1] == add_capture);
            assert(s.plan[2] == add_split);
            assert(s.plan.len() == 3);
        },
        None => {
            assert(s.plan[0] == add_capture);
            assert(s.plan[1] == add_split);
            assert(s.plan.len() == 2);
        },
    }
    let second = first.push(add_capture);
    lemma_table_after_push(table, first, add_capture);
    lemma_installed_push(table, none, first, add_capture);
    let t2 = table_after(t1, add_capture);
    lemma_table_after_push(table, second, add_split);
    lemma_installed_push(table, none, second, add_split);
    assert(s.plan == second.push(add_split));

    let started = run_startup(s, table, s.plan.len());
    assert(started.1 == table_after(t2, add_split));
    assert(started.0.installed == installed_after_all(table, none, s.plan));
    assert(started.0.original == original);
}

/// Restoring twice is restoring once. The first restoration leaves nothing
/// recorded, so the second one hands out no operation and the table stays as
/// the first one left it.
pub proof fn lemma_restore_twice(table: Seq<Route>, installed: Seq<Route>, original: Option<Route>)
    ensures
        ({
            let once = table_after_all(table, restore_plan(installed, original));
            let again = restore_plan(Seq::<Route>::empty(), None);
            &&& again == Seq::<RouteOp>::empty()
            &&& table_after_all(once, again) == once
        }),
{
    assert(removals(Seq::<Route>::empty()) =~= Seq::<RouteOp>::empty());
}

/// Classification decides the link, and nothing else does.
///
/// A running server with no packet in hand is given a packet that can be
/// framed. Where the destination, masked with the VPN mask, equals the VPN
/// network, the server asks for resolution on the tunnel link and then sends
/// the frame there; for every other destination it does both on the physical
/// link. The frame is the packet itself behind the resolved address, the
/// link's own address and the IPv4 ethertype.
pub proof fn lemma_packet_follows_its_prefix(s: ServerView, bytes: Vec<u8>, mac: MacAddress)
    requires
        s.phase == Phase::Running,
        s.turn is Idle,
        frameable(bytes@.len()),
    ensures
        ({
            let destination = destination_of(bytes@);
            let inside = (destination.bits & s.vpn_prefix.mask.bits) == s.vpn_prefix.network.bits;
            let link = if inside {
                Link::Tunnel
            } else {
                Link::Physical
            };
            let asked = step(s, Event::Packet(bytes));
            let sent = step(asked.0, Event::Resolved(Some(mac)));
            &&& asked.1 == ActionView::Resolve { link, destination }
            &&& sent.1 == ActionView::Transmit {
                link,
                frame: frame_of(mac, s.source_mac(link), bytes@),
            }
            &&& sent.0.phase == Phase::Running
        }),
{
}

/// A packet shorter than an IPv4 header is never forwarded and raises no
/// error: whatever state the server is in, the packet leaves that state as it
/// was, and the answer is neither a resolution nor a transmission nor a
/// report of a dropped packet.
pub proof fn lemma_short_packet_is_ignored(s: ServerView, bytes: Vec<u8>)
    requires
        bytes@.len() < MIN_HEADER_LEN,
    ensures
        ({
            let after = step(s, Event::Packet(bytes));
            &&& after.0 == s
            &&& after.1 == ActionView::Receive { dropped: None } || after.1 == ActionView::Nothing
            &&& s.phase == Phase::Running && s.turn is Idle ==> after.1 == ActionView::Receive {
                dropped: None,
            }
        }),
{
}

/// A packet that fails costs only itself.
///
/// When the resolver gives up on the packet in hand, or the channel refuses
/// its frame, the server reports the drop and is running with no packet in
/// hand. The next packet is then handled exactly as if the failed one had
/// never arrived.
pub proof fn lemma_failure_does_not_stall(s: ServerView, sent: bool, next: Vec<u8>)
    requires
        s.phase == Phase::Running,
    ensures
        s.turn is Resolving ==> ({
            let after = step(s, Event::Resolved(None));
            &&& after.0 == s.idle()
            &&& after.1 == ActionView::Receive { dropped: Some(PacketError::ResolutionTimeout) }
            &&& step(after.0, Event::Packet(next)) == step(s.idle(), Event::Packet(next))
        }),
        s.turn is Transmitting ==> ({
            let after = step(s, Event::Transmitted(sent));
            &&& after.0 == s.idle()
            &&& !sent ==> after.1 == ActionView::Receive {
                dropped: Some(PacketError::TransmitFailed),
            }
            &&& step(after.0, Event::Packet(next)) == step(s.idle(), Event::Packet(next))
        }),
        frameable(next@.len()) ==> step(s.idle(), Event::Packet(next)).1 is Resolve,
{
}

/// A request to stop is heard once. The teardown it hands out unwinds what
/// the session recorded; while the teardown runs and after it has ended, a
/// further request changes nothing and hands out nothing.
pub proof fn lemma_stop_is_heard_once(s: ServerView)
    requires
        s.phase == Phase::Starting || s.phase == Phase::Running,
    ensures
        ({
            let first = step(s, Event::StopRequested);
            let second = step(first.0, Event::StopRequested);
            let done = step(first.0, Event::TeardownDone);
            let third = step(done.0, Event::StopRequested);
            &&& first.1 == s.teardown(None)
            &&& first.0.phase == Phase::Stopping
            &&& second == (first.0, ActionView::Nothing)
            &&& done.0.phase == Phase::Stopped
            &&& done.1 == ActionView::Halt
            &&& third == (done.0, ActionView::Nothing)
        }),
{
}

} // verus!
