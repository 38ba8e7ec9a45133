//! The route table controller: the only component that decides which routes a
//! session adds and removes, and the record from which they are unwound.
//!
//! The controller never touches a routing table itself. It hands out the
//! operations to perform, in order, and is told how each one went.

use vstd::prelude::*;
use crate::addr::{mask_bits, Ipv4Address, Ipv4Prefix};
use crate::route::{OpOutcome, Route, RouteOp};

verus! {

/// Why startup was abandoned. Each of these is fatal: whatever was installed
/// is unwound and the error is surfaced.
#[derive(Clone, Copy, Debug, PartialEq, Eq, Structural)]
pub enum StartupError {
    InterfaceNotFound,
    DeviceOpenFailed,
    RouteInstallFailed,
    TunnelEstablishFailed,
    TunnelTimedOut,
}

/// A route change that failed while unwinding. It is reported and never stops
/// the remaining steps.
#[derive(Clone, Copy, Debug, PartialEq, Eq)]
pub struct RouteMutationError {
    pub route: Route,
    pub outcome: OpOutcome,
}

/// The default route that sends all traffic to the interface `ifindex`.
pub open spec fn capture_route(ifindex: u32) -> Route {
    Route {
        destination: Ipv4Address { bits: 0 },
        prefix_len: 0,
        gateway: None,
        ifindex: ifindex,
        metric: None,
    }
}

/// The route that keeps a kernel path for the VPN network on the interface
/// `ifindex`.
pub open spec fn split_route(network: Ipv4Address, prefix_len: u8, ifindex: u32) -> Route {
    Route {
        destination: network,
        prefix_len: prefix_len,
        gateway: None,
        ifindex: ifindex,
        metric: None,
    }
}

/// The operations of a takeover, in the order they must be performed: delete
/// the original default route if there was one, then install the capture
/// route, then the split route. A failure between two steps can leave the
/// table without a default route, never with two rival ones.
pub open spec fn takeover_plan(original: Option<Route>, capture: Route, split: Route) -> Seq<
    RouteOp,
> {
    let first = match original {
        Some(r) => seq![RouteOp::Delete(r)],
        None => Seq::<RouteOp>::empty(),
    };
    first.push(RouteOp::Add(capture)).push(RouteOp::Add(split))
}

/// The deletions that unwind a list of installed routes: the route installed
/// last is deleted first.
pub open spec fn removals(installed: Seq<Route>) -> Seq<RouteOp> {
    Seq::new(installed.len(), |i: int| RouteOp::Delete(installed[installed.len() - 1 - i]))
}

/// The operations of a restoration: every installed route is deleted, last
/// installed first, and then the original default route is added back if one
/// was captured.
pub open spec fn restore_plan(installed: Seq<Route>, original: Option<Route>) -> Seq<RouteOp> {
    match original {
        Some(r) => removals(installed).push(RouteOp::Add(r)),
        None => removals(installed),
    }
}

/// Whether the answer to an add lets startup go on: the route was added, or
/// the very route was there already.
pub open spec fn install_accepted(outcome: OpOutcome) -> bool {
    outcome == OpOutcome::Done || outcome == OpOutcome::AlreadyExists
}

/// Whether the answer to a delete counts as success while unwinding: the route
/// was deleted, or it was gone already.
pub open spec fn removal_accepted(outcome: OpOutcome) -> bool {
    outcome == OpOutcome::Done || outcome == OpOutcome::NotFound
}

/// Whether the answer to an operation of a takeover lets startup go on. An add
/// may find its route present; a delete must have been carried out.
pub open spec fn confirmed(op: RouteOp, outcome: OpOutcome) -> bool {
    match op {
        RouteOp::Add(_) => install_accepted(outcome),
        RouteOp::Delete(_) => outcome == OpOutcome::Done,
    }
}

/// The installed routes after the answer to one operation: only an add that
/// was carried out brings a route in.
pub open spec fn installed_after(installed: Seq<Route>, op: RouteOp, outcome: OpOutcome) -> Seq<
    Route,
> {
    match op {
        RouteOp::Add(r) => if outcome == OpOutcome::Done {
            installed.push(r)
        } else {
            installed
        },
        RouteOp::Delete(_) => installed,
    }
}

/// Whether the answer to an operation of a restoration counts as success: a
/// route to delete may be gone already, a route to add back may be there
/// already.
pub open spec fn unwound(op: RouteOp, outcome: OpOutcome) -> bool {
    match op {
        RouteOp::Add(_) => install_accepted(outcome),
        RouteOp::Delete(_) => removal_accepted(outcome),
    }
}

/// Judges the answer to one operation of a restoration. A failure is handed
/// back to be reported; it is no reason to leave out the operations that
/// follow.
pub fn judge_restore(op: &RouteOp, outcome: OpOutcome) -> (r: Result<(), RouteMutationError>)
    ensures
        r is Ok <==> unwound(*op, outcome),
        r is Err ==> r == Err::<(), RouteMutationError>(
            RouteMutationError {
                route: match *op {
                    RouteOp::Add(route) => route,
                    RouteOp::Delete(route) => route,
                },
                outcome: outcome,
            },
        ),
{
    match op {
        RouteOp::Add(route) => match outcome {
            OpOutcome::Done => Ok(()),
            OpOutcome::AlreadyExists => Ok(()),
            _ => Err(RouteMutationError { route: *route, outcome: outcome }),
        },
        RouteOp::Delete(route) => match outcome {
            OpOutcome::Done => Ok(()),
            OpOutcome::NotFound => Ok(()),
            _ => Err(RouteMutationError { route: *route, outcome: outcome }),
        },
    }
}

/// The record of one session's route changes.
pub struct RouteController {
    original_default: Option<Route>,
    captured: bool,
    installed: Vec<Route>,
}

impl RouteController {
    /// The default route observed before the takeover, once captured and
    /// until it has been restored.
    pub closed spec fn original(&self) -> Option<Route> {
        self.original_default
    }

    /// Whether the snapshot of the default route has been taken.
    pub closed spec fn captured(&self) -> bool {
        self.captured
    }

    /// The routes this session added, in the order it added them.
    pub closed spec fn installed(&self) -> Seq<Route> {
        self.installed@
    }

    /// Nothing is recorded without a snapshot having been taken first.
    pub open spec fn wf(&self) -> bool {
        !self.captured() ==> self.original().is_none() && self.installed().len() == 0
    }

    /// A controller that has captured and installed nothing.
    pub fn new() -> (r: RouteController)
        ensures
            r.wf(),
            !r.captured(),
            r.original().is_none(),
            r.installed() == Seq::<Route>::empty(),
    {
        RouteController { original_default: None, captured: false, installed: Vec::new() }
    }

    /// The captured default route, if any.
    pub fn original_default_route(&self) -> (r: Option<Route>)
        ensures
            r == self.original(),
    {
        self.original_default
    }

    /// The routes this session added, in the order it added them.
    pub fn installed_routes(&self) -> (r: Vec<Route>)
        ensures
            r@ == self.installed(),
    {
        let mut out: Vec<Route> = Vec::new();
        let mut i: usize = 0;
        while i < self.installed.len()
            invariant
                i <= self.installed.len(),
                out@ == self.installed@.subrange(0, i as int),
            decreases self.installed.len() - i,
        {
            out.push(self.installed[i]);
            assert(out@ =~= self.installed@.subrange(0, i + 1));
            i = i + 1;
        }
        assert(out@ =~= self.installed@);
        out
    }

    /// Records the default route observed before the takeover and returns the
    /// recorded one. Only the first call records: afterwards the snapshot is
    /// never changed, whatever is observed. No route is touched.
    pub fn snapshot_default(&mut self, observed: Option<Route>) -> (r: Option<Route>)
        requires
            old(self).wf(),
        ensures
            final(self).wf(),
            final(self).captured(),
            final(self).installed() == old(self).installed(),
            old(self).captured() ==> final(self).original() == old(self).original(),
            !old(self).captured() ==> final(self).original() == observed,
            r == final(self).original(),
    {
        if !self.captured {
            self.original_default = observed;
            self.captured = true;
        }
        self.original_default
    }

    /// Takes note of the answer to adding `route`. An added route joins the
    /// installed routes. A route that was there already counts as success and
    /// is not recorded, since this session did not add it. Every other answer
    /// is fatal to startup and records nothing. A controller that has taken no
    /// snapshot yet seals it as "no default route" first.
    pub fn install(&mut self, route: Route, outcome: OpOutcome) -> (r: Result<(), StartupError>)
        requires
            old(self).wf(),
        ensures
            final(self).wf(),
            final(self).captured(),
            final(self).original() == old(self).original(),
            r is Ok <==> install_accepted(outcome),
            r is Err ==> r == Err::<(), StartupError>(StartupError::RouteInstallFailed),
            outcome == OpOutcome::Done ==> final(self).installed() == old(self).installed().push(
                route,
            ),
            outcome != OpOutcome::Done ==> final(self).installed() == old(self).installed(),
    {
        self.captured = true;
        match outcome {
            OpOutcome::Done => {
                self.installed.push(route);
                Ok(())
            },
            OpOutcome::AlreadyExists => Ok(()),
            _ => Err(StartupError::RouteInstallFailed),
        }
    }

    /// Judges the answer to deleting `route` while unwinding. A route that was
    /// gone already counts as success; any other failure is handed back to be
    /// reported. The record is not changed.
    pub fn remove(&self, route: &Route, outcome: OpOutcome) -> (r: Result<
        (),
        RouteMutationError,
    >)
        ensures
            r is Ok <==> removal_accepted(outcome),
            r is Err ==> r == Err::<(), RouteMutationError>(
                RouteMutationError { route: *route, outcome: outcome },
            ),
    {
        match outcome {
            OpOutcome::Done => Ok(()),
            OpOutcome::NotFound => Ok(()),
            _ => Err(RouteMutationError { route: *route, outcome: outcome }),
        }
    }

    /// Begins a takeover. The observed default route is captured (unless a
    /// snapshot was taken before), and the operations to perform are handed
    /// out in order: delete the captured default route, install the default
    /// route to the capture device, install the route for the VPN prefix on
    /// the tunnel link. Each answer goes to `confirm`.
    ///
    /// A prefix whose mask is not a run of ones followed by zeros has no route;
    /// it is refused with `RouteInstallFailed` before anything is recorded.
    pub fn takeover(
        &mut self,
        observed_default: Option<Route>,
        virtual_if_index: u32,
        vpn_prefix_if_index: u32,
        vpn_prefix: &Ipv4Prefix,
    ) -> (r: Result<Vec<RouteOp>, StartupError>)
        requires
            old(self).wf(),
        ensures
            final(self).wf(),
            final(self).installed() == old(self).installed(),
            match r {
                Ok(plan) => exists|n: u8|
                    {
                        &&& n <= 32
                        &&& vpn_prefix.mask.bits as int == mask_bits(n as nat)
                        &&& plan@ == takeover_plan(
                            final(self).original(),
                            capture_route(virtual_if_index),
                            split_route(vpn_prefix.network, n, vpn_prefix_if_index),
                        )
                        &&& final(self).captured()
                        &&& old(self).captured() ==> final(self).original() == old(
                            self,
                        ).original()
                        &&& !old(self).captured() ==> final(self).original() == observed_default
                    },
                Err(e) => {
                    &&& e == StartupError::RouteInstallFailed
                    &&& forall|n: nat| n <= 32 ==> vpn_prefix.mask.bits as int != #[trigger] mask_bits(n)
                    &&& final(self).captured() == old(self).captured()
                    &&& final(self).original() == old(self).original()
                },
            },
    {
        let n = match vpn_prefix.prefix_len() {
            Some(n) => n,
            None => {
                return Err(StartupError::RouteInstallFailed);
            },
        };
        let original = self.snapshot_default(observed_default);
        let capture = Route {
            destination: Ipv4Address { bits: 0 },
            prefix_len: 0,
            gateway: None,
            ifindex: virtual_if_index,
            metric: None,
        };
        let split = Route {
            destination: vpn_prefix.network,
            prefix_len: n,
            gateway: None,
            ifindex: vpn_prefix_if_index,
            metric: None,
        };
        let mut plan: Vec<RouteOp> = Vec::new();
        match original {
            Some(route) => {
                plan.push(RouteOp::Delete(route));
                assert(plan@ =~= seq![RouteOp::Delete(route)]);
            },
            None => {
                assert(plan@ =~= Seq::<RouteOp>::empty());
            },
        }
        plan.push(RouteOp::Add(capture));
        plan.push(RouteOp::Add(split));
        Ok(plan)
    }

    /// Takes note of the answer to one operation of a takeover. An add is
    /// judged as `install` judges it. A delete must have been carried out:
    /// during startup a delete that failed, or found nothing, is fatal.
    pub fn confirm(&mut self, op: &RouteOp, outcome: OpOutcome) -> (r: Result<(), StartupError>)
        requires
            old(self).wf(),
        ensures
            final(self).wf(),
            final(self).original() == old(self).original(),
            old(self).captured() ==> final(self).captured(),
            r is Ok <==> confirmed(*op, outcome),
            r is Err ==> r == Err::<(), StartupError>(StartupError::RouteInstallFailed),
            final(self).installed() == installed_after(old(self).installed(), *op, outcome),
    {
        match op {
            RouteOp::Add(route) => self.install(*route, outcome),
            RouteOp::Delete(_) => match outcome {
                OpOutcome::Done => Ok(()),
                _ => Err(StartupError::RouteInstallFailed),
            },
        }
    }

    /// Hands out the operations that unwind the session, in order: every
    /// installed route is deleted, last installed first, then the captured
    /// default route is added back. All of them are to be attempted, whatever
    /// the answers. The record is emptied, so a second call hands out nothing.
    pub fn restore(&mut self) -> (r: Vec<RouteOp>)
        requires
            old(self).wf(),
        ensures
            final(self).wf(),
            r@ == restore_plan(old(self).installed(), old(self).original()),
            final(self).captured(),
            final(self).original().is_none(),
            final(self).installed() == Seq::<Route>::empty(),
    {
        let mut plan: Vec<RouteOp> = Vec::new();
        let count = self.installed.len();
        let mut i: usize = 0;
        while i < count
            invariant
                i <= count,
                count == self.installed@.len(),
                plan@ == removals(self.installed@).subrange(0, i as int),
            decreases count - i,
        {
            plan.push(RouteOp::Delete(self.installed[count - 1 - i]));
            assert(plan@ =~= removals(self.installed@).subrange(0, i + 1));
            i = i + 1;
        }
        assert(plan@ =~= removals(self.installed@));
        match self.original_default {
            Some(route) => {
                plan.push(RouteOp::Add(route));
            },
            None => {},
        }
        self.original_default = None;
        self.captured = true;
        self.installed = Vec::new();
        plan
    }
}

} // verus!
