//! The reroute orchestrator: one state machine that takes the default route
//! over, classifies and forwards captured packets one at a time, and unwinds
//! every route on the way out.
//!
//! The machine performs no input or output. It is told what happened and
//! answers with what to do next; whoever drives it performs the action and
//! reports back.

use vstd::prelude::*;
use crate::addr::{mask_bits, Ipv4Address, Ipv4Prefix, MacAddress};
use crate::controller::{
    capture_route, confirmed, installed_after, restore_plan, split_route, takeover_plan,
    RouteController, StartupError,
};
use crate::frame::{build_frame, frame_of, frameable};
use crate::interface::NetworkInterface;
use crate::packet::{
    classify, destination_of, link_for, parse_destination, Link, PacketError, MAX_PAYLOAD_LEN,
    MIN_HEADER_LEN,
};
use crate::route::{OpOutcome, Route, RouteOp};

verus! {

/// Where a server is in its life. The phases follow one another in this
/// order and never go back.
#[derive(Clone, Copy, Debug, PartialEq, Eq, Structural)]
pub enum Phase {
    /// The takeover is under way; no packet is handled yet.
    Starting,
    /// Captured packets are classified and forwarded.
    Running,
    /// The routes are being unwound; nothing can interrupt this.
    Stopping,
    /// The routes have been unwound; nothing remains to do.
    Stopped,
}

/// What happened outside since the last action.
#[derive(Clone, Debug, PartialEq, Eq)]
pub enum Event {
    /// The routing table answered the operation that was handed out last.
    RouteAnswer(OpOutcome),
    /// The capture device delivered a packet, possibly an empty one.
    Packet(Vec<u8>),
    /// The resolver found the link-layer address it was asked for, or gave up.
    Resolved(Option<MacAddress>),
    /// The raw channel took the frame (`true`) or refused it.
    Transmitted(bool),
    /// Someone asked the server to stop.
    StopRequested,
    /// Every operation of the teardown has been attempted.
    TeardownDone,
}

/// What to do next.
#[derive(Clone, Debug, PartialEq, Eq)]
pub enum Action {
    /// Perform this route operation and report its answer.
    Route(RouteOp),
    /// Wait for the next packet. `dropped` tells why the packet before it was
    /// not forwarded, where that is worth reporting.
    Receive { dropped: Option<PacketError> },
    /// Find the link-layer address of `destination` on `link`.
    Resolve { link: Link, destination: Ipv4Address },
    /// Send `frame` on the raw channel of `link`.
    Transmit { link: Link, frame: Vec<u8> },
    /// Attempt every one of these operations, in order, whatever the answers;
    /// then report `TeardownDone`. `error` is the failure that ended startup,
    /// if that is why the server stops.
    Teardown { ops: Vec<RouteOp>, error: Option<StartupError> },
    /// The server has stopped.
    Halt,
    /// The event does not apply in the present state and was ignored.
    Nothing,
}

/// An action with its buffers as sequences.
pub enum ActionView {
    Route(RouteOp),
    Receive { dropped: Option<PacketError> },
    Resolve { link: Link, destination: Ipv4Address },
    Transmit { link: Link, frame: Seq<u8> },
    Teardown { ops: Seq<RouteOp>, error: Option<StartupError> },
    Halt,
    Nothing,
}

impl View for Action {
    type V = ActionView;

    open spec fn view(&self) -> ActionView {
        match *self {
            Action::Route(op) => ActionView::Route(op),
            Action::Receive { dropped } => ActionView::Receive { dropped },
            Action::Resolve { link, destination } => ActionView::Resolve { link, destination },
            Action::Transmit { link, frame } => ActionView::Transmit { link, frame: frame@ },
            Action::Teardown { ops, error } => ActionView::Teardown { ops: ops@, error },
            Action::Halt => ActionView::Halt,
            Action::Nothing => ActionView::Nothing,
        }
    }
}

/// What the server is doing about the packet in hand.
pub enum Turn {
    /// No packet is in hand.
    Idle,
    /// The packet waits for the link-layer address of its next hop.
    Resolving { link: Link, packet: Seq<u8> },
    /// The packet's frame has been handed out for sending.
    Transmitting,
}

/// The state of a server as a plain value.
pub struct ServerView {
    pub phase: Phase,
    pub turn: Turn,
    pub vpn_prefix: Ipv4Prefix,
    /// The source address of frames sent on the physical link.
    pub physical_mac: MacAddress,
    /// The source address of frames sent on the tunnel link.
    pub tunnel_mac: MacAddress,
    /// The operations of the takeover, in order.
    pub plan: Seq<RouteOp>,
    /// How many operations of the plan have been answered and accepted.
    pub cursor: nat,
    /// The routes this session added, oldest first.
    pub installed: Seq<Route>,
    /// The default route that was there before the takeover.
    pub original: Option<Route>,
}

/// The address a link sends from: its own, or all zeros where it has none.
pub open spec fn source_of(mac: Option<MacAddress>) -> MacAddress {
    match mac {
        Some(m) => m,
        None => MacAddress { octets: [0u8, 0u8, 0u8, 0u8, 0u8, 0u8] },
    }
}

impl ServerView {
    /// The source address for frames on `link`.
    pub open spec fn source_mac(self, link: Link) -> MacAddress {
        match link {
            Link::Physical => self.physical_mac,
            Link::Tunnel => self.tunnel_mac,
        }
    }

    /// The state once teardown has begun: nothing in hand, nothing recorded.
    pub open spec fn stopping(self) -> ServerView {
        ServerView {
            phase: Phase::Stopping,
            turn: Turn::Idle,
            installed: Seq::<Route>::empty(),
            original: None,
            ..self
        }
    }

    /// The teardown this state owes: every installed route deleted, newest
    /// first, then the original default route added back.
    pub open spec fn teardown(self, error: Option<StartupError>) -> ActionView {
        ActionView::Teardown { ops: restore_plan(self.installed, self.original), error }
    }

    /// The same state with no packet in hand.
    pub open spec fn idle(self) -> ServerView {
        ServerView { turn: Turn::Idle, ..self }
    }
}

/// One step of a server that is starting: the answer to the operation in
/// hand either moves the takeover on, or ends it and unwinds what was done.
pub open spec fn step_starting(s: ServerView, event: Event) -> (ServerView, ActionView) {
    match event {
        Event::RouteAnswer(outcome) => {
            let op = s.plan[s.cursor as int];
            if confirmed(op, outcome) {
                let installed = installed_after(s.installed, op, outcome);
                if s.cursor + 1 == s.plan.len() {
                    (
                        ServerView {
                            phase: Phase::Running,
                            cursor: s.cursor + 1 as nat,
                            installed,
                            ..s
                        },
                        ActionView::Receive { dropped: None },
                    )
                } else {
                    (
                        ServerView { cursor: s.cursor + 1 as nat, installed, ..s },
                        ActionView::Route(s.plan[s.cursor + 1 as int]),
                    )
                }
            } else {
                (s.stopping(), s.teardown(Some(StartupError::RouteInstallFailed)))
            }
        },
        Event::StopRequested => (s.stopping(), s.teardown(None)),
        _ => (s, ActionView::Nothing),
    }
}

/// One step of a running server. A packet is classified by its destination
/// alone; whatever goes wrong with one packet ends with the server waiting
/// for the next.
pub open spec fn step_running(s: ServerView, event: Event) -> (ServerView, ActionView) {
    match (s.turn, event) {
        (Turn::Idle, Event::Packet(bytes)) => {
            let packet = bytes@;
            if packet.len() < MIN_HEADER_LEN {
                (s, ActionView::Receive { dropped: None })
            } else if packet.len() > MAX_PAYLOAD_LEN {
                (s, ActionView::Receive { dropped: Some(PacketError::TooLong) })
            } else {
                let destination = destination_of(packet);
                let link = link_for(destination, s.vpn_prefix);
                (
                    ServerView { turn: Turn::Resolving { link, packet }, ..s },
                    ActionView::Resolve { link, destination },
                )
            }
        },
        (Turn::Resolving { link, packet }, Event::Resolved(Some(mac))) => (
            ServerView { turn: Turn::Transmitting, ..s },
            ActionView::Transmit { link, frame: frame_of(mac, s.source_mac(link), packet) },
        ),
        (Turn::Resolving { link, packet }, Event::Resolved(None)) => (
            s.idle(),
            ActionView::Receive { dropped: Some(PacketError::ResolutionTimeout) },
        ),
        (Turn::Transmitting, Event::Transmitted(sent)) => (
            s.idle(),
            ActionView::Receive {
                dropped: if sent {
                    None
                } else {
                    Some(PacketError::TransmitFailed)
                },
            },
        ),
        (_, Event::StopRequested) => (s.stopping(), s.teardown(None)),
        _ => (s, ActionView::Nothing),
    }
}

/// One step of a server: the state and the action that follow an event.
///
/// While stopping, only the end of the teardown is heard: a request to stop
/// again, or anything else, changes nothing. A stopped server ignores
/// everything.
pub open spec fn step(s: ServerView, event: Event) -> (ServerView, ActionView) {
    match s.phase {
        Phase::Starting => step_starting(s, event),
        Phase::Running => step_running(s, event),
        Phase::Stopping => match event {
            Event::TeardownDone => (ServerView { phase: Phase::Stopped, ..s }, ActionView::Halt),
            _ => (s, ActionView::Nothing),
        },
        Phase::Stopped => (s, ActionView::Nothing),
    }
}

/// The reroute server: the two links, the VPN prefix, the route controller
/// and the packet in hand.
pub struct RerouteServer {
    phase: Phase,
    physical_link: NetworkInterface,
    tunnel_link: NetworkInterface,
    vpn_prefix: Ipv4Prefix,
    controller: RouteController,
    plan: Vec<RouteOp>,
    cursor: usize,
    resolving: bool,
    transmitting: bool,
    pending_link: Link,
    pending_packet: Vec<u8>,
}

impl View for RerouteServer {
    type V = ServerView;

    closed spec fn view(&self) -> ServerView {
        ServerView {
            phase: self.phase,
            turn: if self.resolving {
                Turn::Resolving { link: self.pending_link, packet: self.pending_packet@ }
            } else if self.transmitting {
                Turn::Transmitting
            } else {
                Turn::Idle
            },
            vpn_prefix: self.vpn_prefix,
            physical_mac: source_of(self.physical_link.mac),
            tunnel_mac: source_of(self.tunnel_link.mac),
            plan: self.plan@,
            cursor: self.cursor as nat,
            installed: self.controller.installed(),
            original: self.controller.original(),
        }
    }
}

impl RerouteServer {
    /// What holds of every server: a starting server has an operation in
    /// hand, only a running server has a packet in hand, and a packet that
    /// waits for resolution is one that can be framed.
    pub closed spec fn wf(&self) -> bool {
        &&& self.controller.wf()
        &&& self.controller.captured()
        &&& self.cursor <= self.plan@.len()
        &&& self.phase == Phase::Starting ==> self.cursor < self.plan@.len()
        &&& !(self.resolving && self.transmitting)
        &&& (self.resolving || self.transmitting) ==> self.phase == Phase::Running
        &&& self.resolving ==> frameable(self.pending_packet@.len())
    }

    /// A server about to take the default route over.
    ///
    /// `original_route` is the default route observed just before; it is
    /// captured here, once. The takeover will delete it, make the capture
    /// device `capture_index` the default route, and route the VPN prefix to
    /// the tunnel link. A prefix whose mask is not a run of ones followed by
    /// zeros is refused with `RouteInstallFailed`.
    pub fn new(
        default_interface: NetworkInterface,
        vpn_interface: NetworkInterface,
        original_route: Option<Route>,
        capture_index: u32,
        vpn_prefix: Ipv4Prefix,
    ) -> (r: Result<RerouteServer, StartupError>)
        ensures
            match r {
                Ok(server) => exists|n: u8|
                    {
                        &&& n <= 32
                        &&& vpn_prefix.mask.bits as int == mask_bits(n as nat)
                        &&& server.wf()
                        &&& server@ == ServerView {
                            phase: Phase::Starting,
                            turn: Turn::Idle,
                            vpn_prefix: vpn_prefix,
                            physical_mac: source_of(default_interface.mac),
                            tunnel_mac: source_of(vpn_interface.mac),
                            plan: takeover_plan(
                                original_route,
                                capture_route(capture_index),
                                split_route(vpn_prefix.network, n, vpn_interface.index),
                            ),
                            cursor: 0,
                            installed: Seq::<Route>::empty(),
                            original: original_route,
                        }
                    },
                Err(e) => {
                    &&& e == StartupError::RouteInstallFailed
                    &&& forall|n: nat| n <= 32 ==> vpn_prefix.mask.bits as int != #[trigger] mask_bits(n)
                },
            },
    {
        let mut controller = RouteController::new();
        let tunnel_index = vpn_interface.index;
        let plan = match controller.takeover(
            original_route,
            capture_index,
            tunnel_index,
            &vpn_prefix,
        ) {
            Ok(plan) => plan,
            Err(e) => {
                return Err(e);
            },
        };
        Ok(
            RerouteServer {
                phase: Phase::Starting,
                physical_link: default_interface,
                tunnel_link: vpn_interface,
                vpn_prefix,
                controller,
                plan,
                cursor: 0,
                resolving: false,
                transmitting: false,
                pending_link: Link::Physical,
                pending_packet: Vec::new(),
            },
        )
    }

    /// The phase the server is in.
    pub fn phase(&self) -> (r: Phase)
        ensures
            r == self@.phase,
    {
        self.phase
    }

    /// The operation of the takeover that awaits its answer; `None` once the
    /// server has left the starting phase.
    pub fn next_route_op(&self) -> (r: Option<RouteOp>)
        requires
            self.wf(),
        ensures
            self@.phase == Phase::Starting ==> r == Some(self@.plan[self@.cursor as int]),
            self@.phase != Phase::Starting ==> r.is_none(),
    {
        match self.phase {
            Phase::Starting => Some(self.plan[self.cursor]),
            _ => None,
        }
    }

    /// The routes this session has added so far, oldest first.
    pub fn installed_routes(&self) -> (r: Vec<Route>)
        ensures
            r@ == self@.installed,
    {
        self.controller.installed_routes()
    }

    /// The default route captured before the takeover, until it is restored.
    pub fn original_default_route(&self) -> (r: Option<Route>)
        ensures
            r == self@.original,
    {
        self.controller.original_default_route()
    }

    fn source_mac(&self, link: Link) -> (r: MacAddress)
        ensures
            r == self@.source_mac(link),
    {
        let mac = match link {
            Link::Physical => self.physical_link.mac,
            Link::Tunnel => self.tunnel_link.mac,
        };
        match mac {
            Some(m) => m,
            None => MacAddress { octets: [0u8, 0u8, 0u8, 0u8, 0u8, 0u8] },
        }
    }

    fn begin_teardown(&mut self, error: Option<StartupError>) -> (r: Action)
        requires
            old(self).wf(),
        ensures
            final(self).wf(),
            final(self)@ == old(self)@.stopping(),
            r@ == old(self)@.teardown(error),
    {
        let ops = self.controller.restore();
        self.phase = Phase::Stopping;
        self.resolving = false;
        self.transmitting = false;
        self.pending_packet = Vec::new();
        Action::Teardown { ops, error }
    }

    fn run_starting(&mut self, event: Event) -> (r: Action)
        requires
            old(self).wf(),
            old(self)@.phase == Phase::Starting,
        ensures
            final(self).wf(),
            (final(self)@, r@) == step_starting(old(self)@, event),
    {
        match event {
            Event::RouteAnswer(outcome) => {
                let op = self.plan[self.cursor];
                let total = self.plan.len();
                match self.controller.confirm(&op, outcome) {
                    Ok(()) => {
                        self.cursor = self.cursor + 1;
                        if self.cursor == total {
                            self.phase = Phase::Running;
                            Action::Receive { dropped: None }
                        } else {
                            Action::Route(self.plan[self.cursor])
                        }
                    },
                    Err(e) => self.begin_teardown(Some(e)),
                }
            },
            Event::StopRequested => self.begin_teardown(None),
            _ => Action::Nothing,
        }
    }

    fn run_running(&mut self, event: Event) -> (r: Action)
        requires
            old(self).wf(),
            old(self)@.phase == Phase::Running,
        ensures
            final(self).wf(),
            (final(self)@, r@) == step_running(old(self)@, event),
    {
        match event {
            Event::Packet(bytes) => {
                if self.resolving || self.transmitting {
                    return Action::Nothing;
                }
                if bytes.len() > MAX_PAYLOAD_LEN {
                    return Action::Receive { dropped: Some(PacketError::TooLong) };
                }
                match parse_destination(bytes.as_slice()) {
                    Ok(destination) => {
                        let link = classify(destination, &self.vpn_prefix);
                        self.resolving = true;
                        self.pending_link = link;
                        self.pending_packet = bytes;
                        Action::Resolve { link, destination }
                    },
                    Err(_) => Action::Receive { dropped: None },
                }
            },
            Event::Resolved(answer) => {
                if !self.resolving {
                    return Action::Nothing;
                }
                let link = self.pending_link;
                match answer {
                    Some(mac) => {
                        let source = self.source_mac(link);
                        let framed = build_frame(self.pending_packet.as_slice(), &source, &mac);
                        self.resolving = false;
                        self.pending_packet = Vec::new();
                        match framed {
                            Ok(frame) => {
                                self.transmitting = true;
                                Action::Transmit { link, frame }
                            },
                            Err(e) => Action::Receive { dropped: Some(e) },
                        }
                    },
                    None => {
                        self.resolving = false;
                        self.pending_packet = Vec::new();
                        Action::Receive { dropped: Some(PacketError::ResolutionTimeout) }
                    },
                }
            },
            Event::Transmitted(sent) => {
                if !self.transmitting {
                    return Action::Nothing;
                }
                self.transmitting = false;
                if sent {
                    Action::Receive { dropped: None }
                } else {
                    Action::Receive { dropped: Some(PacketError::TransmitFailed) }
                }
            },
            Event::StopRequested => self.begin_teardown(None),
            _ => Action::Nothing,
        }
    }

    /// Takes one event and answers with the next action.
    ///
    /// Starting: each answer from the routing table moves the takeover to its
    /// next operation, and the last one starts the capture loop; an answer
    /// that cannot be accepted ends startup and hands out the teardown.
    /// Running: a packet is classified by its destination and resolved on the
    /// link that won; the resolved address gives the frame to send; a packet
    /// that is too short, too long, unresolved or refused by the channel is
    /// dropped and the next one awaited. A request to stop hands out the
    /// teardown, once: while stopping and afterwards, nothing but the end of
    /// the teardown changes anything.
    pub fn run(&mut self, event: Event) -> (r: Action)
        requires
            old(self).wf(),
        ensures
            final(self).wf(),
            (final(self)@, r@) == step(old(self)@, event),
    {
        match self.phase {
            Phase::Starting => self.run_starting(event),
            Phase::Running => self.run_running(event),
            Phase::Stopping => match event {
                Event::TeardownDone => {
                    self.phase = Phase::Stopped;
                    Action::Halt
                },
                _ => Action::Nothing,
            },
            Phase::Stopped => Action::Nothing,
        }
    }
}

} // verus!
