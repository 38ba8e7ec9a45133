//! Establishing the tunnel: what to launch, how to recognise that the session
//! stands, and how to find the interface it created.
//!
//! The process itself is spawned and watched elsewhere. A session is told
//! what the process printed and what interfaces exist, and answers with what
//! to do next.

use vstd::prelude::*;
use vstd::string::StrSliceExecFns;
use vstd::string::StringExecFns;
use crate::controller::StartupError;
use crate::interface::NetworkInterface;
use crate::utils::{
    candidate, generate_free_interface_name, list_interface_names, name_is_free, name_taken,
};

verus! {

/// How long the new interface may take to appear once the session stands.
pub const DISCOVERY_TIMEOUT_MS: u64 = 10_000;

/// How long to wait between two looks at the interfaces.
pub const POLL_INTERVAL_MS: u64 = 200;

/// The base of tunnel interface names.
pub open spec fn tunnel_base() -> Seq<char> {
    "utun"@
}

/// The line fragment that announces an established session.
pub open spec fn success_marker() -> Seq<char> {
    "ESP session established"@
}

/// Whether `needle` occurs in `hay` as a run of consecutive characters.
pub open spec fn occurs_in(needle: Seq<char>, hay: Seq<char>) -> bool {
    exists|i: int|
        0 <= i && i + needle.len() <= hay.len() && #[trigger] hay.subrange(
            i,
            i + needle.len(),
        ) == needle
}

/// Whether `text` begins with `prefix`.
pub open spec fn begins_with(text: Seq<char>, prefix: Seq<char>) -> bool {
    prefix.len() <= text.len() && text.subrange(0, prefix.len() as int) == prefix
}

/// Whether an interface is a tunnel interface that was not there before.
pub open spec fn is_new_tunnel(existing: Seq<String>, interface: NetworkInterface) -> bool {
    begins_with(interface.name@, tunnel_base()) && !name_taken(existing, interface.name@)
}

/// The position of the first new tunnel interface of a snapshot, if any.
pub open spec fn first_new_tunnel(existing: Seq<String>, current: Seq<NetworkInterface>) -> Option<
    int,
> {
    if exists|i: int| 0 <= i < current.len() && is_new_tunnel(existing, #[trigger] current[i]) {
        Some(
            choose|i: int|
                0 <= i < current.len() && is_new_tunnel(existing, #[trigger] current[i])
                    && forall|j: int| 0 <= j < i ==> !is_new_tunnel(existing, #[trigger] current[j]),
        )
    } else {
        None
    }
}

/// The arguments the tunnel client is launched with.
pub open spec fn launch_arguments(server: Seq<char>, user: Seq<char>, interface: Seq<char>) -> Seq<
    Seq<char>,
> {
    seq![
        "--protocol=pulse"@,
        "--user="@ + user,
        "--passwd-on-stdin"@,
        "--interface="@ + interface,
        "--servercert"@,
        "pin-sha256:22pJm4rVqQzS08m42MkF9t+bhNbExgX3ozmLdDvvZnw="@,
        server,
    ]
}

/// The characters of a string, one by one.
pub fn chars_of(text: &str) -> (r: Vec<char>)
    ensures
        r@ == text@,
{
    let n = text.unicode_len();
    let mut out: Vec<char> = Vec::with_capacity(n);
    let mut i: usize = 0;
    while i < n
        invariant
            i <= n,
            n == text@.len(),
            out@ == text@.subrange(0, i as int),
        decreases n - i,
    {
        out.push(text.get_char(i));
        assert(out@ =~= text@.subrange(0, i + 1));
        i = i + 1;
    }
    assert(out@ =~= text@);
    out
}

fn matches_at(hay: &Vec<char>, start: usize, needle: &Vec<char>) -> (r: bool)
    requires
        start + needle.len() <= hay.len(),
    ensures
        r == (hay@.subrange(start as int, start + needle.len()) == needle@),
{
    let mut k: usize = 0;
    while k < needle.len()
        invariant
            k <= needle.len(),
            start + needle.len() <= hay.len(),
            forall|j: int| 0 <= j < k ==> hay@[start + j] == needle@[j],
        decreases needle.len() - k,
    {
        if hay[start + k] != needle[k] {
            assert(hay@.subrange(start as int, start + needle.len())[k as int] != needle@[k as int]);
            return false;
        }
        k = k + 1;
    }
    assert(hay@.subrange(start as int, start + needle.len()) =~= needle@);
    true
}

/// Whether `needle` occurs in `hay`.
pub fn contains_text(hay: &str, needle: &str) -> (r: bool)
    ensures
        r == occurs_in(needle@, hay@),
{
    let h = chars_of(hay);
    let n = chars_of(needle);
    if n.len() > h.len() {
        return false;
    }
    let last = h.len() - n.len();
    let mut i: usize = 0;
    loop
        invariant
            i <= last,
            last == h.len() - n.len(),
            n.len() <= h.len(),
            h@ == hay@,
            n@ == needle@,
            forall|j: int| 0 <= j < i ==> #[trigger] h@.subrange(j, j + n.len()) != n@,
        decreases last - i,
    {
        if matches_at(&h, i, &n) {
            return true;
        }
        if i == last {
            return false;
        }
        i = i + 1;
    }
}

/// Whether `text` begins with `prefix`.
pub fn starts_with_text(text: &str, prefix: &str) -> (r: bool)
    ensures
        r == begins_with(text@, prefix@),
{
    let t = chars_of(text);
    let p = chars_of(prefix);
    if p.len() > t.len() {
        return false;
    }
    matches_at(&t, 0, &p)
}

/// Whether a line of the client's output announces an established session.
pub fn is_success_marker(line: &str) -> (r: bool)
    ensures
        r == occurs_in(success_marker(), line@),
{
    contains_text(line, "ESP session established")
}

/// The first interface of the snapshot that carries a tunnel name and was not
/// among the interfaces seen before the launch; `None` where there is none.
pub fn find_new_interface(existing: &Vec<String>, current: &Vec<NetworkInterface>) -> (r: Option<
    usize,
>)
    ensures
        match r {
            Some(i) => {
                &&& i < current.len()
                &&& is_new_tunnel(existing@, current@[i as int])
                &&& forall|j: int| 0 <= j < i ==> !is_new_tunnel(existing@, #[trigger] current@[j])
            },
            None => forall|j: int|
                0 <= j < current.len() ==> !is_new_tunnel(existing@, #[trigger] current@[j]),
        },
{
    let mut i: usize = 0;
    while i < current.len()
        invariant
            i <= current.len(),
            forall|j: int| 0 <= j < i ==> !is_new_tunnel(existing@, #[trigger] current@[j]),
        decreases current.len() - i,
    {
        let name = &current[i].name;
        if starts_with_text(name.as_str(), "utun") && name_is_free(existing, name) {
            return Some(i);
        }
        i = i + 1;
    }
    None
}

/// What to launch, and what to write to its input.
#[derive(Clone, Debug, PartialEq, Eq)]
pub struct LaunchPlan {
    pub program: String,
    pub arguments: Vec<String>,
    /// The password followed by a line feed.
    pub input: String,
}

/// Builds the arguments of the tunnel client.
pub fn build_arguments(server: &str, user: &str, interface: &str) -> (r: Vec<String>)
    ensures
        r@.len() == 7,
        forall|i: int| 0 <= i < 7 ==> (#[trigger] r@[i])@ == launch_arguments(
            server@,
            user@,
            interface@,
        )[i],
{
    let mut arguments: Vec<String> = Vec::new();
    arguments.push(String::from_str("--protocol=pulse"));
    arguments.push(String::from_str("--user=").concat(user));
    arguments.push(String::from_str("--passwd-on-stdin"));
    arguments.push(String::from_str("--interface=").concat(interface));
    arguments.push(String::from_str("--servercert"));
    arguments.push(String::from_str("pin-sha256:22pJm4rVqQzS08m42MkF9t+bhNbExgX3ozmLdDvvZnw="));
    arguments.push(String::from_str(server));
    arguments
}

/// Where a session is on its way to an established tunnel.
#[derive(Clone, Copy, Debug, PartialEq, Eq, Structural)]
pub enum SessionPhase {
    /// The client runs; its output is read for the success marker.
    AwaitingMarker,
    /// The session stands; the new interface is looked for.
    Discovering,
    /// The tunnel interface is known.
    Established,
    /// The tunnel could not be established.
    Failed,
}

/// What happened to the tunnel client since the last step.
#[derive(Clone, Debug, PartialEq, Eq)]
pub enum SessionEvent {
    /// The client printed a line.
    OutputLine(String),
    /// The client closed its output or exited.
    OutputClosed,
    /// The time allowed for the success marker has passed.
    DeadlinePassed,
    /// The interfaces as they are now, and the milliseconds that have passed
    /// since the session was seen to stand.
    Interfaces { snapshot: Vec<NetworkInterface>, elapsed_ms: u64 },
}

/// What to do next about the tunnel.
#[derive(Clone, Copy, Debug, PartialEq, Eq, Structural)]
pub enum SessionStep {
    /// Read the next line of output.
    ReadLine,
    /// Wait this many milliseconds, then report the interfaces.
    Poll { after_ms: u64 },
    /// The tunnel stands on the interface with this index.
    Ready { interface_index: u32 },
    /// Give up with this error.
    Fail(StartupError),
    /// The event does not apply any more and was ignored.
    Nothing,
}

/// The state of a session as a plain value.
pub struct SessionView {
    pub phase: SessionPhase,
    pub interface_index: u32,
}

/// One step of a session.
///
/// While the marker is awaited, a line that holds it starts the search for
/// the interface, any other line is read past, and the end of the output or
/// of the allowed time fails the session. During the search, the first new
/// tunnel interface of a snapshot establishes the session; a snapshot without
/// one asks for another look, until the discovery time is used up.
pub open spec fn session_step(
    s: SessionView,
    existing: Seq<String>,
    event: SessionEvent,
) -> (SessionView, SessionStep) {
    match (s.phase, event) {
        (SessionPhase::AwaitingMarker, SessionEvent::OutputLine(line)) => if occurs_in(
            success_marker(),
            line@,
        ) {
            (
                SessionView { phase: SessionPhase::Discovering, ..s },
                SessionStep::Poll { after_ms: 0 },
            )
        } else {
            (s, SessionStep::ReadLine)
        },
        (SessionPhase::AwaitingMarker, SessionEvent::OutputClosed) => (
            SessionView { phase: SessionPhase::Failed, ..s },
            SessionStep::Fail(StartupError::TunnelEstablishFailed),
        ),
        (SessionPhase::AwaitingMarker, SessionEvent::DeadlinePassed) => (
            SessionView { phase: SessionPhase::Failed, ..s },
            SessionStep::Fail(StartupError::TunnelTimedOut),
        ),
        (SessionPhase::Discovering, SessionEvent::Interfaces { snapshot, elapsed_ms }) => {
            match first_new_tunnel(existing, snapshot@) {
                Some(i) => (
                    SessionView {
                        phase: SessionPhase::Established,
                        interface_index: snapshot@[i].index,
                    },
                    SessionStep::Ready { interface_index: snapshot@[i].index },
                ),
                None => if elapsed_ms >= DISCOVERY_TIMEOUT_MS {
                    (
                        SessionView { phase: SessionPhase::Failed, ..s },
                        SessionStep::Fail(StartupError::TunnelTimedOut),
                    )
                } else {
                    (s, SessionStep::Poll { after_ms: POLL_INTERVAL_MS })
                },
            }
        },
        _ => (s, SessionStep::Nothing),
    }
}

/// A tunnel session on its way to an established interface.
pub struct VpnSession {
    phase: SessionPhase,
    existing: Vec<String>,
    launch: LaunchPlan,
    /// The index of the tunnel interface, once the session is established.
    pub interface_index: u32,
}

impl View for VpnSession {
    type V = SessionView;

    closed spec fn view(&self) -> SessionView {
        SessionView { phase: self.phase, interface_index: self.interface_index }
    }
}

impl VpnSession {
    /// The names of the interfaces that existed before the launch.
    pub closed spec fn existing(&self) -> Seq<String> {
        self.existing@
    }

    /// The program to launch.
    pub closed spec fn program(&self) -> Seq<char> {
        self.launch.program@
    }

    /// The arguments to launch it with.
    pub closed spec fn arguments(&self) -> Seq<String> {
        self.launch.arguments@
    }

    /// What to write to its input.
    pub closed spec fn input(&self) -> Seq<char> {
        self.launch.input@
    }

    /// Whether this is the session that `prepare` makes of these values.
    pub open spec fn prepared_from(
        &self,
        server: Seq<char>,
        user: Seq<char>,
        password: Seq<char>,
        interface: Seq<char>,
        existing: Seq<String>,
    ) -> bool {
        &&& self@ == SessionView { phase: SessionPhase::AwaitingMarker, interface_index: 0 }
        &&& self.existing() == existing
        &&& self.program() == "openconnect"@
        &&& self.arguments().len() == 7
        &&& forall|i: int| 0 <= i < 7 ==> (#[trigger] self.arguments()[i])@ == launch_arguments(
            server,
            user,
            interface,
        )[i]
        &&& self.input() == password + "\n"@
    }

    /// A session for a client that is about to be launched on the interface
    /// name `interface`, while the interfaces `existing` are there.
    pub fn prepare(
        server: &str,
        user: &str,
        password: &str,
        interface: &str,
        existing: Vec<String>,
    ) -> (r: VpnSession)
        ensures
            r.prepared_from(server@, user@, password@, interface@, existing@),
    {
        let launch = LaunchPlan {
            program: String::from_str("openconnect"),
            arguments: build_arguments(server, user, interface),
            input: String::from_str(password).concat("\n"),
        };
        VpnSession { phase: SessionPhase::AwaitingMarker, existing, launch, interface_index: 0 }
    }

    /// A session for a client about to be launched: picks a free tunnel
    /// interface name, notes the interfaces that exist now, and prepares the
    /// launch. Fails with `TunnelEstablishFailed` where the interfaces cannot
    /// be enumerated.
    pub fn new(server: &str, user: &str, password: &str) -> (r: Result<VpnSession, StartupError>)
        ensures
            match r {
                Ok(session) => exists|k: nat|
                    session.prepared_from(
                        server@,
                        user@,
                        password@,
                        #[trigger] candidate(tunnel_base(), k),
                        session.existing(),
                    ),
                Err(e) => e == StartupError::TunnelEstablishFailed,
            },
    {
        let interface = generate_free_interface_name("utun");
        match list_interface_names() {
            Some(existing) => {
                let session = VpnSession::prepare(
                    server,
                    user,
                    password,
                    interface.as_str(),
                    existing,
                );
                proof {
                    let k = choose|k: nat| interface@ == candidate("utun"@, k);
                    assert(session.prepared_from(
                        server@,
                        user@,
                        password@,
                        candidate(tunnel_base(), k),
                        session.existing(),
                    ));
                }
                Ok(session)
            },
            None => Err(StartupError::TunnelEstablishFailed),
        }
    }

    /// What to launch and what to write to its input.
    pub fn launch_plan(&self) -> (r: &LaunchPlan)
        ensures
            r.program@ == self.program(),
            r.arguments@ == self.arguments(),
            r.input@ == self.input(),
    {
        &self.launch
    }

    /// The phase the session is in.
    pub fn phase(&self) -> (r: SessionPhase)
        ensures
            r == self@.phase,
    {
        self.phase
    }

    /// Takes one event and answers with the next step.
    pub fn advance(&mut self, event: SessionEvent) -> (r: SessionStep)
        ensures
            (final(self)@, r) == session_step(old(self)@, old(self).existing(), event),
            final(self).existing() == old(self).existing(),
            final(self).program() == old(self).program(),
            final(self).arguments() == old(self).arguments(),
            final(self).input() == old(self).input(),
    {
        match self.phase {
            SessionPhase::AwaitingMarker => match event {
                SessionEvent::OutputLine(line) => {
                    if is_success_marker(line.as_str()) {
                        self.phase = SessionPhase::Discovering;
                        SessionStep::Poll { after_ms: 0 }
                    } else {
                        SessionStep::ReadLine
                    }
                },
                SessionEvent::OutputClosed => {
                    self.phase = SessionPhase::Failed;
                    SessionStep::Fail(StartupError::TunnelEstablishFailed)
                },
                SessionEvent::DeadlinePassed => {
                    self.phase = SessionPhase::Failed;
                    SessionStep::Fail(StartupError::TunnelTimedOut)
                },
                _ => SessionStep::Nothing,
            },
            SessionPhase::Discovering => match event {
                SessionEvent::Interfaces { snapshot, elapsed_ms } => {
                    match find_new_interface(&self.existing, &snapshot) {
                        Some(i) => {
                            proof {
                                lemma_first_new_tunnel(self.existing@, snapshot@, i as int);
                            }
                            let index = snapshot[i].index;
                            self.phase = SessionPhase::Established;
                            self.interface_index = index;
                            SessionStep::Ready { interface_index: index }
                        },
                        None => {
                            if elapsed_ms >= DISCOVERY_TIMEOUT_MS {
                                self.phase = SessionPhase::Failed;
                                SessionStep::Fail(StartupError::TunnelTimedOut)
                            } else {
                                SessionStep::Poll { after_ms: POLL_INTERVAL_MS }
                            }
                        },
                    }
                },
                _ => SessionStep::Nothing,
            },
            _ => SessionStep::Nothing,
        }
    }
}

/// The position that a search from the front finds is the first new tunnel
/// interface of the snapshot.
pub proof fn lemma_first_new_tunnel(
    existing: Seq<String>,
    current: Seq<NetworkInterface>,
    found: int,
)
    requires
        0 <= found < current.len(),
        is_new_tunnel(existing, current[found]),
        forall|j: int| 0 <= j < found ==> !is_new_tunnel(existing, #[trigger] current[j]),
    ensures
        first_new_tunnel(existing, current) == Some(found),
{
    let chosen = choose|i: int|
        0 <= i < current.len() && is_new_tunnel(existing, #[trigger] current[i]) && forall|j: int|
            0 <= j < i ==> !is_new_tunnel(existing, #[trigger] current[j]);
    if chosen < found {
        assert(!is_new_tunnel(existing, current[chosen]));
    } else if found < chosen {
        assert(!is_new_tunnel(existing, current[found]));
    }
}

} // verus!
