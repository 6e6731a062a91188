//! The subscription session: the decisions that keep one live event
//! subscription attached to one keyboard across restarts of the device
//! service. The caller performs each action and reports back the event.

use vstd::prelude::*;

use crate::error::CoreError;
use crate::text::str_eq;
use crate::volume::opt_view;

verus! {

/// The kind of a node known to the device service.
#[derive(Debug, Clone, Copy, PartialEq, Eq, Structural)]
pub enum NodeKind {
    UsbKeyboard,
    BleKeyboard,
    Other,
}

/// A node as the device service lists it.
#[derive(Debug)]
pub struct NodeInfo {
    pub id: u64,
    pub serial: String,
    pub name: String,
    pub kind: NodeKind,
}

pub struct NodeView {
    pub id: u64,
    pub serial: Seq<char>,
    pub name: Seq<char>,
    pub kind: NodeKind,
}

impl View for NodeInfo {
    type V = NodeView;

    open spec fn view(&self) -> NodeView {
        NodeView { id: self.id, serial: self.serial@, name: self.name@, kind: self.kind }
    }
}

pub open spec fn nodes_view(s: Seq<NodeInfo>) -> Seq<NodeView> {
    s.map_values(|n: NodeInfo| n@)
}

/// Only keyboards can be subscribed to.
pub open spec fn eligible(n: NodeView) -> bool {
    n.kind == NodeKind::UsbKeyboard || n.kind == NodeKind::BleKeyboard
}

/// How a node is looked for.
#[derive(Debug, Clone, Copy, PartialEq, Eq, Structural)]
pub enum Lookup {
    /// A keyboard with the given serial.
    BySerial,
    /// A keyboard with the given name.
    ByName,
    /// Any keyboard.
    AnyKeyboard,
}

pub open spec fn node_matches(how: Lookup, key: Seq<char>, n: NodeView) -> bool {
    eligible(n) && match how {
        Lookup::BySerial => n.serial == key,
        Lookup::ByName => n.name == key,
        Lookup::AnyKeyboard => true,
    }
}

/// Node `k` is the one node of `ns` that the lookup finds.
pub open spec fn only_match(ns: Seq<NodeView>, how: Lookup, key: Seq<char>, k: int) -> bool {
    0 <= k < ns.len() && node_matches(how, key, ns[k]) && forall|j: int|
        0 <= j < ns.len() && j != k ==> !node_matches(how, key, #[trigger] ns[j])
}

pub open spec fn no_match(ns: Seq<NodeView>, how: Lookup, key: Seq<char>) -> bool {
    forall|j: int| 0 <= j < ns.len() ==> !node_matches(how, key, #[trigger] ns[j])
}

/// The outcome of choosing a device.
#[derive(Debug, Clone, Copy, PartialEq, Eq, Structural)]
pub enum Selection {
    /// The node at this position of the list.
    Device(usize),
    /// Several candidates: someone outside must choose.
    Ask,
    /// No candidate.
    NotFound,
}

/// The outcome of one lookup: its node where there is exactly one, nothing
/// where there is none, a question where there are several.
pub open spec fn pick_spec(ns: Seq<NodeView>, how: Lookup, key: Seq<char>) -> Selection {
    if exists|k: int| only_match(ns, how, key, k) {
        Selection::Device((choose|k: int| only_match(ns, how, key, k)) as usize)
    } else if no_match(ns, how, key) {
        Selection::NotFound
    } else {
        Selection::Ask
    }
}

fn node_matches_exec(how: Lookup, key: &str, n: &NodeInfo) -> (r: bool)
    ensures
        r == node_matches(how, key@, n@),
{
    let ok = n.kind == NodeKind::UsbKeyboard || n.kind == NodeKind::BleKeyboard;
    if !ok {
        return false;
    }
    match how {
        Lookup::BySerial => str_eq(n.serial.as_str(), key),
        Lookup::ByName => str_eq(n.name.as_str(), key),
        Lookup::AnyKeyboard => true,
    }
}

/// Looks up a node of `nodes`.
pub fn pick(nodes: &Vec<NodeInfo>, how: Lookup, key: &str) -> (r: Selection)
    ensures
        r == pick_spec(nodes_view(nodes@), how, key@),
{
    let ghost ns = nodes_view(nodes@);
    let mut first: Option<usize> = None;
    let mut many = false;
    let mut i: usize = 0;
    while i < nodes.len()
        invariant
            0 <= i <= nodes.len(),
            ns == nodes_view(nodes@),
            match first {
                None => !many && forall|j: int| 0 <= j < i ==> !node_matches(how, key@, #[trigger] ns[j]),
                Some(f) => f < i && node_matches(how, key@, ns[f as int]) && (!many ==> forall|j: int|
                    0 <= j < i && j != f ==> !node_matches(how, key@, #[trigger] ns[j])) && (many
                    ==> exists|j: int|
                    0 <= j < i && j != f && node_matches(how, key@, #[trigger] ns[j])),
            },
        decreases nodes.len() - i,
    {
        assert(ns[i as int] == nodes@[i as int]@);
        if node_matches_exec(how, key, &nodes[i]) {
            match first {
                None => {
                    first = Some(i);
                },
                Some(f) => {
                    assert(node_matches(how, key@, ns[i as int]));
                    many = true;
                },
            }
        }
        i = i + 1;
    }
    match first {
        None => {
            assert(!exists|k: int| only_match(ns, how, key@, k));
            Selection::NotFound
        },
        Some(f) => {
            if many {
                let ghost j = choose|j: int|
                    0 <= j < ns.len() && j != f && node_matches(how, key@, #[trigger] ns[j]);
                assert forall|k: int| !only_match(ns, how, key@, k) by {
                    if only_match(ns, how, key@, k) {
                        if k != f as int {
                            assert(!node_matches(how, key@, ns[f as int]));
                        } else {
                            assert(!node_matches(how, key@, ns[j]));
                        }
                    }
                }
                assert(!no_match(ns, how, key@));
                Selection::Ask
            } else {
                assert(only_match(ns, how, key@, f as int));
                let ghost c = choose|k: int| only_match(ns, how, key@, k);
                assert(c == f as int) by {
                    if c != f as int {
                        assert(!node_matches(how, key@, ns[f as int]));
                    }
                }
                Selection::Device(f)
            }
        },
    }
}

/// The choice of device, in order of priority: a serial given by the
/// caller; a name given by the caller; the serial of the previous session,
/// where exactly one keyboard has it; the only keyboard, where there is
/// exactly one. Where several keyboards remain, someone outside must
/// choose.
pub open spec fn select_spec(
    serial_arg: Option<Seq<char>>,
    name_arg: Option<Seq<char>>,
    remembered: Seq<char>,
    ns: Seq<NodeView>,
) -> Selection {
    match serial_arg {
        Some(s) => pick_spec(ns, Lookup::BySerial, s),
        None => match name_arg {
            Some(n) => pick_spec(ns, Lookup::ByName, n),
            None => if remembered.len() > 0 && pick_spec(ns, Lookup::BySerial, remembered) is Device {
                pick_spec(ns, Lookup::BySerial, remembered)
            } else {
                pick_spec(ns, Lookup::AnyKeyboard, Seq::empty())
            },
        },
    }
}

/// Chooses the device to subscribe to among `nodes`.
pub fn select_device(
    serial_arg: Option<&str>,
    name_arg: Option<&str>,
    remembered: &str,
    nodes: &Vec<NodeInfo>,
) -> (r: Selection)
    ensures
        r == select_spec(
            crate::routing::opt_str_view(serial_arg),
            crate::routing::opt_str_view(name_arg),
            remembered@,
            nodes_view(nodes@),
        ),
{
    match serial_arg {
        Some(s) => pick(nodes, Lookup::BySerial, s),
        None => match name_arg {
            Some(n) => pick(nodes, Lookup::ByName, n),
            None => {
                if remembered.unicode_len() > 0 {
                    let r = pick(nodes, Lookup::BySerial, remembered);
                    if let Selection::Device(_) = r {
                        return r;
                    }
                }
                let empty = String::new();
                pick(nodes, Lookup::AnyKeyboard, empty.as_str())
            },
        },
    }
}

/// Where a session stands.
#[derive(Debug, Clone, Copy, PartialEq, Eq, Structural)]
pub enum SessionState {
    Disconnected,
    Connecting,
    Authenticating,
    EnumeratingDevices,
    ResolvingTarget,
    Subscribing,
    Live,
}

/// What the caller reports back: the outcome of the last action.
#[derive(Debug)]
pub enum SessionEvent {
    /// Begin (or begin again) from `Disconnected`.
    Start,
    /// The transport connection stands.
    Connected,
    /// The service accepted the client's identity.
    Authenticated,
    /// The service listed its nodes.
    NodesListed(Vec<NodeInfo>),
    /// Someone outside chose this node.
    Chosen(NodeInfo),
    /// The service confirmed the subscription.
    Subscribed,
    /// The liveness poll succeeded.
    AliveOk,
    /// A connect, authenticate, round trip, liveness poll or event delivery
    /// failed.
    Failed,
}

/// What the caller is to do next.
#[derive(Debug, Clone, Copy, PartialEq, Eq, Structural)]
pub enum SessionAction {
    /// Open a new connection to the device service.
    Connect,
    /// Authenticate on the open connection.
    Authenticate,
    /// Ask the service for its nodes.
    ListNodes,
    /// Register the event subscriber with the node of this id.
    Subscribe(u64),
    /// Have someone outside choose among the keyboards.
    AwaitChoice,
    /// Wait the poll interval, then poll the service for liveness.
    PollAfterDelay,
    /// Drop the connection and its subscription, then start again.
    Reconnect,
    /// Stop: the session cannot go on.
    Exit(CoreError),
    /// The event does not apply to the current state; do nothing.
    Nothing,
}

/// A session as a value: its state, how the device is to be chosen, the
/// serial of the last device subscribed to, and the node whose
/// subscription is active, if any.
pub struct SessionView {
    pub state: SessionState,
    pub serial_arg: Option<Seq<char>>,
    pub name_arg: Option<Seq<char>>,
    pub last_serial: Seq<char>,
    pub target: Option<u64>,
    pub subscription: Option<u64>,
}

/// A session: one subscription, at most, to one device, and what is kept
/// across reconnects.
pub struct DeviceSession {
    state: SessionState,
    serial_arg: Option<String>,
    name_arg: Option<String>,
    last_serial: String,
    target: Option<u64>,
    subscription: Option<u64>,
}

impl View for DeviceSession {
    type V = SessionView;

    closed spec fn view(&self) -> SessionView {
        SessionView {
            state: self.state,
            serial_arg: opt_view(self.serial_arg),
            name_arg: opt_view(self.name_arg),
            last_serial: self.last_serial@,
            target: self.target,
            subscription: self.subscription,
        }
    }
}

/// A subscription is active exactly while the session is live, and it is
/// the one to the target chosen for this connection.
pub open spec fn session_wf(s: SessionView) -> bool {
    &&& (s.subscription is Some <==> s.state == SessionState::Live)
    &&& (s.state == SessionState::Subscribing || s.state == SessionState::Live) ==> s.target is Some
    &&& s.state == SessionState::Live ==> s.subscription == s.target
}

/// `s` in state `st`, all else kept.
pub open spec fn with_state(s: SessionView, st: SessionState) -> SessionView {
    SessionView { state: st, ..s }
}

/// `s` with its connection and subscription dropped, in state
/// `Disconnected`; how to choose the device, and the last serial, are kept.
pub open spec fn torn_down(s: SessionView) -> SessionView {
    SessionView { state: SessionState::Disconnected, target: None, subscription: None, ..s }
}

/// `s` now waiting for the subscription to `n` to be confirmed.
pub open spec fn subscribing_to(s: SessionView, n: NodeView) -> SessionView {
    SessionView {
        state: SessionState::Subscribing,
        last_serial: n.serial,
        target: Some(n.id),
        ..s
    }
}

/// One step of the session: the next state and action for an event.
pub open spec fn next(s: SessionView, e: SessionEvent) -> (SessionView, SessionAction) {
    match e {
        SessionEvent::Failed => (torn_down(s), SessionAction::Reconnect),
        SessionEvent::Start => if s.state == SessionState::Disconnected {
            (with_state(s, SessionState::Connecting), SessionAction::Connect)
        } else {
            (s, SessionAction::Nothing)
        },
        SessionEvent::Connected => if s.state == SessionState::Connecting {
            (with_state(s, SessionState::Authenticating), SessionAction::Authenticate)
        } else {
            (s, SessionAction::Nothing)
        },
        SessionEvent::Authenticated => if s.state == SessionState::Authenticating {
            (with_state(s, SessionState::EnumeratingDevices), SessionAction::ListNodes)
        } else {
            (s, SessionAction::Nothing)
        },
        SessionEvent::NodesListed(nodes) => if s.state == SessionState::EnumeratingDevices {
            let ns = nodes_view(nodes@);
            match select_spec(s.serial_arg, s.name_arg, s.last_serial, ns) {
                Selection::Device(k) => (
                    subscribing_to(s, ns[k as int]),
                    SessionAction::Subscribe(ns[k as int].id),
                ),
                Selection::Ask => (with_state(s, SessionState::ResolvingTarget), SessionAction::AwaitChoice),
                Selection::NotFound => (
                    torn_down(s),
                    SessionAction::Exit(CoreError::DeviceNotFound),
                ),
            }
        } else {
            (s, SessionAction::Nothing)
        },
        SessionEvent::Chosen(n) => if s.state == SessionState::ResolvingTarget {
            (subscribing_to(s, n@), SessionAction::Subscribe(n.id))
        } else {
            (s, SessionAction::Nothing)
        },
        SessionEvent::Subscribed => if s.state == SessionState::Subscribing {
            (
                SessionView { state: SessionState::Live, subscription: s.target, ..s },
                SessionAction::PollAfterDelay,
            )
        } else {
            (s, SessionAction::Nothing)
        },
        SessionEvent::AliveOk => if s.state == SessionState::Live {
            (s, SessionAction::PollAfterDelay)
        } else {
            (s, SessionAction::Nothing)
        },
    }
}

impl DeviceSession {
    /// A session that has not connected yet, which chooses its device by
    /// `serial_arg` or `name_arg` where they are given.
    pub fn new(serial_arg: Option<String>, name_arg: Option<String>) -> (r: Self)
        ensures
            r@ == (SessionView {
                state: SessionState::Disconnected,
                serial_arg: opt_view(serial_arg),
                name_arg: opt_view(name_arg),
                last_serial: Seq::empty(),
                target: None,
                subscription: None,
            }),
            session_wf(r@),
    {
        DeviceSession {
            state: SessionState::Disconnected,
            serial_arg,
            name_arg,
            last_serial: String::new(),
            target: None,
            subscription: None,
        }
    }

    pub fn state(&self) -> (r: SessionState)
        ensures
            r == self@.state,
    {
        self.state
    }

    /// Whether signals are to be delivered: only while a subscription is
    /// active.
    pub fn is_live(&self) -> (r: bool)
        ensures
            r == (self@.subscription is Some),
    {
        self.subscription.is_some()
    }

    /// The serial of the last device chosen.
    pub fn last_serial(&self) -> (r: &str)
        ensures
            r@ == self@.last_serial,
    {
        self.last_serial.as_str()
    }

    fn move_to(&mut self, st: SessionState)
        ensures
            final(self)@ == with_state(old(self)@, st),
    {
        self.state = st;
    }

    fn tear_down(&mut self)
        ensures
            final(self)@ == torn_down(old(self)@),
    {
        self.state = SessionState::Disconnected;
        self.target = None;
        self.subscription = None;
    }

    fn subscribe_to(&mut self, n: &NodeInfo) -> (a: SessionAction)
        ensures
            final(self)@ == subscribing_to(old(self)@, n@),
            a == SessionAction::Subscribe(n.id),
    {
        self.state = SessionState::Subscribing;
        self.last_serial = n.serial.clone();
        self.target = Some(n.id);
        SessionAction::Subscribe(n.id)
    }

    /// Takes the outcome of the last action and decides the next one.
    pub fn step(&mut self, event: SessionEvent) -> (a: SessionAction)
        requires
            session_wf(old(self)@),
        ensures
            (final(self)@, a) == next(old(self)@, event),
            session_wf(final(self)@),
    {
        match event {
            SessionEvent::Failed => {
                self.tear_down();
                SessionAction::Reconnect
            },
            SessionEvent::Start => {
                if self.state == SessionState::Disconnected {
                    self.move_to(SessionState::Connecting);
                    SessionAction::Connect
                } else {
                    SessionAction::Nothing
                }
            },
            SessionEvent::Connected => {
                if self.state == SessionState::Connecting {
                    self.move_to(SessionState::Authenticating);
                    SessionAction::Authenticate
                } else {
                    SessionAction::Nothing
                }
            },
            SessionEvent::Authenticated => {
                if self.state == SessionState::Authenticating {
                    self.move_to(SessionState::EnumeratingDevices);
                    SessionAction::ListNodes
                } else {
                    SessionAction::Nothing
                }
            },
            SessionEvent::NodesListed(nodes) => {
                if self.state == SessionState::EnumeratingDevices {
                    let serial_arg = match &self.serial_arg {
                        Some(s) => Some(s.as_str()),
                        None => None,
                    };
                    let name_arg = match &self.name_arg {
                        Some(s) => Some(s.as_str()),
                        None => None,
                    };
                    let sel = select_device(serial_arg, name_arg, self.last_serial.as_str(), &nodes);
                    match sel {
                        Selection::Device(k) => {
                            assert(nodes_view(nodes@)[k as int] == nodes@[k as int]@);
                            self.subscribe_to(&nodes[k])
                        },
                        Selection::Ask => {
                            self.move_to(SessionState::ResolvingTarget);
                            SessionAction::AwaitChoice
                        },
                        Selection::NotFound => {
                            self.tear_down();
                            SessionAction::Exit(CoreError::DeviceNotFound)
                        },
                    }
                } else {
                    SessionAction::Nothing
                }
            },
            SessionEvent::Chosen(n) => {
                if self.state == SessionState::ResolvingTarget {
                    self.subscribe_to(&n)
                } else {
                    SessionAction::Nothing
                }
            },
            SessionEvent::Subscribed => {
                if self.state == SessionState::Subscribing {
                    self.state = SessionState::Live;
                    self.subscription = self.target;
                    SessionAction::PollAfterDelay
                } else {
                    SessionAction::Nothing
                }
            },
            SessionEvent::AliveOk => {
                if self.state == SessionState::Live {
                    SessionAction::PollAfterDelay
                } else {
                    SessionAction::Nothing
                }
            },
        }
    }
}

/// Every step keeps the session well formed: a subscription is active only
/// while live.
pub proof fn lemma_next_wf(s: SessionView, e: SessionEvent)
    requires
        session_wf(s),
    ensures
        session_wf(next(s, e).0),
{
}

/// A subscription is registered only when none is active: a new one
/// replaces the old, never adds to it.
pub proof fn lemma_subscribe_replaces(s: SessionView, e: SessionEvent)
    requires
        session_wf(s),
        next(s, e).1 is Subscribe,
    ensures
        s.subscription is None,
        next(s, e).0.subscription is None,
{
}

/// A failed liveness poll while live tears the session down to
/// `Disconnected` with no subscription active, keeps the serial of the
/// device for the next attempt, and the next step opens a new connection,
/// still with no subscription active.
pub proof fn lemma_live_failure_reconnects(s: SessionView)
    requires
        session_wf(s),
        s.state == SessionState::Live,
    ensures
        next(s, SessionEvent::Failed).0.state == SessionState::Disconnected,
        next(s, SessionEvent::Failed).0.subscription is None,
        next(s, SessionEvent::Failed).0.last_serial == s.last_serial,
        next(s, SessionEvent::Failed).1 == SessionAction::Reconnect,
        next(next(s, SessionEvent::Failed).0, SessionEvent::Start).0.state
            == SessionState::Connecting,
        next(next(s, SessionEvent::Failed).0, SessionEvent::Start).0.subscription is None,
        next(next(s, SessionEvent::Failed).0, SessionEvent::Start).1 == SessionAction::Connect,
{
}

} // verus!
