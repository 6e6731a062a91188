use hidiokb::error::CoreError;
use hidiokb::gui::{conn_step, Conn, HidIoGui, Message};
use hidiokb::handler::{KeyboardSubscriberImpl, MSG, QUEUE_CAPACITY};
use hidiokb::event::Signal;
use hidiokb::session::{
    select_device, DeviceSession, NodeInfo, NodeKind, Selection, SessionAction, SessionEvent,
    SessionState,
};

fn node(id: u64, serial: &str, name: &str, kind: NodeKind) -> NodeInfo {
    NodeInfo { id, serial: serial.to_string(), name: name.to_string(), kind }
}

fn listing() -> Vec<NodeInfo> {
    vec![
        node(1, "", "hid-io-core", NodeKind::Other),
        node(2, "ABC", "K-Type", NodeKind::UsbKeyboard),
    ]
}

fn live_session() -> DeviceSession {
    let mut s = DeviceSession::new(None, None);
    assert_eq!(s.step(SessionEvent::Start), SessionAction::Connect);
    assert_eq!(s.step(SessionEvent::Connected), SessionAction::Authenticate);
    assert_eq!(s.step(SessionEvent::Authenticated), SessionAction::ListNodes);
    assert_eq!(s.step(SessionEvent::NodesListed(listing())), SessionAction::Subscribe(2));
    assert_eq!(s.state(), SessionState::Subscribing);
    assert!(!s.is_live());
    assert_eq!(s.step(SessionEvent::Subscribed), SessionAction::PollAfterDelay);
    s
}

#[test]
fn session_reaches_live() {
    let mut s = live_session();
    assert_eq!(s.state(), SessionState::Live);
    assert!(s.is_live());
    assert_eq!(s.last_serial(), "ABC");
    assert_eq!(s.step(SessionEvent::AliveOk), SessionAction::PollAfterDelay);
    assert_eq!(s.state(), SessionState::Live);
}

#[test]
fn failed_liveness_poll_reconnects() {
    let mut s = live_session();
    assert_eq!(s.step(SessionEvent::Failed), SessionAction::Reconnect);
    assert_eq!(s.state(), SessionState::Disconnected);
    assert!(!s.is_live());
    assert_eq!(s.step(SessionEvent::Start), SessionAction::Connect);
    assert_eq!(s.state(), SessionState::Connecting);
    assert!(!s.is_live());
    assert_eq!(s.last_serial(), "ABC");
}

#[test]
fn out_of_order_events_do_nothing() {
    let mut s = DeviceSession::new(None, None);
    assert_eq!(s.step(SessionEvent::AliveOk), SessionAction::Nothing);
    assert_eq!(s.step(SessionEvent::Subscribed), SessionAction::Nothing);
    assert_eq!(s.state(), SessionState::Disconnected);
    assert!(!s.is_live());
}

#[test]
fn no_keyboard_means_device_not_found() {
    let mut s = DeviceSession::new(None, None);
    s.step(SessionEvent::Start);
    s.step(SessionEvent::Connected);
    s.step(SessionEvent::Authenticated);
    let nodes = vec![node(1, "", "hid-io-core", NodeKind::Other)];
    assert_eq!(
        s.step(SessionEvent::NodesListed(nodes)),
        SessionAction::Exit(CoreError::DeviceNotFound)
    );
}

#[test]
fn several_keyboards_are_left_to_a_choice() {
    let mut s = DeviceSession::new(None, None);
    s.step(SessionEvent::Start);
    s.step(SessionEvent::Connected);
    s.step(SessionEvent::Authenticated);
    let nodes = vec![
        node(3, "A1", "K-Type", NodeKind::UsbKeyboard),
        node(4, "B2", "Keystone", NodeKind::BleKeyboard),
    ];
    assert_eq!(s.step(SessionEvent::NodesListed(nodes)), SessionAction::AwaitChoice);
    assert_eq!(s.state(), SessionState::ResolvingTarget);
    let chosen = node(4, "B2", "Keystone", NodeKind::BleKeyboard);
    assert_eq!(s.step(SessionEvent::Chosen(chosen)), SessionAction::Subscribe(4));
    assert_eq!(s.last_serial(), "B2");
}

#[test]
fn device_selection_priorities() {
    let nodes = vec![
        node(1, "", "hid-io-core", NodeKind::Other),
        node(2, "A1", "K-Type", NodeKind::UsbKeyboard),
        node(3, "B2", "Keystone", NodeKind::BleKeyboard),
    ];
    assert_eq!(select_device(Some("B2"), None, "", &nodes), Selection::Device(2));
    assert_eq!(select_device(Some("Z9"), None, "", &nodes), Selection::NotFound);
    assert_eq!(select_device(None, Some("K-Type"), "", &nodes), Selection::Device(1));
    assert_eq!(select_device(None, None, "A1", &nodes), Selection::Device(1));
    assert_eq!(select_device(None, None, "Z9", &nodes), Selection::Ask);
    assert_eq!(select_device(None, None, "", &nodes), Selection::Ask);
    assert_eq!(select_device(None, None, "", &nodes[..2].to_vec_nodes()), Selection::Device(1));
    assert_eq!(select_device(Some(""), None, "", &nodes), Selection::NotFound);
}

trait ToVecNodes {
    fn to_vec_nodes(&self) -> Vec<NodeInfo>;
}

impl ToVecNodes for [NodeInfo] {
    fn to_vec_nodes(&self) -> Vec<NodeInfo> {
        self.iter()
            .map(|n| NodeInfo {
                id: n.id,
                serial: n.serial.clone(),
                name: n.name.clone(),
                kind: n.kind,
            })
            .collect()
    }
}

#[test]
fn explicit_serial_reattaches_after_restart() {
    let mut s = DeviceSession::new(Some("ABC".to_string()), None);
    s.step(SessionEvent::Start);
    s.step(SessionEvent::Connected);
    s.step(SessionEvent::Authenticated);
    assert_eq!(s.step(SessionEvent::NodesListed(listing())), SessionAction::Subscribe(2));
    s.step(SessionEvent::Subscribed);
    s.step(SessionEvent::Failed);
    s.step(SessionEvent::Start);
    s.step(SessionEvent::Connected);
    s.step(SessionEvent::Authenticated);
    assert_eq!(s.step(SessionEvent::NodesListed(listing())), SessionAction::Subscribe(2));
}

#[test]
fn subscriber_queues_layer_changes_up_to_capacity() {
    let mut sub = KeyboardSubscriberImpl::new();
    for l in 0..(QUEUE_CAPACITY as u16 + 3) {
        assert!(sub.update(&Signal::Layer(l)).unwrap().is_none());
    }
    let c = sub.update(&Signal::Cli("volume-3:0".to_string())).unwrap().unwrap();
    assert_eq!(c.value, 0);
    assert!(sub.update(&Signal::Cli("volume-3:zz".to_string())).is_err());
    let got = sub.take_messages();
    assert_eq!(got.len(), QUEUE_CAPACITY);
    assert_eq!(got[0], MSG::Layer(0));
    assert_eq!(got[QUEUE_CAPACITY - 1], MSG::Layer(QUEUE_CAPACITY as u16 - 1));
    assert!(sub.take_messages().is_empty());
}

#[test]
fn counter_window_state() {
    let mut g = HidIoGui::new();
    assert_eq!(g.title(), "HID-IO GUI");
    g.update(Message::Decrement);
    assert_eq!(g.count, 0);
    g.update(Message::Increment);
    g.update(Message::Increment);
    assert_eq!(g.count, 2);
    g.update(Message::Layer(4));
    g.update(Message::Volume(30));
    g.update(Message::NAN);
    assert_eq!((g.count, g.layer, g.volume), (2, 4, 30));
    g.count = u32::MAX;
    g.update(Message::Increment);
    assert_eq!(g.count, u32::MAX);
}

#[test]
fn forwarding_worker_steps() {
    assert_eq!(conn_step(Conn::Loading, None), (Conn::Loaded, Message::NAN));
    assert_eq!(conn_step(Conn::Loaded, Some(MSG::Layer(2))), (Conn::Loaded, Message::Layer(2)));
    assert_eq!(conn_step(Conn::Loaded, Some(MSG::Volume(9))), (Conn::Loaded, Message::Volume(9)));
}
