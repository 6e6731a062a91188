use hidiokb::handler::handle_volume;
use hidiokb::pactl::{mute_state_after, PactlClient, PactlCommand, PactlInput, PactlJSONInput};
use hidiokb::routing::{get_client_matches, resolve, Condense};
use hidiokb::volume::VolumeOp;
use hidiokb::event::decode_cli;

fn client(index: u32, binary: &str) -> PactlClient {
    PactlClient {
        index,
        driver: "protocol-native.c".to_string(),
        application_process_binary: binary.to_string(),
    }
}

fn input(index: &str, sink: u32, owner: &str) -> PactlInput {
    PactlInput { index: index.to_string(), sink, client: owner.to_string() }
}

fn args(c: &PactlCommand) -> Vec<&str> {
    c.args.iter().map(|a| a.as_str()).collect()
}

#[test]
fn no_application_routes_to_default_output() {
    let clients = vec![client(7, "firefox")];
    let inputs = vec![input("42", 0, "7")];
    let r = resolve(None, &clients, &inputs);
    assert_eq!(r.len(), 1);
    assert_eq!(r[0].index, "");
    assert_eq!(r[0].sink, 0);
    assert_eq!(r[0].client, "");
}

#[test]
fn unmatched_application_routes_nowhere() {
    let clients = vec![client(7, "firefox"), client(8, "vlc")];
    let inputs = vec![input("42", 0, "7"), input("43", 0, "8")];
    assert!(resolve(Some("spotify"), &clients, &inputs).is_empty());
    assert!(resolve(Some("firefox"), &vec![], &inputs).is_empty());
}

#[test]
fn matching_streams_are_deduplicated() {
    let clients = vec![client(7, "firefox"), client(8, "firefox-bin"), client(9, "vlc")];
    let inputs = vec![
        input("42", 1, "7"),
        input("42", 1, "8"),
        input("50", 1, "8"),
        input("60", 1, "9"),
        input("70", 1, "x"),
    ];
    let r = resolve(Some("firefox"), &clients, &inputs);
    let idx: Vec<&str> = r.iter().map(|i| i.index.as_str()).collect();
    assert_eq!(idx, vec!["42", "50"]);
}

#[test]
fn client_matching_is_by_substring() {
    let clients = vec![client(1, "firefox"), client(2, "vlc"), client(3, "firefox-esr")];
    let m = get_client_matches("fire", &clients);
    let ids: Vec<u32> = m.iter().map(|c| c.index).collect();
    assert_eq!(ids, vec![1, 3]);
    assert!(get_client_matches("Fire", &clients).is_empty());
}

#[test]
fn client_gathers_streams_of_clients_containing_its_name() {
    let clients = vec![client(1, "firefox"), client(2, "firefox-esr"), client(3, "vlc")];
    let inputs = vec![input("10", 0, "1"), input("11", 0, "2"), input("12", 0, "3")];
    let got = clients[0].get_inputs(&clients, &inputs);
    let idx: Vec<&str> = got.iter().map(|i| i.index.as_str()).collect();
    assert_eq!(idx, vec!["10", "11"]);
    let got = clients[1].get_inputs(&clients, &inputs);
    assert_eq!(got.len(), 1);
    assert_eq!(got[0].index, "11");
}

#[test]
fn condense_keeps_first_of_each_index() {
    let clients = vec![client(1, "firefox"), client(2, "firefox-esr")];
    let inputs = vec![input("10", 0, "1"), input("11", 0, "2")];
    let matched = get_client_matches("firefox", &clients);
    let r = matched.condense(&clients, &inputs);
    let idx: Vec<&str> = r.iter().map(|i| i.index.as_str()).collect();
    assert_eq!(idx, vec!["10", "11"]);
}

#[test]
fn scenario_set_on_default_output() {
    let c = decode_cli("volume-0:25").unwrap().unwrap();
    assert_eq!(c.op, VolumeOp::SetLevel);
    assert_eq!(c.value, 25);
    assert!(c.app.is_none());
    let plan = handle_volume(c.op, c.value, c.app.as_deref(), &vec![], &vec![]);
    assert_eq!(plan.len(), 1);
    assert_eq!(args(&plan[0]), vec!["set-sink-volume", "@DEFAULT_SINK@", "25%"]);
}

#[test]
fn scenario_increase_on_application_stream() {
    let c = decode_cli("volume-1:10:firefox").unwrap().unwrap();
    assert_eq!(c.op, VolumeOp::Inc);
    let clients = vec![client(7, "firefox")];
    let inputs = vec![input("42", 0, "7")];
    let targets = resolve(c.app.as_deref(), &clients, &inputs);
    assert_eq!(targets.len(), 1);
    assert_eq!(targets[0].index, "42");
    let plan = handle_volume(c.op, c.value, c.app.as_deref(), &clients, &inputs);
    assert_eq!(plan.len(), 1);
    assert_eq!(args(&plan[0]), vec!["set-sink-input-volume", "42", "+10%"]);
}

#[test]
fn every_operation_builds_its_command() {
    let clients = vec![client(7, "vlc")];
    let inputs = vec![input("5", 0, "7")];
    let cases = [
        (VolumeOp::Dec, vec!["set-sink-input-volume", "5", "-3%"]),
        (VolumeOp::Mute, vec!["set-sink-input-mute", "5", "1"]),
        (VolumeOp::UnMute, vec!["set-sink-input-mute", "5", "0"]),
        (VolumeOp::ToggleMute, vec!["set-sink-input-mute", "5", "toggle"]),
    ];
    for (op, want) in cases {
        let plan = handle_volume(op, 3, Some("vlc"), &clients, &inputs);
        assert_eq!(plan.len(), 1);
        assert_eq!(args(&plan[0]), want);
    }
    let d = PactlInput::default();
    assert_eq!(args(&d.mute()), vec!["set-sink-mute", "@DEFAULT_SINK@", "1"]);
    assert_eq!(args(&d.unmute()), vec!["set-sink-mute", "@DEFAULT_SINK@", "0"]);
    assert_eq!(args(&d.toggle_mute()), vec!["set-sink-mute", "@DEFAULT_SINK@", "toggle"]);
    assert_eq!(args(&d.volume("-", 7)), vec!["set-sink-volume", "@DEFAULT_SINK@", "-7%"]);
}

#[test]
fn invalid_operation_does_nothing() {
    assert!(handle_volume(VolumeOp::Invalid, 10, None, &vec![], &vec![]).is_empty());
}

#[test]
fn mute_is_idempotent_and_toggle_alternates() {
    let t = input("42", 0, "7");
    let mute = t.mute();
    let once = mute_state_after(&mute, true);
    let twice = mute_state_after(&mute, once);
    assert!(once && twice);
    assert!(mute_state_after(&mute, false));
    let toggle = t.toggle_mute();
    let a = mute_state_after(&toggle, false);
    let b = mute_state_after(&toggle, a);
    let c = mute_state_after(&toggle, b);
    assert_eq!((a, b, c), (true, false, true));
    assert!(!mute_state_after(&t.unmute(), true));
    assert!(mute_state_after(&t.volume("+", 5), true));
}

#[test]
fn listed_stream_index_is_written_in_decimal() {
    let j = PactlJSONInput { index: 4021, sink: 2, client: "77".to_string() };
    let i = j.to_input();
    assert_eq!(i.index, "4021");
    assert_eq!(i.sink, 2);
    assert_eq!(i.client, "77");
}
