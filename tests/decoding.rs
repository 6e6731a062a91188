use hidiokb::error::CoreError;
use hidiokb::event::{decode_cli, decode_signal, handle_layer_event, op_from_code, Signal};
use hidiokb::text::{decimal_string, parse_decimal, str_contains, str_eq};
use hidiokb::volume::{VolumeCommand, VolumeOp};

fn decoded(text: &str) -> VolumeCommand {
    match decode_cli(text) {
        Ok(Some(c)) => c,
        other => panic!("unexpected result for {}: {:?}", text, other),
    }
}

#[test]
fn each_code_decodes_to_its_operation() {
    let table = [
        ("volume-0:25", VolumeOp::SetLevel),
        ("volume-1:25", VolumeOp::Inc),
        ("volume-2:25", VolumeOp::Dec),
        ("volume-3:25", VolumeOp::Mute),
        ("volume-4:25", VolumeOp::UnMute),
        ("volume-5:25", VolumeOp::ToggleMute),
    ];
    for (text, op) in table {
        let c = decoded(text);
        assert_eq!(c.op, op);
        assert_eq!(c.value, 25);
        assert!(c.app.is_none());
    }
}

#[test]
fn third_field_is_the_application() {
    let c = decoded("volume-1:10:firefox");
    assert_eq!(c.op, VolumeOp::Inc);
    assert_eq!(c.value, 10);
    assert_eq!(c.app.as_deref(), Some("firefox"));
}

#[test]
fn application_keeps_further_colons() {
    let c = decoded("volume-0:50:my:app");
    assert_eq!(c.app.as_deref(), Some("my:app"));
}

#[test]
fn empty_application_field_names_no_application() {
    let c = decoded("volume-1:10:");
    assert!(c.app.is_none());
}

#[test]
fn unknown_code_is_invalid() {
    assert_eq!(decoded("volume-9:10").op, VolumeOp::Invalid);
    assert_eq!(decoded("volume-x:10").op, VolumeOp::Invalid);
    assert_eq!(decoded("volume-:10:vlc").op, VolumeOp::Invalid);
    assert_eq!(op_from_code("6"), VolumeOp::Invalid);
    assert_eq!(op_from_code("05"), VolumeOp::ToggleMute);
}

#[test]
fn non_numeric_value_is_malformed() {
    assert_eq!(decode_cli("volume-0:abc").unwrap_err(), CoreError::MalformedEvent);
    assert_eq!(decode_cli("volume-0:1x:vlc").unwrap_err(), CoreError::MalformedEvent);
    assert_eq!(decode_cli("volume-0:").unwrap_err(), CoreError::MalformedEvent);
    assert_eq!(decode_cli("volume-0").unwrap_err(), CoreError::MalformedEvent);
    assert_eq!(decode_cli("volume-0:65536").unwrap_err(), CoreError::MalformedEvent);
    assert_eq!(decode_cli("volume-0:65535").unwrap().unwrap().value, 65535);
}

#[test]
fn text_without_prefix_is_ignored() {
    assert!(decode_cli("layer:2").unwrap().is_none());
    assert!(decode_cli("").unwrap().is_none());
    assert!(decode_cli("volume").unwrap().is_none());
}

#[test]
fn signals_are_classified() {
    let v = VolumeCommand { op: VolumeOp::Mute, value: 0, app: Some("vlc".to_string()) };
    let c = decode_signal(&Signal::Volume(v)).unwrap().unwrap();
    assert_eq!(c.op, VolumeOp::Mute);
    assert_eq!(c.app.as_deref(), Some("vlc"));
    let c = decode_signal(&Signal::Cli("volume-2:5".to_string())).unwrap().unwrap();
    assert_eq!(c.op, VolumeOp::Dec);
    assert_eq!(c.value, 5);
    assert!(decode_signal(&Signal::Layer(3)).unwrap().is_none());
    assert!(decode_signal(&Signal::Kll).unwrap().is_none());
    assert!(decode_signal(&Signal::HostMacro).unwrap().is_none());
    assert!(decode_signal(&Signal::Manufacturing).unwrap().is_none());
    assert!(decode_signal(&Signal::Unsupported).unwrap().is_none());
}

#[test]
fn layer_number_is_read_from_second_field() {
    assert_eq!(handle_layer_event("layer:3"), Some(3));
    assert_eq!(handle_layer_event("layer:12:extra"), Some(12));
    assert_eq!(handle_layer_event("layer:300"), None);
    assert_eq!(handle_layer_event("layer:x"), None);
    assert_eq!(handle_layer_event("layer"), None);
}

#[test]
fn decimal_numbers() {
    assert_eq!(parse_decimal("0", 10), Some(0));
    assert_eq!(parse_decimal("4294967295", u32::MAX), Some(u32::MAX));
    assert_eq!(parse_decimal("4294967296", u32::MAX), None);
    assert_eq!(parse_decimal("11", 10), None);
    assert_eq!(parse_decimal("", 10), None);
    assert_eq!(parse_decimal("+1", 10), None);
    assert_eq!(decimal_string(0), "0");
    assert_eq!(decimal_string(42), "42");
    assert_eq!(decimal_string(u32::MAX), "4294967295");
}

#[test]
fn substring_search() {
    assert!(str_contains("firefox-bin", "firefox"));
    assert!(str_contains("firefox", ""));
    assert!(str_contains("firefox", "fox"));
    assert!(!str_contains("fire", "firefox"));
    assert!(!str_contains("Firefox", "firefox"));
    assert!(str_eq("vlc", "vlc"));
    assert!(!str_eq("vlc", "vl"));
}
