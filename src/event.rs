//! Classification of inbound keyboard signals and decoding of the volume
//! text protocol carried in terminal output:
//! `volume-<code>:<value>[:<app>]`.

use vstd::prelude::*;
use vstd::string::*;

use crate::error::CoreError;
use crate::text::{
    decimal_number, decimal_of, find_char, lacks, lemma_decimal_number_of,
    lemma_split_once_join, lemma_split_once_none, parse_decimal, split_once, starts_with,
};
use crate::volume::{clone_opt_string, opt_view, VolumeCommand, VolumeCommandView, VolumeOp};

verus! {

/// The text that opens a volume command in terminal output.
pub open spec fn volume_prefix() -> Seq<char> {
    seq!['v', 'o', 'l', 'u', 'm', 'e', '-']
}

/// The operation that a command number names: 0 to 5 name set, increase,
/// decrease, mute, unmute and toggle.
pub open spec fn op_of_number(n: nat) -> VolumeOp {
    if n == 0 {
        VolumeOp::SetLevel
    } else if n == 1 {
        VolumeOp::Inc
    } else if n == 2 {
        VolumeOp::Dec
    } else if n == 3 {
        VolumeOp::Mute
    } else if n == 4 {
        VolumeOp::UnMute
    } else if n == 5 {
        VolumeOp::ToggleMute
    } else {
        VolumeOp::Invalid
    }
}

/// The operation that a command code names: a decimal number from 0 to 5,
/// anything else naming no operation.
pub open spec fn op_of_code(code: Seq<char>) -> VolumeOp {
    match decimal_number(code, 5) {
        Some(n) => op_of_number(n),
        None => VolumeOp::Invalid,
    }
}

/// An application field names an application only when it is not empty.
pub open spec fn app_of_field(f: Option<Seq<char>>) -> Option<Seq<char>> {
    match f {
        Some(a) => if a.len() > 0 {
            Some(a)
        } else {
            None
        },
        None => None,
    }
}

/// Decoding of the fields after the prefix: `<code>:<value>[:<app>]`.
pub open spec fn decode_fields(rest: Seq<char>) -> Result<Option<VolumeCommandView>, CoreError> {
    match split_once(rest, ':').1 {
        None => Err(CoreError::MalformedEvent),
        Some(after) => {
            let code = split_once(rest, ':').0;
            let value_field = split_once(after, ':').0;
            let app_field = split_once(after, ':').1;
            match decimal_number(value_field, 0xffff) {
                None => Err(CoreError::MalformedEvent),
                Some(v) => Ok(
                    Some(
                        VolumeCommandView {
                            op: op_of_code(code),
                            value: v as u16,
                            app: app_of_field(app_field),
                        },
                    ),
                ),
            }
        },
    }
}

/// Decoding of one line of terminal output: text without the volume prefix
/// is no command (`Ok(None)`).
pub open spec fn decode_cli_spec(t: Seq<char>) -> Result<Option<VolumeCommandView>, CoreError> {
    let p = volume_prefix();
    if p.len() <= t.len() && t.subrange(0, p.len() as int) == p {
        decode_fields(t.subrange(p.len() as int, t.len() as int))
    } else {
        Ok(None)
    }
}

/// The view of a decoding result.
pub open spec fn decoded_view(r: Result<Option<VolumeCommand>, CoreError>) -> Result<
    Option<VolumeCommandView>,
    CoreError,
> {
    match r {
        Ok(Some(c)) => Ok(Some(c@)),
        Ok(None) => Ok(None),
        Err(e) => Err(e),
    }
}

/// The operation named by a command code.
pub fn op_from_code(code: &str) -> (r: VolumeOp)
    ensures
        r == op_of_code(code@),
{
    match parse_decimal(code, 5) {
        Some(0) => VolumeOp::SetLevel,
        Some(1) => VolumeOp::Inc,
        Some(2) => VolumeOp::Dec,
        Some(3) => VolumeOp::Mute,
        Some(4) => VolumeOp::UnMute,
        Some(5) => VolumeOp::ToggleMute,
        _ => VolumeOp::Invalid,
    }
}

/// Splits `s` at its first `c`.
fn split_at_char<'a>(s: &'a str, c: char) -> (r: (&'a str, Option<&'a str>))
    ensures
        r.0@ == split_once(s@, c).0,
        match r.1 {
            Some(a) => split_once(s@, c).1 == Some(a@),
            None => split_once(s@, c).1 is None,
        },
{
    let n = s.unicode_len();
    match find_char(s, c) {
        Some(k) => (s.substring_char(0, k), Some(s.substring_char(k + 1, n))),
        None => (s, None),
    }
}

/// Decodes one line of terminal output into a volume command. Text that
/// does not open with `volume-` is no command; a command without a value
/// field, or whose value is not a decimal number of 16 bits, is malformed.
pub fn decode_cli(text: &str) -> (r: Result<Option<VolumeCommand>, CoreError>)
    ensures
        decoded_view(r) == decode_cli_spec(text@),
{
    let prefix = "volume-";
    proof {
        reveal_strlit("volume-");
    }
    assert(prefix@ =~= volume_prefix());
    if !starts_with(text, prefix) {
        return Ok(None);
    }
    let rest = text.substring_char(prefix.unicode_len(), text.unicode_len());
    let (code, after) = split_at_char(rest, ':');
    match after {
        None => Err(CoreError::MalformedEvent),
        Some(after) => {
            let (value_field, app_field) = split_at_char(after, ':');
            match parse_decimal(value_field, 0xffff) {
                None => Err(CoreError::MalformedEvent),
                Some(v) => {
                    let app = match app_field {
                        Some(a) => if a.unicode_len() > 0 {
                            Some(String::from_str(a))
                        } else {
                            None
                        },
                        None => None,
                    };
                    Ok(Some(VolumeCommand { op: op_from_code(code), value: v as u16, app }))
                },
            }
        },
    }
}

proof fn lemma_strip_prefix(rest: Seq<char>)
    ensures
        decode_cli_spec(volume_prefix() + rest) == decode_fields(rest),
{
    let t = volume_prefix() + rest;
    assert(t.subrange(0, 7) =~= volume_prefix());
    assert(t.subrange(7, t.len() as int) =~= rest);
}

/// Every supported command code, with any 16-bit value and no application
/// field, decodes to its operation and that value, with no application.
pub proof fn lemma_decode_code_and_value(code: nat, value: u16)
    requires
        code <= 5,
    ensures
        decode_cli_spec(
            volume_prefix() + decimal_of(code) + seq![':'] + decimal_of(value as nat),
        ) == Ok::<Option<VolumeCommandView>, CoreError>(
            Some(VolumeCommandView { op: op_of_number(code), value, app: None }),
        ),
{
    let c = decimal_of(code);
    let v = decimal_of(value as nat);
    lemma_decimal_number_of(code, 5);
    lemma_decimal_number_of(value as nat, 0xffff);
    crate::text::lemma_decimal_round_trip(code);
    crate::text::lemma_decimal_round_trip(value as nat);
    let rest = c + seq![':'] + v;
    assert(volume_prefix() + c + seq![':'] + v =~= volume_prefix() + rest);
    lemma_strip_prefix(rest);
    lemma_split_once_join(c, ':', v);
    lemma_split_once_none(v, ':');
}

/// In a command of three fields whose code holds no `:` and whose value is
/// a decimal number of 16 bits, a non-empty application field is decoded
/// as the target application exactly, whatever it holds.
pub proof fn lemma_decode_app(code: Seq<char>, value: Seq<char>, app: Seq<char>)
    requires
        lacks(code, ':'),
        decimal_number(value, 0xffff) is Some,
        app.len() > 0,
    ensures
        decode_cli_spec(volume_prefix() + code + seq![':'] + value + seq![':'] + app)
            matches Ok(Some(c)) && c.app == Some(app) && c.op == op_of_code(code),
{
    let after = value + seq![':'] + app;
    let rest = code + seq![':'] + after;
    assert(volume_prefix() + code + seq![':'] + value + seq![':'] + app =~= volume_prefix()
        + rest);
    lemma_strip_prefix(rest);
    lemma_split_once_join(code, ':', after);
    assert(lacks(value, ':')) by {
        assert forall|i: int| 0 <= i < value.len() implies value[i] != ':' by {
            assert(crate::text::is_digit(value[i]));
        }
    }
    lemma_split_once_join(value, ':', app);
}

/// A code that names no operation decodes to `Invalid`, not to a failure:
/// with or without an application field.
pub proof fn lemma_decode_unknown_code(code: Seq<char>, value: Seq<char>, tail: Seq<char>)
    requires
        lacks(code, ':'),
        decimal_number(code, 5) is None,
        lacks(value, ':'),
        decimal_number(value, 0xffff) is Some,
        tail.len() == 0 || tail[0] == ':',
    ensures
        decode_cli_spec(volume_prefix() + code + seq![':'] + value + tail) matches Ok(Some(c))
            && c.op == VolumeOp::Invalid,
{
    lemma_decode_shape(code, value, tail);
}

/// A value field that is not a decimal number of 16 bits makes the command
/// malformed, with or without an application field.
pub proof fn lemma_decode_bad_value(code: Seq<char>, value: Seq<char>, tail: Seq<char>)
    requires
        lacks(code, ':'),
        lacks(value, ':'),
        decimal_number(value, 0xffff) is None,
        tail.len() == 0 || tail[0] == ':',
    ensures
        decode_cli_spec(volume_prefix() + code + seq![':'] + value + tail) == Err::<
            Option<VolumeCommandView>,
            CoreError,
        >(CoreError::MalformedEvent),
{
    lemma_decode_shape(code, value, tail);
}

/// How a command's fields are found when the code and value hold no `:`.
proof fn lemma_decode_shape(code: Seq<char>, value: Seq<char>, tail: Seq<char>)
    requires
        lacks(code, ':'),
        lacks(value, ':'),
        tail.len() == 0 || tail[0] == ':',
    ensures
        decode_cli_spec(volume_prefix() + code + seq![':'] + value + tail) == decode_fields(
            code + seq![':'] + value + tail,
        ),
        split_once(code + seq![':'] + value + tail, ':') == (code, Some(value + tail)),
        split_once(value + tail, ':').0 == value,
{
    let after = value + tail;
    let rest = code + seq![':'] + after;
    assert(volume_prefix() + code + seq![':'] + value + tail =~= volume_prefix() + rest);
    assert(code + seq![':'] + value + tail =~= rest);
    lemma_strip_prefix(rest);
    lemma_split_once_join(code, ':', after);
    if tail.len() == 0 {
        assert(after =~= value);
        lemma_split_once_none(value, ':');
    } else {
        let app = tail.subrange(1, tail.len() as int);
        assert(after =~= value + seq![':'] + app);
        lemma_split_once_join(value, ':', app);
    }
}

/// One inbound signal pushed by the device service.
#[derive(Debug)]
pub enum Signal {
    /// An already structured volume command.
    Volume(VolumeCommand),
    /// A line of the keyboard's terminal output.
    Cli(String),
    /// A key trigger report.
    Kll,
    /// The active layer changed.
    Layer(u16),
    /// A host macro fired.
    HostMacro,
    /// A manufacturing test result.
    Manufacturing,
    /// A signal kind this client does not handle.
    Unsupported,
}

/// What a signal asks of the volume router: a command, or nothing.
pub open spec fn decode_signal_spec(sig: Signal) -> Result<Option<VolumeCommandView>, CoreError> {
    match sig {
        Signal::Volume(c) => Ok(Some(c@)),
        Signal::Cli(t) => decode_cli_spec(t@),
        _ => Ok(None),
    }
}

/// Classifies a signal: a volume signal passes its command through, terminal
/// output is decoded, and every other kind carries no volume command.
pub fn decode_signal(sig: &Signal) -> (r: Result<Option<VolumeCommand>, CoreError>)
    ensures
        decoded_view(r) == decode_signal_spec(*sig),
{
    match sig {
        Signal::Volume(c) => Ok(Some(c.duplicate())),
        Signal::Cli(t) => decode_cli(t.as_str()),
        _ => Ok(None),
    }
}

/// The layer that a line `<tag>:<layer>[:...]` reports.
pub open spec fn layer_of(out: Seq<char>) -> Option<u8> {
    match split_once(out, ':').1 {
        Some(rest) => match decimal_number(split_once(rest, ':').0, 0xff) {
            Some(v) => Some(v as u8),
            None => None,
        },
        None => None,
    }
}

/// Reads the layer number from the second `:`-separated field of a line of
/// terminal output; `None` where there is no such field or it is not a
/// number of 8 bits.
pub fn handle_layer_event(out: &str) -> (r: Option<u8>)
    ensures
        r == layer_of(out@),
{
    let (_tag, rest) = split_at_char(out, ':');
    match rest {
        Some(rest) => {
            let (field, _more) = split_at_char(rest, ':');
            match parse_decimal(field, 0xff) {
                Some(v) => Some(v as u8),
                None => None,
            }
        },
        None => None,
    }
}

} // verus!
