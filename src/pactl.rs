//! Records of the audio server's inventory (client processes and playback
//! streams) and the audio-server command lines that act on a stream or on
//! the default output.

use vstd::prelude::*;
use vstd::string::*;

use crate::text::{decimal_of, decimal_string, push_decimal, str_eq};

verus! {

/// One process connected to the audio server.
#[derive(Debug)]
pub struct PactlClient {
    pub index: u32,
    pub driver: String,
    pub application_process_binary: String,
}

pub struct ClientView {
    pub index: u32,
    pub driver: Seq<char>,
    pub binary: Seq<char>,
}

impl View for PactlClient {
    type V = ClientView;

    open spec fn view(&self) -> ClientView {
        ClientView {
            index: self.index,
            driver: self.driver@,
            binary: self.application_process_binary@,
        }
    }
}

impl Clone for PactlClient {
    fn clone(&self) -> (r: Self)
        ensures
            r@ == self@,
    {
        PactlClient {
            index: self.index,
            driver: self.driver.clone(),
            application_process_binary: self.application_process_binary.clone(),
        }
    }
}

/// A playback stream as the audio server lists it, with a numeric index.
#[derive(Debug)]
pub struct PactlJSONInput {
    pub index: u32,
    pub sink: u32,
    pub client: String,
}

impl Clone for PactlJSONInput {
    fn clone(&self) -> (r: Self)
        ensures
            r.index == self.index,
            r.sink == self.sink,
            r.client@ == self.client@,
    {
        PactlJSONInput { index: self.index, sink: self.sink, client: self.client.clone() }
    }
}

/// A playback stream: its index, the output device it plays on, and the
/// index of the client that owns it, in decimal. An empty index stands for
/// the system's default output.
#[derive(Debug)]
pub struct PactlInput {
    pub index: String,
    pub sink: u32,
    pub client: String,
}

pub struct InputView {
    pub index: Seq<char>,
    pub sink: u32,
    pub client: Seq<char>,
}

impl View for PactlInput {
    type V = InputView;

    open spec fn view(&self) -> InputView {
        InputView { index: self.index@, sink: self.sink, client: self.client@ }
    }
}

impl Clone for PactlInput {
    fn clone(&self) -> (r: Self)
        ensures
            r@ == self@,
    {
        PactlInput { index: self.index.clone(), sink: self.sink, client: self.client.clone() }
    }
}

pub open spec fn clients_view(s: Seq<PactlClient>) -> Seq<ClientView> {
    s.map_values(|c: PactlClient| c@)
}

pub open spec fn inputs_view(s: Seq<PactlInput>) -> Seq<InputView> {
    s.map_values(|i: PactlInput| i@)
}

/// The target that stands for the default output.
pub open spec fn default_input() -> InputView {
    InputView { index: Seq::empty(), sink: 0, client: Seq::empty() }
}

impl PactlJSONInput {
    /// The stream with its index written in decimal.
    pub fn to_input(&self) -> (r: PactlInput)
        ensures
            r@ == (InputView {
                index: decimal_of(self.index as nat),
                sink: self.sink,
                client: self.client@,
            }),
    {
        PactlInput { index: decimal_string(self.index), sink: self.sink, client: self.client.clone() }
    }
}

/// One invocation of the audio server's command-line tool, by its
/// arguments.
#[derive(Debug)]
pub struct PactlCommand {
    pub args: Vec<String>,
}

impl View for PactlCommand {
    type V = Seq<Seq<char>>;

    open spec fn view(&self) -> Seq<Seq<char>> {
        self.args@.map_values(|a: String| a@)
    }
}

/// The name by which the audio server knows the default output.
pub open spec fn default_sink() -> Seq<char> {
    "@DEFAULT_SINK@"@
}

/// The arguments that change the volume of a target by `amount`.
pub open spec fn volume_args(index: Seq<char>, amount: Seq<char>) -> Seq<Seq<char>> {
    if index.len() == 0 {
        seq!["set-sink-volume"@, default_sink(), amount]
    } else {
        seq!["set-sink-input-volume"@, index, amount]
    }
}

/// A volume amount: the sign prefix, the percentage, and `%`.
pub open spec fn amount_of(prefix: Seq<char>, volume: nat) -> Seq<char> {
    prefix + decimal_of(volume) + seq!['%']
}

/// The arguments that set the mute state of a target to `setting`.
pub open spec fn mute_args(index: Seq<char>, setting: Seq<char>) -> Seq<Seq<char>> {
    if index.len() == 0 {
        seq!["set-sink-mute"@, default_sink(), setting]
    } else {
        seq!["set-sink-input-mute"@, index, setting]
    }
}

pub open spec fn mute_on() -> Seq<char> {
    "1"@
}

pub open spec fn mute_off() -> Seq<char> {
    "0"@
}

pub open spec fn mute_toggle() -> Seq<char> {
    "toggle"@
}

fn command3(a: &str, b: &str, c: &str) -> (r: PactlCommand)
    ensures
        r@ == seq![a@, b@, c@],
{
    let mut args: Vec<String> = Vec::new();
    args.push(String::from_str(a));
    args.push(String::from_str(b));
    args.push(String::from_str(c));
    assert(args@.map_values(|s: String| s@) =~= seq![a@, b@, c@]);
    PactlCommand { args }
}

impl PactlInput {
    /// The target that stands for the system's default output.
    pub fn default() -> (r: Self)
        ensures
            r@ == default_input(),
    {
        let r = PactlInput { index: String::new(), sink: 0, client: String::new() };
        assert(r@.index =~= Seq::<char>::empty());
        r
    }

    fn mute_command(&self, setting: &str) -> (r: PactlCommand)
        ensures
            r@ == mute_args(self.index@, setting@),
    {
        if self.index.as_str().unicode_len() == 0 {
            command3("set-sink-mute", "@DEFAULT_SINK@", setting)
        } else {
            command3("set-sink-input-mute", self.index.as_str(), setting)
        }
    }

    /// The command that changes this target's volume: to `volume` percent
    /// where `prefix` is empty, up or down by it where `prefix` is `+` or
    /// `-`.
    pub fn volume(&self, prefix: &str, volume: u32) -> (r: PactlCommand)
        ensures
            r@ == volume_args(self.index@, amount_of(prefix@, volume as nat)),
    {
        let mut amount = String::from_str(prefix);
        push_decimal(&mut amount, volume);
        amount.append("%");
        proof {
            reveal_strlit("%");
        }
        assert(amount@ =~= amount_of(prefix@, volume as nat));
        if self.index.as_str().unicode_len() == 0 {
            command3("set-sink-volume", "@DEFAULT_SINK@", amount.as_str())
        } else {
            command3("set-sink-input-volume", self.index.as_str(), amount.as_str())
        }
    }

    /// The command that mutes this target.
    pub fn mute(&self) -> (r: PactlCommand)
        ensures
            r@ == mute_args(self.index@, mute_on()),
    {
        self.mute_command("1")
    }

    /// The command that unmutes this target.
    pub fn unmute(&self) -> (r: PactlCommand)
        ensures
            r@ == mute_args(self.index@, mute_off()),
    {
        self.mute_command("0")
    }

    /// The command that flips this target's mute state.
    pub fn toggle_mute(&self) -> (r: PactlCommand)
        ensures
            r@ == mute_args(self.index@, mute_toggle()),
    {
        self.mute_command("toggle")
    }
}

/// The mute state of a target after the audio server has run `args` on it,
/// given its state before: a mute command sets it, an unmute command clears
/// it, a toggle flips it; any other command leaves it.
pub open spec fn muted_after(args: Seq<Seq<char>>, was_muted: bool) -> bool {
    if args.len() == 3 && (args[0] == "set-sink-mute"@ || args[0] == "set-sink-input-mute"@) {
        if args[2] == mute_on() {
            true
        } else if args[2] == mute_off() {
            false
        } else if args[2] == mute_toggle() {
            !was_muted
        } else {
            was_muted
        }
    } else {
        was_muted
    }
}

/// The mute state that running `cmd` leaves a target in, given its state
/// before.
pub fn mute_state_after(cmd: &PactlCommand, was_muted: bool) -> (r: bool)
    ensures
        r == muted_after(cmd@, was_muted),
{
    if cmd.args.len() != 3 {
        return was_muted;
    }
    let verb = cmd.args[0].as_str();
    let setting = cmd.args[2].as_str();
    assert(cmd@[0] == verb@ && cmd@[2] == setting@);
    if !(str_eq(verb, "set-sink-mute") || str_eq(verb, "set-sink-input-mute")) {
        return was_muted;
    }
    if str_eq(setting, "1") {
        true
    } else if str_eq(setting, "0") {
        false
    } else if str_eq(setting, "toggle") {
        !was_muted
    } else {
        was_muted
    }
}

proof fn lemma_settings_distinct()
    ensures
        mute_on() != mute_off(),
        mute_on() != mute_toggle(),
        mute_off() != mute_toggle(),
        "set-sink-mute"@ != "set-sink-volume"@,
        "set-sink-input-mute"@ != "set-sink-volume"@,
        "set-sink-mute"@ != "set-sink-input-volume"@,
        "set-sink-input-mute"@ != "set-sink-input-volume"@,
{
    reveal_strlit("1");
    reveal_strlit("0");
    reveal_strlit("toggle");
    reveal_strlit("set-sink-mute");
    reveal_strlit("set-sink-input-mute");
    reveal_strlit("set-sink-volume");
    reveal_strlit("set-sink-input-volume");
    assert(mute_on()[0] != mute_off()[0]);
    assert(mute_on().len() != mute_toggle().len());
    assert(mute_off().len() != mute_toggle().len());
    assert("set-sink-mute"@[9] != "set-sink-volume"@[9]);
    assert("set-sink-input-mute"@[15] != "set-sink-input-volume"@[15]);
    assert("set-sink-mute"@.len() != "set-sink-input-volume"@.len());
    assert("set-sink-input-mute"@.len() != "set-sink-volume"@.len());
}

/// Muting is idempotent: a muted target stays muted however often the mute
/// command runs, and any target is muted after it.
pub proof fn lemma_mute_idempotent(target: InputView, was_muted: bool)
    ensures
        muted_after(mute_args(target.index, mute_on()), was_muted),
        muted_after(
            mute_args(target.index, mute_on()),
            muted_after(mute_args(target.index, mute_on()), was_muted),
        ),
{
    lemma_settings_distinct();
}

/// Toggling alternates: each toggle flips the state, so two toggles give
/// back the state before.
pub proof fn lemma_toggle_alternates(target: InputView, was_muted: bool)
    ensures
        muted_after(mute_args(target.index, mute_toggle()), was_muted) == !was_muted,
        muted_after(
            mute_args(target.index, mute_toggle()),
            muted_after(mute_args(target.index, mute_toggle()), was_muted),
        ) == was_muted,
{
    lemma_settings_distinct();
}

/// A volume command leaves the mute state as it was.
pub proof fn lemma_volume_keeps_mute(target: InputView, amount: Seq<char>, was_muted: bool)
    ensures
        muted_after(volume_args(target.index, amount), was_muted) == was_muted,
{
    lemma_settings_distinct();
}

} // verus!
