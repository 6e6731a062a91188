//! Handling of inbound signals: volume commands become audio-server
//! command lines for the routed targets, layer changes are queued for a
//! display.

use vstd::prelude::*;

use crate::error::CoreError;
use crate::event::{decode_signal, decode_signal_spec, decoded_view, Signal};
use crate::pactl::{
    amount_of, clients_view, inputs_view, mute_args, mute_off, mute_on, mute_toggle, volume_args,
    InputView, PactlClient, PactlCommand, PactlInput,
};
use crate::routing::{opt_str_view, resolve, resolve_spec};
use crate::volume::{VolumeCommand, VolumeOp};

verus! {

/// The command line that carries out `op` with percentage `vol` on target
/// `t`.
pub open spec fn command_for(op: VolumeOp, vol: u16, t: InputView) -> Seq<Seq<char>> {
    match op {
        VolumeOp::SetLevel => volume_args(t.index, amount_of(""@, vol as nat)),
        VolumeOp::Inc => volume_args(t.index, amount_of("+"@, vol as nat)),
        VolumeOp::Dec => volume_args(t.index, amount_of("-"@, vol as nat)),
        VolumeOp::Mute => mute_args(t.index, mute_on()),
        VolumeOp::UnMute => mute_args(t.index, mute_off()),
        VolumeOp::ToggleMute => mute_args(t.index, mute_toggle()),
        VolumeOp::Invalid => Seq::empty(),
    }
}

/// The command lines for `op` on each target in turn; none for an invalid
/// operation.
pub open spec fn plan_spec(op: VolumeOp, vol: u16, targets: Seq<InputView>) -> Seq<Seq<Seq<char>>> {
    if op == VolumeOp::Invalid {
        Seq::empty()
    } else {
        targets.map_values(|t: InputView| command_for(op, vol, t))
    }
}

pub open spec fn commands_view(s: Seq<PactlCommand>) -> Seq<Seq<Seq<char>>> {
    s.map_values(|c: PactlCommand| c@)
}

fn command_exec(op: VolumeOp, vol: u16, t: &PactlInput) -> (r: PactlCommand)
    requires
        op != VolumeOp::Invalid,
    ensures
        r@ == command_for(op, vol, t@),
{
    match op {
        VolumeOp::SetLevel => t.volume("", vol as u32),
        VolumeOp::Inc => t.volume("+", vol as u32),
        VolumeOp::Dec => t.volume("-", vol as u32),
        VolumeOp::Mute => t.mute(),
        VolumeOp::UnMute => t.unmute(),
        _ => t.toggle_mute(),
    }
}

/// The audio-server command lines that carry out volume command `cmd` with
/// percentage `vol` for application `app` (or the default output), given
/// the server's current clients and streams: one per routed target, in
/// routing order; none for an invalid command.
pub fn handle_volume(
    cmd: VolumeOp,
    vol: u16,
    app: Option<&str>,
    clients: &Vec<PactlClient>,
    inputs: &Vec<PactlInput>,
) -> (r: Vec<PactlCommand>)
    ensures
        commands_view(r@) == plan_spec(
            cmd,
            vol,
            resolve_spec(opt_str_view(app), clients_view(clients@), inputs_view(inputs@)),
        ),
{
    let mut out: Vec<PactlCommand> = Vec::new();
    if cmd == VolumeOp::Invalid {
        assert(commands_view(out@) =~= Seq::<Seq<Seq<char>>>::empty());
        return out;
    }
    let targets = resolve(app, clients, inputs);
    let ghost tv = inputs_view(targets@);
    let mut i: usize = 0;
    while i < targets.len()
        invariant
            0 <= i <= targets.len(),
            cmd != VolumeOp::Invalid,
            tv == inputs_view(targets@),
            commands_view(out@) == tv.subrange(0, i as int).map_values(
                |t: InputView| command_for(cmd, vol, t),
            ),
        decreases targets.len() - i,
    {
        let ghost before = commands_view(out@);
        let c = command_exec(cmd, vol, &targets[i]);
        out.push(c);
        assert(tv[i as int] == targets@[i as int]@);
        assert(commands_view(out@) =~= before.push(c@));
        assert(commands_view(out@) =~= tv.subrange(0, i + 1).map_values(
            |t: InputView| command_for(cmd, vol, t),
        ));
        i = i + 1;
    }
    assert(tv.subrange(0, targets.len() as int) =~= tv);
    out
}

/// A notice for a display.
#[derive(Clone, Copy, Debug, PartialEq, Eq, Structural)]
pub enum MSG {
    Layer(u16),
    Volume(u16),
}

/// How many notices wait for a display at most: further ones are dropped
/// until the queue is taken.
pub const QUEUE_CAPACITY: usize = 10;

/// The receiver of a subscription's signals: decodes each signal and queues
/// layer changes, up to `QUEUE_CAPACITY` of them, for a display.
pub struct KeyboardSubscriberImpl {
    queue: Vec<MSG>,
}

/// The queue after a signal arrives: a layer change joins it while there is
/// room; anything else leaves it.
pub open spec fn queue_after(q: Seq<MSG>, sig: Signal) -> Seq<MSG> {
    match sig {
        Signal::Layer(l) => if q.len() < QUEUE_CAPACITY {
            q.push(MSG::Layer(l))
        } else {
            q
        },
        _ => q,
    }
}

impl Default for KeyboardSubscriberImpl {
    fn default() -> (r: Self)
        ensures
            r.queued().len() == 0,
    {
        KeyboardSubscriberImpl { queue: Vec::new() }
    }
}

impl KeyboardSubscriberImpl {
    /// The notices waiting for a display, oldest first.
    pub closed spec fn queued(&self) -> Seq<MSG> {
        self.queue@
    }

    pub fn new() -> (r: Self)
        ensures
            r.queued().len() == 0,
    {
        KeyboardSubscriberImpl { queue: Vec::new() }
    }

    /// Takes one signal: returns the volume command it carries, if any (or
    /// the decoding failure), and queues it if it reports a layer change.
    pub fn update(&mut self, signal: &Signal) -> (r: Result<Option<VolumeCommand>, CoreError>)
        ensures
            decoded_view(r) == decode_signal_spec(*signal),
            final(self).queued() == queue_after(old(self).queued(), *signal),
    {
        if let Signal::Layer(l) = signal {
            if self.queue.len() < QUEUE_CAPACITY {
                self.queue.push(MSG::Layer(*l));
            }
        }
        decode_signal(signal)
    }

    /// Hands out the queued notices, oldest first, and empties the queue.
    pub fn take_messages(&mut self) -> (r: Vec<MSG>)
        ensures
            r@ == old(self).queued(),
            final(self).queued().len() == 0,
    {
        let mut r: Vec<MSG> = Vec::new();
        core::mem::swap(&mut r, &mut self.queue);
        r
    }
}

/// The queue never holds more than `QUEUE_CAPACITY` notices.
pub proof fn lemma_queue_bounded(q: Seq<MSG>, sig: Signal)
    requires
        q.len() <= QUEUE_CAPACITY,
    ensures
        queue_after(q, sig).len() <= QUEUE_CAPACITY,
{
}

} // verus!
