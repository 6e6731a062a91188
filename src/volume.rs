//! Volume commands as decoded from keyboard events.

use vstd::prelude::*;

verus! {

/// What a volume command asks for.
#[derive(Debug, Clone, Copy, PartialEq, Eq, Structural)]
pub enum VolumeOp {
    /// Set the volume to an absolute percentage.
    SetLevel,
    /// Raise the volume by a percentage.
    Inc,
    /// Lower the volume by a percentage.
    Dec,
    Mute,
    UnMute,
    ToggleMute,
    /// A code that names no operation; such a command is dropped.
    Invalid,
}

/// A decoded volume command: an operation, a percentage (meaningful for
/// `Set`, `Inc` and `Dec`), and optionally the application whose streams it
/// targets.
#[derive(Debug)]
pub struct VolumeCommand {
    pub op: VolumeOp,
    pub value: u16,
    pub app: Option<String>,
}

pub struct VolumeCommandView {
    pub op: VolumeOp,
    pub value: u16,
    pub app: Option<Seq<char>>,
}

/// The view of an optional string.
pub open spec fn opt_view(s: Option<String>) -> Option<Seq<char>> {
    match s {
        Some(t) => Some(t@),
        None => None,
    }
}

impl View for VolumeCommand {
    type V = VolumeCommandView;

    open spec fn view(&self) -> VolumeCommandView {
        VolumeCommandView { op: self.op, value: self.value, app: opt_view(self.app) }
    }
}

pub fn clone_opt_string(s: &Option<String>) -> (r: Option<String>)
    ensures
        opt_view(r) == opt_view(*s),
{
    match s {
        Some(t) => Some(t.clone()),
        None => None,
    }
}

impl VolumeCommand {
    pub fn duplicate(&self) -> (r: VolumeCommand)
        ensures
            r@ == self@,
    {
        VolumeCommand { op: self.op, value: self.value, app: clone_opt_string(&self.app) }
    }
}

} // verus!
