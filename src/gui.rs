//! The state of the counter window: a counter moved by keys, and the last
//! layer and volume reported by the keyboard.

use vstd::prelude::*;

use crate::handler::MSG;

verus! {

/// The state of the worker that forwards keyboard notices to the window.
#[derive(Debug, Clone, Copy, PartialEq, Eq, Structural)]
pub enum Conn {
    /// The channel is not set up yet.
    Loading,
    /// Notices are being forwarded.
    Loaded,
}

/// What the window reacts to.
#[derive(Debug, Clone, Copy, PartialEq, Eq, Structural)]
pub enum Message {
    Increment,
    Decrement,
    Layer(u16),
    Volume(u16),
    /// Nothing to show.
    NAN,
}

/// The window's state.
#[derive(Debug)]
pub struct HidIoGui {
    pub count: u32,
    pub layer: u16,
    pub volume: u16,
}

/// The window's state after `m`: the counter moves by one and stops at its
/// bounds; layer and volume notices replace the values shown.
pub open spec fn gui_after(g: HidIoGui, m: Message) -> HidIoGui {
    match m {
        Message::Increment => HidIoGui {
            count: if g.count < u32::MAX {
                (g.count + 1) as u32
            } else {
                g.count
            },
            ..g
        },
        Message::Decrement => HidIoGui {
            count: if g.count > 0 {
                (g.count - 1) as u32
            } else {
                g.count
            },
            ..g
        },
        Message::Layer(l) => HidIoGui { layer: l, ..g },
        Message::Volume(v) => HidIoGui { volume: v, ..g },
        Message::NAN => g,
    }
}

impl HidIoGui {
    pub fn new() -> (r: Self)
        ensures
            r.count == 0 && r.layer == 0 && r.volume == 0,
    {
        HidIoGui { count: 0, layer: 0, volume: 0 }
    }

    pub fn title(&self) -> (r: String)
        ensures
            r@ == "HID-IO GUI"@,
    {
        String::from_str("HID-IO GUI")
    }

    /// Applies one message.
    pub fn update(&mut self, message: Message)
        ensures
            *final(self) == gui_after(*old(self), message),
    {
        match message {
            Message::Increment => {
                if self.count != u32::MAX {
                    self.count = self.count + 1;
                }
            },
            Message::Decrement => {
                if self.count != 0 {
                    self.count = self.count - 1;
                }
            },
            Message::Layer(l) => {
                self.layer = l;
            },
            Message::Volume(v) => {
                self.volume = v;
            },
            Message::NAN => {},
        }
    }
}

/// One step of the forwarding worker: once set up it announces itself with
/// `NAN`; then each notice becomes the message that shows it.
pub fn conn_step(state: Conn, notice: Option<MSG>) -> (r: (Conn, Message))
    ensures
        r == (match state {
            Conn::Loading => (Conn::Loaded, Message::NAN),
            Conn::Loaded => match notice {
                Some(MSG::Layer(l)) => (Conn::Loaded, Message::Layer(l)),
                Some(MSG::Volume(v)) => (Conn::Loaded, Message::Volume(v)),
                None => (Conn::Loaded, Message::NAN),
            },
        }),
{
    match state {
        Conn::Loading => (Conn::Loaded, Message::NAN),
        Conn::Loaded => match notice {
            Some(MSG::Layer(l)) => (Conn::Loaded, Message::Layer(l)),
            Some(MSG::Volume(v)) => (Conn::Loaded, Message::Volume(v)),
            None => (Conn::Loaded, Message::NAN),
        },
    }
}

} // verus!
