//! Keyboard event client core: decodes control events pushed by a keyboard
//! device service, routes volume commands to audio streams, and keeps the
//! device subscription alive across service restarts.

use vstd::prelude::*;

pub mod error;
pub mod event;
pub mod gui;
pub mod handler;
pub mod pactl;
pub mod routing;
pub mod session;
pub mod text;
pub mod volume;
