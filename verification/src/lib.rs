//! The logic of a screen magnifier for Wayland compositors.
//!
//! A background daemon grabs the output under the pointer once, and then shows
//! a cropped, scaled view of that one frame in a fullscreen overlay. This
//! crate holds everything the daemon decides and computes; the program around
//! it talks to the compositor and to the control socket.
//!
//! Commands and levels:
//! * [`zoom`]: zoom levels and their badge text.
//! * [`command`]: the control commands, their wire form and the socket path.
//!
//! Drawing:
//! * [`font`]: the 3x5 bitmap font of the badge.
//! * [`paint`]: blending and the badge, with its laws in [`paint_laws`].
//! * [`frame`]: frames sampled from the captured image.
//! * [`shm`]: the size of pixel buffers.
//!
//! The daemon:
//! * [`model`]: its state, the events that reach it and the actions it takes.
//! * [`transition`]: what it does about each event, as mathematics.
//! * [`session`]: the same, executable.
//! * [`event_laws`], [`overlay_laws`] and [`capture_laws`]: what each event comes
//!   to.
//! * [`session_laws`], [`draw_laws`] and [`object_laws`]: what holds whatever
//!   happens.
//! * [`spin`]: the guard against an event loop that makes no progress.

pub mod capture_laws;
pub mod command;
pub mod draw_laws;
pub mod event_laws;
pub mod font;
pub mod frame;
pub mod model;
pub mod object_laws;
pub mod overlay_laws;
pub mod paint;
pub mod paint_laws;
pub mod session;
pub mod session_laws;
pub mod shm;
pub mod spin;
pub mod transition;
pub mod zoom;

pub use command::socket_path;
pub use font::glyph;
pub use zoom::{MAX_ZOOM, MIN_ZOOM, ZOOM_STEP, ZOOM_UNIT};
