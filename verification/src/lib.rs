//! A verified core for an on-screen virtual keyboard that runs inside a
//! terminal and drives a terminal multiplexer pane.
//!
//! The library contains the parts with real design content: the declarative
//! layout engine that turns placement directives into positioned key
//! rectangles, the per-key press/modifier state machine with sticky
//! ("one-shot") modifier semantics, the input router and hit-testing, the
//! renderer that turns key state into a frame of styled cells, and the
//! line-oriented control-protocol client logic used to drive the multiplexer.
//!
//! Terminal device I/O, configuration-file parsing and process spawning are
//! external collaborators; a host program performs them and exchanges plain
//! values with this library.

pub mod channel;
pub mod diagnostics;
pub mod geometry;
pub mod keycode;
pub mod layout;
pub mod preview;
pub mod render;
pub mod router;
pub mod state;
pub mod text;
