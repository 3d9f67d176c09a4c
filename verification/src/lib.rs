//! A terminal model: a grid of cells driven by the actions of an escape-sequence
//! parser, and the decisions around it (screen text, surface format, reader loop,
//! window events).

pub mod sgr;
pub mod palette;
pub mod terminal;
pub mod screen;
pub mod quads;
pub mod surface;
pub mod pty;
pub mod window;
