//! A replaceable terminal-emulation boundary.
pub mod colors;
pub mod copying;
pub mod drawing;
pub mod emulator;
pub mod encoding;
pub mod excerpt;
pub mod findings;
pub mod frame;
pub mod input;
pub mod model;
pub mod search;
pub mod transitions;
pub mod types;
