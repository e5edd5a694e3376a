//! Matcha: the verified core of a native terminal workstation.
pub mod config;
pub mod context;
pub mod identity;
pub mod pty;
pub mod sequences;
pub mod terminal;
pub mod text;
pub mod ui;
