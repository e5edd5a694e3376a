//! The decisions of the user interface.
pub mod fonts;
pub mod glyphs;
pub mod keys;
pub mod locale;
pub mod patch;
pub mod pointer;
pub mod profiles;
pub mod runs;
pub mod session;
pub mod strings;
pub mod theme;
pub mod view;
