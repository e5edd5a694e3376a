//! Application settings and shell profiles.
pub mod keeping;
pub mod loading;
pub mod measure;
pub mod profiles;
pub mod settings;
