//! The persona: its configuration, the system preamble, the trailing rules and the
//! clock element.

pub mod config;
pub mod preamble;
pub mod preamble_laws;
pub mod suffix;
pub mod suffix_laws;
pub mod timezone;
pub mod timezone_laws;
