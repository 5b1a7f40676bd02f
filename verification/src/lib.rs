//! Passive DNS decoding: wire-format messages in, structured values out.

pub mod options;
pub mod parse;

pub use crate::options::{log_filter, Options, OutputFormat, PacketSource};
