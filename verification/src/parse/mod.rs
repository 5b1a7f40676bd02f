//! Decoders for protocols seen on the wire.

pub mod dns;
