//! The messages that the header is made of, as they stand on the wire.

pub mod metadata;
