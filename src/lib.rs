//! Bit-exact codec for a 16-byte security/offload packet header, with the
//! small parsers and helpers that surround it.

pub mod flags;
pub mod header;
pub mod builder;
pub mod number;
pub mod text;
pub mod config;
pub mod devmem;
pub mod dns;
pub mod tar;
pub mod splitter;
pub mod mailbox;
pub mod custom_error;
pub mod dissect;
pub mod encap;
