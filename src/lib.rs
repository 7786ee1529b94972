//! A file-signing notary: a content-addressed store of users and signatures,
//! a hash-chained log of signatures, and the framed request protocol around it.

pub mod digest;
pub mod frame;
pub mod error;
pub mod record;
pub mod table;
pub mod storage;
pub mod invariants;
pub mod server;
pub mod client;
