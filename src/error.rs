use vstd::prelude::*;

verus! {

/// What can go wrong inside the library.
#[derive(Debug, Clone, Copy, PartialEq, Eq, Structural)]
pub enum Error {
    /// A well-framed request whose fields are missing or have the wrong length.
    CorruptedMessage,
    /// A stored record that fails structural validation.
    CorruptedStorage,
    /// A write to a content-addressed slot that is already occupied.
    HashCollision,
    /// A reply that reports a failure on the server, or that does not have the expected shape.
    ServerError,
    /// A key could not be parsed or a signature could not be made or checked.
    CryptoError,
}

} // verus!
