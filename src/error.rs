use vstd::prelude::*;

verus! {

/// The ways in which an operation of the session layer fails.
#[derive(Debug, Clone, Copy, PartialEq, Eq, Structural)]
pub enum SessionError {
    /// A payload could not be serialized.
    Encoding,
    /// A payload could not be deserialized.
    Decoding,
    /// A key or nonce of the wrong length, or a tag that does not authenticate.
    Crypto,
    /// A snapshot that is absent or malformed.
    Persistence,
    /// The channel transport failed.
    Transport,
    /// An operation that the session's state does not allow.
    Protocol,
    /// A message id that the index never recorded.
    NotFound,
}

} // verus!
