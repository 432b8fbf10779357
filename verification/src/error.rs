//! Why a call is refused.

use vstd::prelude::*;

verus! {

/// Which part of a submitted transaction could not be read.
#[derive(Clone, Copy, Debug, PartialEq, Eq, Structural)]
pub enum DecodeError {
    /// The envelope is not a well-formed message.
    MalformedEnvelope,
    /// The envelope carries no signature.
    MissingSignature,
    /// The authorization info, or its first signer entry, is not a
    /// well-formed message.
    MalformedAuthInfo,
    /// The authorization info names no signer.
    MissingSigner,
    /// The body, or one of its messages, is not a well-formed message.
    MalformedBody,
}

/// Why the account refuses a call. Every refusal leaves the signer record
/// as it was.
#[derive(Clone, Copy, Debug, PartialEq, Eq, Structural)]
pub enum ContractError {
    /// The submitted bytes could not be read.
    Decode(DecodeError),
    /// The key's type is not one that the account can verify with.
    UnsupportedKeyType,
    /// The first signature does not verify under the stored key.
    SignatureVerificationFailed,
    /// The sequence that the transaction declares is not the stored one.
    InvalidNonce { expected: u64, declared: u64 },
    /// The stored sequence is the largest there is, so that none can
    /// follow it: the account relays no further transaction.
    SequenceExhausted,
}

} // verus!
