//! The two cryptographic primitives that the account relies on. Both are
//! computed outside this library; here they have a name and a call.

use sha2::Digest;
use vstd::prelude::*;

verus! {

/// The SHA-256 digest of `data`.
pub uninterp spec fn sha256_digest(data: Seq<u8>) -> Seq<u8>;

/// What secp256k1 verification says of a message hash, a signature and a
/// public key: `Some(true)` where the signature is one by that key over
/// that hash, `Some(false)` where it is not, `None` where hash, signature
/// or key is not of the form that verification takes.
pub uninterp spec fn secp256k1_verification(
    message_hash: Seq<u8>,
    signature: Seq<u8>,
    public_key: Seq<u8>,
) -> Option<bool>;

/// `Sha256` of the crate `sha2`: a fresh hasher is fed `data` once and
/// finalized. The contract gives the digest its name and claims nothing
/// else of it.
#[verifier::external_body]
pub(crate) fn sha256(data: &[u8]) -> (digest: Vec<u8>)
    ensures
        digest@ == sha256_digest(data@),
{
    sha2::Sha256::new().chain_update(data).finalize().to_vec()
}

/// `secp256k1_verify` of the crate `cosmwasm_crypto`, which stands behind
/// the verification call that a contract's host offers. An `Ok` is handed
/// on as `Some`, any error as `None`. The contract gives the outcome its
/// name and claims nothing else of it.
#[verifier::external_body]
pub(crate) fn secp256k1_verify(message_hash: &[u8], signature: &[u8], public_key: &[u8]) -> (r:
    Option<bool>)
    ensures
        r == secp256k1_verification(message_hash@, signature@, public_key@),
{
    cosmwasm_crypto::secp256k1_verify(message_hash, signature, public_key).ok()
}

} // verus!
