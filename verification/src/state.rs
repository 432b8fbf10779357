//! The signer record: the one piece of state that an account keeps.

use vstd::prelude::*;

verus! {

/// A public key and the kind of key it is.
#[derive(Clone, Debug, PartialEq, Eq)]
pub struct PubKey {
    pub type_url: String,
    pub key: Vec<u8>,
}

/// The record of an account: the key that may authorize transactions and
/// the sequence that the next transaction has to declare.
#[derive(Clone, Debug, PartialEq, Eq)]
pub struct SignerInfo {
    pub public_key: PubKey,
    pub sequence: u64,
}

/// What a public key holds.
pub struct PubKeyView {
    pub type_url: Seq<char>,
    pub key: Seq<u8>,
}

/// What a signer record holds.
pub struct SignerInfoView {
    pub public_key: PubKeyView,
    pub sequence: u64,
}

impl View for PubKey {
    type V = PubKeyView;

    open spec fn view(&self) -> PubKeyView {
        PubKeyView { type_url: self.type_url@, key: self.key@ }
    }
}

impl View for SignerInfo {
    type V = SignerInfoView;

    open spec fn view(&self) -> SignerInfoView {
        SignerInfoView { public_key: self.public_key@, sequence: self.sequence }
    }
}

} // verus!
