//! The requests that an account takes and the answers it gives.

use crate::state::{PubKey, PubKeyView};
use vstd::prelude::*;

verus! {

/// Sets an account up with the key that may authorize its transactions.
#[derive(Clone, Debug, PartialEq, Eq)]
pub struct InstantiateMsg {
    pub type_url: String,
    pub key: Vec<u8>,
}

/// What an account can be asked to do.
#[derive(Clone, Debug, PartialEq, Eq)]
pub enum ExecuteMsg {
    /// Relay the signed transaction `tx`.
    SendTx { tx: Vec<u8> },
}

/// What an account can be asked about.
#[derive(Clone, Debug, PartialEq, Eq)]
pub enum QueryMsg {
    /// The signer record.
    SignerInfo {  },
}

/// The signer record as a query returns it.
#[derive(Clone, Debug, PartialEq, Eq)]
pub struct SignerInfoResponse {
    pub sequence: u64,
    pub public_key: PubKey,
}

/// What a queried signer record holds.
pub struct SignerInfoResponseView {
    pub sequence: u64,
    pub public_key: PubKeyView,
}

impl View for SignerInfoResponse {
    type V = SignerInfoResponseView;

    open spec fn view(&self) -> SignerInfoResponseView {
        SignerInfoResponseView { sequence: self.sequence, public_key: self.public_key@ }
    }
}

} // verus!
