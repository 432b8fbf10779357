//! Verified core of a signature-checked relay account.
//!
//! An account record holds one public key and a sequence number. A relayer
//! hands in a signed transaction envelope; the account checks the signature
//! over the canonical signing document, checks that the declared sequence is
//! the stored one, advances the sequence by one and hands the embedded
//! messages back, in order, to be dispatched under its own authority.

pub mod auth_info;
pub mod body;
pub mod context;
pub mod contract;
pub mod crypto;
pub mod encode;
pub mod envelope;
pub mod error;
pub mod fields;
pub mod msg;
pub mod schema;
pub mod sign_doc;
pub mod state;
pub mod text;
pub mod varint;
pub mod wire;
