//! The signing document: the bytes that the holder of the key signed.

use crate::crypto::{sha256, sha256_digest};
use crate::encode::{
    encode_optional_bytes_field, encode_optional_varint_field, optional_bytes_field,
    optional_varint_field,
};
use vstd::prelude::*;
use vstd::utf8::encode_utf8;

verus! {

/// Field number of the body bytes.
pub const BODY_BYTES_FIELD: u32 = 1;

/// Field number of the authorization-info bytes.
pub const AUTH_INFO_BYTES_FIELD: u32 = 2;

/// Field number of the chain identifier.
pub const CHAIN_ID_FIELD: u32 = 3;

/// Field number of the account number.
pub const ACCOUNT_NUMBER_FIELD: u32 = 4;

/// What is signed: the body and the authorization info as they stand in
/// the envelope, the chain that the transaction is meant for, and the
/// account number that signer and account agree on.
#[derive(Clone, Copy, Debug)]
pub struct SignDoc<'a> {
    pub body_bytes: &'a [u8],
    pub auth_info_bytes: &'a [u8],
    pub chain_id: &'a str,
    pub account_number: u64,
}

/// What a signing document holds.
pub struct SignDocView {
    pub body_bytes: Seq<u8>,
    pub auth_info_bytes: Seq<u8>,
    pub chain_id: Seq<char>,
    pub account_number: u64,
}

impl<'a> View for SignDoc<'a> {
    type V = SignDocView;

    open spec fn view(&self) -> SignDocView {
        SignDocView {
            body_bytes: self.body_bytes@,
            auth_info_bytes: self.auth_info_bytes@,
            chain_id: self.chain_id@,
            account_number: self.account_number,
        }
    }
}

/// The canonical encoding of a signing document: its four fields in the
/// order of their numbers, the chain identifier as UTF-8, and each field
/// left out where it is empty or zero.
pub open spec fn sign_doc_encoding(doc: SignDocView) -> Seq<u8> {
    optional_bytes_field(BODY_BYTES_FIELD, doc.body_bytes) + optional_bytes_field(
        AUTH_INFO_BYTES_FIELD,
        doc.auth_info_bytes,
    ) + optional_bytes_field(CHAIN_ID_FIELD, encode_utf8(doc.chain_id)) + optional_varint_field(
        ACCOUNT_NUMBER_FIELD,
        doc.account_number,
    )
}

impl<'a> SignDoc<'a> {
    /// The bytes that are hashed and signed. The same document always gives
    /// the same bytes.
    pub fn to_proto_bytes(&self) -> (out: Vec<u8>)
        ensures
            out@ == sign_doc_encoding(self@),
    {
        let mut out: Vec<u8> = Vec::new();
        encode_optional_bytes_field(BODY_BYTES_FIELD, self.body_bytes, &mut out);
        encode_optional_bytes_field(AUTH_INFO_BYTES_FIELD, self.auth_info_bytes, &mut out);
        encode_optional_bytes_field(CHAIN_ID_FIELD, self.chain_id.as_bytes(), &mut out);
        encode_optional_varint_field(ACCOUNT_NUMBER_FIELD, self.account_number, &mut out);
        assert(out@ =~= sign_doc_encoding(self@));
        out
    }

    /// The SHA-256 digest of the encoded document: what a signature is
    /// held against.
    pub fn digest(&self) -> (digest: Vec<u8>)
        ensures
            digest@ == sha256_digest(sign_doc_encoding(self@)),
    {
        let bytes = self.to_proto_bytes();
        sha256(bytes.as_slice())
    }
}

} // verus!
