//! The authorization info of a transaction. The account reads one thing in
//! it, the sequence that the first signer declares, and takes it only from
//! an authorization info that is well-formed as a whole.

use crate::error::DecodeError;
use crate::fields::{first_bytes, first_field_of, last_varint, last_varint_of};
use crate::schema::{check_fields, field_ok, well_formed, Schema};
use crate::wire::{field_views, parse_fields, parse_message, RawValue, RECURSION_LIMIT};
use vstd::prelude::*;

verus! {

/// Field number of the signer entries in the authorization info.
pub const SIGNER_INFOS_FIELD: u32 = 1;

/// Field number of the sequence in a signer entry.
pub const SEQUENCE_FIELD: u32 = 3;

/// The sequence that the signer entry `s` declares: that of its last
/// sequence field, zero where it has none. The entry must be well-formed
/// as a whole, one level down: its key and its mode are well-formed
/// messages, its sequence is a varint.
pub open spec fn parse_signer_sequence(s: Seq<u8>) -> Option<u64> {
    if well_formed(Schema::SignerInfo, s, (RECURSION_LIMIT - 1) as nat) {
        Some(last_varint(parse_fields(s, (RECURSION_LIMIT - 1) as nat)->0, SEQUENCE_FIELD))
    } else {
        None
    }
}

/// The sequence that the authorization info `s` declares: that of its
/// first signer entry. The authorization info must be well-formed as a
/// whole: every signer entry, the fee and the tip are well-formed messages
/// of their kinds, and every other field can be passed over.
pub open spec fn parse_declared_sequence(s: Seq<u8>) -> Result<u64, DecodeError> {
    if !well_formed(Schema::AuthInfo, s, RECURSION_LIMIT as nat) {
        Err(DecodeError::MalformedAuthInfo)
    } else {
        match first_bytes(parse_fields(s, RECURSION_LIMIT as nat)->0, SIGNER_INFOS_FIELD) {
            None => Err(DecodeError::MissingSigner),
            Some(signer) => Ok(
                last_varint(
                    parse_fields(signer, (RECURSION_LIMIT - 1) as nat)->0,
                    SEQUENCE_FIELD,
                ),
            ),
        }
    }
}

/// Reads the sequence that one signer entry declares.
pub fn signer_sequence(signer_info_bytes: &[u8]) -> (r: Option<u64>)
    ensures
        r == parse_signer_sequence(signer_info_bytes@),
{
    match parse_message(signer_info_bytes, RECURSION_LIMIT - 1) {
        None => None,
        Some(fields) => if check_fields(Schema::SignerInfo, &fields, RECURSION_LIMIT - 1) {
            Some(last_varint_of(&fields, SEQUENCE_FIELD))
        } else {
            None
        },
    }
}

/// Reads the sequence that the authorization info declares for its first
/// signer, after the whole of it has been found well-formed.
pub fn declared_sequence(auth_info_bytes: &[u8]) -> (r: Result<u64, DecodeError>)
    ensures
        r == parse_declared_sequence(auth_info_bytes@),
{
    let fields = match parse_message(auth_info_bytes, RECURSION_LIMIT) {
        Some(fields) => fields,
        None => {
            return Err(DecodeError::MalformedAuthInfo);
        },
    };
    if !check_fields(Schema::AuthInfo, &fields, RECURSION_LIMIT) {
        return Err(DecodeError::MalformedAuthInfo);
    }
    match first_field_of(&fields, SIGNER_INFOS_FIELD) {
        None => Err(DecodeError::MissingSigner),
        Some(j) => {
            proof {
                assert(field_ok(
                    Schema::AuthInfo,
                    field_views(fields@)[j as int],
                    RECURSION_LIMIT as nat,
                ));
            }
            match fields[j].value {
                RawValue::LengthDelimited(signer) => {
                    match parse_message(signer, RECURSION_LIMIT - 1) {
                        Some(entry) => Ok(last_varint_of(&entry, SEQUENCE_FIELD)),
                        None => {
                            assert(false);
                            Err(DecodeError::MalformedAuthInfo)
                        },
                    }
                },
                _ => {
                    assert(false);
                    Err(DecodeError::MalformedAuthInfo)
                },
            }
        },
    }
}

} // verus!
