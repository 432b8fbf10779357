//! The kinds of message that a transaction is made of, and what it takes
//! for bytes to be a well-formed message of a kind: every field that the
//! kind knows holds what the kind says, also the fields that the account
//! never looks at, and every other field can be passed over.

use crate::fields::payload;
use crate::text::string_from_utf8;
use crate::wire::{field_views, parse_fields, parse_message, Field, RawField, RawValue};
use vstd::prelude::*;
use vstd::slice::slice_to_vec;
use vstd::utf8::valid_utf8;

verus! {

/// The kinds of message inside a transaction.
#[derive(Clone, Copy, Debug, PartialEq, Eq, Structural)]
pub enum Schema {
    /// A type URL and a value.
    Any,
    /// A denomination and an amount.
    Coin,
    /// What the transaction pays.
    Fee,
    /// What the transaction tips.
    Tip,
    /// The bits of a multi-signature that tell who signed.
    CompactBitArray,
    /// The signing mode of one signer.
    SingleMode,
    /// The signing modes of the signers of a multi-signature.
    MultiMode,
    /// How a signer signed: as one, or as many.
    ModeInfo,
    /// One signer: key, mode and sequence.
    SignerInfo,
    /// The signers, the fee and the tip.
    AuthInfo,
    /// The messages, the memo, the timeout and the extension options.
    TxBody,
}

/// What a field holds.
#[derive(Clone, Copy, Debug, PartialEq, Eq, Structural)]
pub enum Kind {
    /// A varint.
    Varint,
    /// A run of bytes.
    Bytes,
    /// A run of bytes that is valid UTF-8.
    Text,
    /// A run of bytes that is a well-formed message.
    Message(Schema),
}

/// What the field numbered `number` of a message of kind `schema` holds;
/// `None` where the kind knows no such field.
pub open spec fn field_kind(schema: Schema, number: u32) -> Option<Kind> {
    match schema {
        Schema::Any => if number == 1 {
            Some(Kind::Text)
        } else if number == 2 {
            Some(Kind::Bytes)
        } else {
            None
        },
        Schema::Coin => if number == 1 || number == 2 {
            Some(Kind::Text)
        } else {
            None
        },
        Schema::Fee => if number == 1 {
            Some(Kind::Message(Schema::Coin))
        } else if number == 2 {
            Some(Kind::Varint)
        } else if number == 3 || number == 4 {
            Some(Kind::Text)
        } else {
            None
        },
        Schema::Tip => if number == 1 {
            Some(Kind::Message(Schema::Coin))
        } else if number == 2 {
            Some(Kind::Text)
        } else {
            None
        },
        Schema::CompactBitArray => if number == 1 {
            Some(Kind::Varint)
        } else if number == 2 {
            Some(Kind::Bytes)
        } else {
            None
        },
        Schema::SingleMode => if number == 1 {
            Some(Kind::Varint)
        } else {
            None
        },
        Schema::MultiMode => if number == 1 {
            Some(Kind::Message(Schema::CompactBitArray))
        } else if number == 2 {
            Some(Kind::Message(Schema::ModeInfo))
        } else {
            None
        },
        Schema::ModeInfo => if number == 1 {
            Some(Kind::Message(Schema::SingleMode))
        } else if number == 2 {
            Some(Kind::Message(Schema::MultiMode))
        } else {
            None
        },
        Schema::SignerInfo => if number == 1 {
            Some(Kind::Message(Schema::Any))
        } else if number == 2 {
            Some(Kind::Message(Schema::ModeInfo))
        } else if number == 3 {
            Some(Kind::Varint)
        } else {
            None
        },
        Schema::AuthInfo => if number == 1 {
            Some(Kind::Message(Schema::SignerInfo))
        } else if number == 2 {
            Some(Kind::Message(Schema::Fee))
        } else if number == 3 {
            Some(Kind::Message(Schema::Tip))
        } else {
            None
        },
        Schema::TxBody => if number == 1 || number == 1023 || number == 2047 {
            Some(Kind::Message(Schema::Any))
        } else if number == 2 {
            Some(Kind::Text)
        } else if number == 3 {
            Some(Kind::Varint)
        } else {
            None
        },
    }
}

/// The field is one that a message of kind `schema`, read with `depth`
/// levels, may hold. A field that the kind knows holds what the kind says;
/// a message inside it takes a level and is read with one level less. A
/// field that the kind does not know is passed over, which takes a level
/// too.
pub open spec fn field_ok(schema: Schema, field: Field, depth: nat) -> bool
    decreases depth, 0nat,
{
    match field_kind(schema, field.number) {
        None => depth >= 1,
        Some(Kind::Varint) => field.value is Varint,
        Some(Kind::Bytes) => field.value is LengthDelimited,
        Some(Kind::Text) => field.value is LengthDelimited && valid_utf8(payload(field)),
        Some(Kind::Message(inner)) => field.value is LengthDelimited && depth >= 1 && well_formed(
            inner,
            payload(field),
            (depth - 1) as nat,
        ),
    }
}

/// Every field is one that a message of kind `schema` may hold.
pub open spec fn fields_ok(schema: Schema, fields: Seq<Field>, depth: nat) -> bool
    decreases depth, 1nat,
{
    forall|i: int| 0 <= i < fields.len() ==> field_ok(schema, #[trigger] fields[i], depth)
}

/// The bytes `s` are a well-formed message of kind `schema`, read with
/// `depth` levels: a run of well-formed fields, each of them one that the
/// kind may hold.
pub open spec fn well_formed(schema: Schema, s: Seq<u8>, depth: nat) -> bool
    decreases depth, 2nat,
{
    match parse_fields(s, depth) {
        None => false,
        Some(fields) => fields_ok(schema, fields, depth),
    }
}

/// What the field numbered `number` of a message of kind `schema` holds.
pub fn kind_of(schema: Schema, number: u32) -> (r: Option<Kind>)
    ensures
        r == field_kind(schema, number),
{
    match schema {
        Schema::Any => if number == 1 {
            Some(Kind::Text)
        } else if number == 2 {
            Some(Kind::Bytes)
        } else {
            None
        },
        Schema::Coin => if number == 1 || number == 2 {
            Some(Kind::Text)
        } else {
            None
        },
        Schema::Fee => if number == 1 {
            Some(Kind::Message(Schema::Coin))
        } else if number == 2 {
            Some(Kind::Varint)
        } else if number == 3 || number == 4 {
            Some(Kind::Text)
        } else {
            None
        },
        Schema::Tip => if number == 1 {
            Some(Kind::Message(Schema::Coin))
        } else if number == 2 {
            Some(Kind::Text)
        } else {
            None
        },
        Schema::CompactBitArray => if number == 1 {
            Some(Kind::Varint)
        } else if number == 2 {
            Some(Kind::Bytes)
        } else {
            None
        },
        Schema::SingleMode => if number == 1 {
            Some(Kind::Varint)
        } else {
            None
        },
        Schema::MultiMode => if number == 1 {
            Some(Kind::Message(Schema::CompactBitArray))
        } else if number == 2 {
            Some(Kind::Message(Schema::ModeInfo))
        } else {
            None
        },
        Schema::ModeInfo => if number == 1 {
            Some(Kind::Message(Schema::SingleMode))
        } else if number == 2 {
            Some(Kind::Message(Schema::MultiMode))
        } else {
            None
        },
        Schema::SignerInfo => if number == 1 {
            Some(Kind::Message(Schema::Any))
        } else if number == 2 {
            Some(Kind::Message(Schema::ModeInfo))
        } else if number == 3 {
            Some(Kind::Varint)
        } else {
            None
        },
        Schema::AuthInfo => if number == 1 {
            Some(Kind::Message(Schema::SignerInfo))
        } else if number == 2 {
            Some(Kind::Message(Schema::Fee))
        } else if number == 3 {
            Some(Kind::Message(Schema::Tip))
        } else {
            None
        },
        Schema::TxBody => if number == 1 || number == 1023 || number == 2047 {
            Some(Kind::Message(Schema::Any))
        } else if number == 2 {
            Some(Kind::Text)
        } else if number == 3 {
            Some(Kind::Varint)
        } else {
            None
        },
    }
}

/// Tells whether the field is one that a message of kind `schema` may hold.
pub fn check_field(schema: Schema, field: &RawField, depth: u32) -> (r: bool)
    ensures
        r == field_ok(schema, field@, depth as nat),
    decreases depth, 0nat,
{
    match kind_of(schema, field.number) {
        None => depth >= 1,
        Some(Kind::Varint) => match field.value {
            RawValue::Varint(_) => true,
            _ => false,
        },
        Some(Kind::Bytes) => match field.value {
            RawValue::LengthDelimited(_) => true,
            _ => false,
        },
        Some(Kind::Text) => match field.value {
            RawValue::LengthDelimited(bytes) => string_from_utf8(slice_to_vec(bytes)).is_some(),
            _ => false,
        },
        Some(Kind::Message(inner)) => match field.value {
            RawValue::LengthDelimited(bytes) => depth >= 1 && check_message(
                inner,
                bytes,
                depth - 1,
            ),
            _ => false,
        },
    }
}

/// Tells whether every field is one that a message of kind `schema` may
/// hold.
pub fn check_fields(schema: Schema, fields: &Vec<RawField>, depth: u32) -> (r: bool)
    ensures
        r == fields_ok(schema, field_views(fields@), depth as nat),
    decreases depth, 1nat,
{
    let mut i: usize = 0;
    while i < fields.len()
        invariant
            i <= fields.len(),
            forall|j: int|
                0 <= j < i ==> field_ok(
                    schema,
                    #[trigger] field_views(fields@)[j],
                    depth as nat,
                ),
        decreases fields.len() - i,
    {
        if !check_field(schema, &fields[i], depth) {
            assert(!field_ok(schema, field_views(fields@)[i as int], depth as nat));
            return false;
        }
        i = i + 1;
    }
    true
}

/// Tells whether `bytes` are a well-formed message of kind `schema`.
pub fn check_message(schema: Schema, bytes: &[u8], depth: u32) -> (r: bool)
    ensures
        r == well_formed(schema, bytes@, depth as nat),
    decreases depth, 2nat,
{
    match parse_message(bytes, depth) {
        None => false,
        Some(fields) => check_fields(schema, &fields, depth),
    }
}

} // verus!
