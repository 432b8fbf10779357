//! Writing fields, and what written fields are read back as.

use crate::varint::{
    encode_varint, lemma_varint_round_trip, varint_encoding, varint_limit, MAX_VARINT_LEN,
};
use crate::wire::{
    encode_key, key_encoding, lemma_key_round_trip, parse_field, parse_fields, Field, WireType,
    WireValue, MAX_FIELD_NUMBER,
};
use vstd::prelude::*;

verus! {

/// The encoding of field `number` holding the bytes `payload`: the key, the
/// length as a varint, the bytes.
pub open spec fn bytes_field(number: u32, payload: Seq<u8>) -> Seq<u8> {
    key_encoding(number, WireType::LengthDelimited) + varint_encoding(payload.len()) + payload
}

/// The encoding of field `number` holding the varint `v`.
pub open spec fn varint_field(number: u32, v: u64) -> Seq<u8> {
    key_encoding(number, WireType::Varint) + varint_encoding(v as nat)
}

/// The encoding of a field of bytes that is written once: left out where
/// the bytes are empty.
pub open spec fn optional_bytes_field(number: u32, payload: Seq<u8>) -> Seq<u8> {
    if payload.len() == 0 {
        Seq::empty()
    } else {
        bytes_field(number, payload)
    }
}

/// The encoding of a varint field that is written once: left out where
/// the number is zero.
pub open spec fn optional_varint_field(number: u32, v: u64) -> Seq<u8> {
    if v == 0 {
        Seq::empty()
    } else {
        varint_field(number, v)
    }
}

/// The encoding of a repeated field of bytes: one field for each item, in
/// order, empty items too.
pub open spec fn repeated_bytes_field(number: u32, items: Seq<Seq<u8>>) -> Seq<u8>
    decreases items.len(),
{
    if items.len() == 0 {
        Seq::empty()
    } else {
        repeated_bytes_field(number, items.drop_last()) + bytes_field(number, items.last())
    }
}

/// Appends field `number` holding `payload` to `out`.
pub fn encode_bytes_field(number: u32, payload: &[u8], out: &mut Vec<u8>)
    requires
        number <= MAX_FIELD_NUMBER,
    ensures
        final(out)@ == old(out)@ + bytes_field(number, payload@),
{
    let ghost start = out@;
    encode_key(number, WireType::LengthDelimited, out);
    encode_varint(payload.len() as u64, out);
    out.extend_from_slice(payload);
    assert(out@ =~= start + bytes_field(number, payload@));
}

/// Appends field `number` holding `payload` to `out`, unless `payload` is
/// empty.
pub fn encode_optional_bytes_field(number: u32, payload: &[u8], out: &mut Vec<u8>)
    requires
        number <= MAX_FIELD_NUMBER,
    ensures
        final(out)@ == old(out)@ + optional_bytes_field(number, payload@),
{
    let ghost start = out@;
    if payload.len() != 0 {
        encode_bytes_field(number, payload, out);
    }
    assert(out@ =~= start + optional_bytes_field(number, payload@));
}

/// Appends field `number` holding the varint `v` to `out`, unless `v` is
/// zero.
pub fn encode_optional_varint_field(number: u32, v: u64, out: &mut Vec<u8>)
    requires
        number <= MAX_FIELD_NUMBER,
    ensures
        final(out)@ == old(out)@ + optional_varint_field(number, v),
{
    let ghost start = out@;
    if v != 0 {
        encode_key(number, WireType::Varint, out);
        encode_varint(v, out);
    }
    assert(out@ =~= start + optional_varint_field(number, v));
}

/// An encoded field of bytes is read back as that field, whatever follows.
pub proof fn lemma_parse_bytes_field(number: u32, payload: Seq<u8>, rest: Seq<u8>, depth: nat)
    requires
        1 <= number <= MAX_FIELD_NUMBER,
        payload.len() <= u64::MAX,
    ensures
        parse_field(bytes_field(number, payload) + rest, depth) == Some(
            (
                Field { number, value: WireValue::LengthDelimited(payload) },
                bytes_field(number, payload).len(),
            ),
        ),
        bytes_field(number, payload).len() >= 1,
{
    reveal_with_fuel(varint_limit, 11);
    let key = key_encoding(number, WireType::LengthDelimited);
    let len = varint_encoding(payload.len());
    let s = bytes_field(number, payload) + rest;
    assert(s =~= key + (len + payload + rest));
    lemma_key_round_trip(number, WireType::LengthDelimited, len + payload + rest);
    let after_key = s.skip(key.len() as int);
    assert(after_key =~= len + (payload + rest));
    lemma_varint_round_trip(payload.len(), payload + rest, MAX_VARINT_LEN as nat);
    assert(after_key.subrange(len.len() as int, (len.len() + payload.len()) as int) =~= payload);
}

/// The field numbered `number` that holds the bytes `payload`.
pub open spec fn bytes_field_of(number: u32, payload: Seq<u8>) -> Field {
    Field { number, value: WireValue::LengthDelimited(payload) }
}

/// The fields that a field of bytes written once is read as: none where
/// the bytes are empty.
pub open spec fn optional_bytes_fields(number: u32, payload: Seq<u8>) -> Seq<Field> {
    if payload.len() == 0 {
        Seq::empty()
    } else {
        seq![bytes_field_of(number, payload)]
    }
}

/// The fields that a repeated field of bytes is read as.
pub open spec fn repeated_bytes_fields(number: u32, items: Seq<Seq<u8>>) -> Seq<Field> {
    Seq::new(items.len(), |i: int| bytes_field_of(number, items[i]))
}

/// An encoded field of bytes in front of a well-formed message is read as
/// that field in front of the message's fields.
pub proof fn lemma_parse_fields_after_bytes_field(
    number: u32,
    payload: Seq<u8>,
    rest: Seq<u8>,
    depth: nat,
)
    requires
        1 <= number <= MAX_FIELD_NUMBER,
        payload.len() <= u64::MAX,
        parse_fields(rest, depth) is Some,
    ensures
        parse_fields(bytes_field(number, payload) + rest, depth) == Some(
            seq![bytes_field_of(number, payload)] + parse_fields(rest, depth)->0,
        ),
{
    lemma_parse_bytes_field(number, payload, rest, depth);
    let s = bytes_field(number, payload) + rest;
    assert(s.skip(bytes_field(number, payload).len() as int) =~= rest);
}

/// The same for a field that is left out where its bytes are empty.
pub proof fn lemma_parse_fields_after_optional_bytes_field(
    number: u32,
    payload: Seq<u8>,
    rest: Seq<u8>,
    depth: nat,
)
    requires
        1 <= number <= MAX_FIELD_NUMBER,
        payload.len() <= u64::MAX,
        parse_fields(rest, depth) is Some,
    ensures
        parse_fields(optional_bytes_field(number, payload) + rest, depth) == Some(
            optional_bytes_fields(number, payload) + parse_fields(rest, depth)->0,
        ),
{
    if payload.len() == 0 {
        assert(optional_bytes_field(number, payload) + rest =~= rest);
        assert(optional_bytes_fields(number, payload) + parse_fields(rest, depth)->0
            =~= parse_fields(rest, depth)->0);
    } else {
        lemma_parse_fields_after_bytes_field(number, payload, rest, depth);
    }
}

/// The same for a repeated field: one field for each item, in order.
pub proof fn lemma_parse_fields_after_repeated_bytes_field(
    number: u32,
    items: Seq<Seq<u8>>,
    rest: Seq<u8>,
    depth: nat,
)
    requires
        1 <= number <= MAX_FIELD_NUMBER,
        forall|i: int| 0 <= i < items.len() ==> (#[trigger] items[i]).len() <= u64::MAX,
        parse_fields(rest, depth) is Some,
    ensures
        parse_fields(repeated_bytes_field(number, items) + rest, depth) == Some(
            repeated_bytes_fields(number, items) + parse_fields(rest, depth)->0,
        ),
    decreases items.len(),
{
    let tail = parse_fields(rest, depth)->0;
    if items.len() == 0 {
        assert(repeated_bytes_field(number, items) + rest =~= rest);
        assert(repeated_bytes_fields(number, items) + tail =~= tail);
    } else {
        let front = items.drop_last();
        let last = items.last();
        let rest2 = bytes_field(number, last) + rest;
        lemma_parse_fields_after_bytes_field(number, last, rest, depth);
        lemma_parse_fields_after_repeated_bytes_field(number, front, rest2, depth);
        assert(repeated_bytes_field(number, items) + rest =~= repeated_bytes_field(number, front)
            + rest2);
        assert(repeated_bytes_fields(number, front) + (seq![bytes_field_of(number, last)] + tail)
            =~= repeated_bytes_fields(number, items) + tail);
    }
}

} // verus!
