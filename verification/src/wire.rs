//! The protobuf wire format as far as an account reads it: field keys and
//! the fields of a message.

use crate::varint::{
    decode_varint, encode_varint, lemma_varint_round_trip, parse_varint, varint_encoding,
    varint_limit, MAX_VARINT_LEN,
};
use vstd::prelude::*;

verus! {

/// The number of levels that a message is read with. A field inside a
/// group is read with one level less than the group and must have one
/// left; a message inside a field is read with one level less than the
/// message around it.
pub const RECURSION_LIMIT: u32 = 100;

/// How the value behind a field key is laid out.
#[derive(Clone, Copy, Debug, PartialEq, Eq, Structural)]
pub enum WireType {
    Varint,
    Fixed64,
    LengthDelimited,
    StartGroup,
    EndGroup,
    Fixed32,
}

/// A field key: the field's number and the layout of its value.
#[derive(Clone, Copy, Debug, PartialEq, Eq, Structural)]
pub struct Key {
    pub number: u32,
    pub wire_type: WireType,
}

/// The largest field number that a key can carry.
pub const MAX_FIELD_NUMBER: u32 = 0x1fff_ffff;

/// The three low bits of a key that stand for `t`.
pub open spec fn wire_type_code(t: WireType) -> nat {
    match t {
        WireType::Varint => 0,
        WireType::Fixed64 => 1,
        WireType::LengthDelimited => 2,
        WireType::StartGroup => 3,
        WireType::EndGroup => 4,
        WireType::Fixed32 => 5,
    }
}

/// The layout that the three low bits `code` of a key stand for.
pub open spec fn wire_type_of(code: nat) -> Option<WireType> {
    if code == 0 {
        Some(WireType::Varint)
    } else if code == 1 {
        Some(WireType::Fixed64)
    } else if code == 2 {
        Some(WireType::LengthDelimited)
    } else if code == 3 {
        Some(WireType::StartGroup)
    } else if code == 4 {
        Some(WireType::EndGroup)
    } else if code == 5 {
        Some(WireType::Fixed32)
    } else {
        None
    }
}

/// The encoding of the key of field `number` with layout `t`.
pub open spec fn key_encoding(number: u32, t: WireType) -> Seq<u8> {
    varint_encoding(number as nat * 8 + wire_type_code(t))
}

/// The key that `s` starts with and the bytes it takes: a varint that fits
/// 32 bits, whose low three bits name a layout and whose field number is
/// not zero.
pub open spec fn parse_key(s: Seq<u8>) -> Option<(Key, nat)> {
    match parse_varint(s) {
        Some((k, n)) => if k <= u32::MAX && k / 8 >= 1 {
            match wire_type_of((k % 8) as nat) {
                Some(t) => Some((Key { number: (k / 8) as u32, wire_type: t }, n)),
                None => None,
            }
        } else {
            None
        },
        None => None,
    }
}

/// The encoded key of a field number in range is read back, whatever
/// follows it.
pub proof fn lemma_key_round_trip(number: u32, t: WireType, rest: Seq<u8>)
    requires
        1 <= number <= MAX_FIELD_NUMBER,
    ensures
        parse_key(key_encoding(number, t) + rest) == Some(
            (Key { number, wire_type: t }, key_encoding(number, t).len()),
        ),
        1 <= key_encoding(number, t).len(),
{
    reveal_with_fuel(varint_limit, 11);
    let k = number as nat * 8 + wire_type_code(t);
    lemma_varint_round_trip(k, rest, MAX_VARINT_LEN as nat);
    assert(k / 8 == number);
    assert(k % 8 == wire_type_code(t));
}

/// Reads the field key that starts at `pos` and the position behind it.
pub fn decode_key(bytes: &[u8], pos: usize) -> (r: Option<(Key, usize)>)
    requires
        pos <= bytes.len(),
    ensures
        match r {
            Some((key, next)) => pos < next <= bytes.len() && parse_key(bytes@.skip(pos as int))
                == Some((key, (next - pos) as nat)),
            None => parse_key(bytes@.skip(pos as int)) is None,
        },
{
    match decode_varint(bytes, pos) {
        None => None,
        Some((k, next)) => {
            if k > 0xffff_ffff || k / 8 < 1 {
                return None;
            }
            let code: u64 = k % 8;
            let wire_type = if code == 0 {
                WireType::Varint
            } else if code == 1 {
                WireType::Fixed64
            } else if code == 2 {
                WireType::LengthDelimited
            } else if code == 3 {
                WireType::StartGroup
            } else if code == 4 {
                WireType::EndGroup
            } else if code == 5 {
                WireType::Fixed32
            } else {
                return None;
            };
            Some((Key { number: (k / 8) as u32, wire_type }, next))
        },
    }
}

/// Appends the key of field `number` with layout `wire_type` to `out`.
pub fn encode_key(number: u32, wire_type: WireType, out: &mut Vec<u8>)
    requires
        number <= MAX_FIELD_NUMBER,
    ensures
        final(out)@ == old(out)@ + key_encoding(number, wire_type),
{
    let code: u64 = match wire_type {
        WireType::Varint => 0,
        WireType::Fixed64 => 1,
        WireType::LengthDelimited => 2,
        WireType::StartGroup => 3,
        WireType::EndGroup => 4,
        WireType::Fixed32 => 5,
    };
    encode_varint(number as u64 * 8 + code, out);
}

/// What a field holds, as far as the wire format tells: a number, a run of
/// bytes, or a value that is passed over.
pub enum WireValue {
    Varint(u64),
    Fixed64,
    LengthDelimited(Seq<u8>),
    Group,
    Fixed32,
}

/// One field of a message: its number and what it holds.
pub struct Field {
    pub number: u32,
    pub value: WireValue,
}

/// The value of layout `key.wire_type` that `s` starts with, and the bytes
/// it takes. `depth` is the number of levels that this field is read with.
/// A length-delimited value must lie within `s`; a fixed-width value and a
/// group are passed over; an end of group is no value.
pub open spec fn parse_value(s: Seq<u8>, key: Key, depth: nat) -> Option<(WireValue, nat)>
    decreases s.len(), 1nat,
{
    match key.wire_type {
        WireType::Varint => match parse_varint(s) {
            Some((v, n)) => Some((WireValue::Varint(v), n)),
            None => None,
        },
        WireType::Fixed64 => if s.len() >= 8 {
            Some((WireValue::Fixed64, 8nat))
        } else {
            None
        },
        WireType::LengthDelimited => match parse_varint(s) {
            Some((len, n)) => if n + len <= s.len() {
                Some((WireValue::LengthDelimited(s.subrange(n as int, n + len)), (n + len) as nat))
            } else {
                None
            },
            None => None,
        },
        WireType::StartGroup => match group_len(s, key.number, depth) {
            Some(n) => Some((WireValue::Group, n)),
            None => None,
        },
        WireType::EndGroup => None,
        WireType::Fixed32 => if s.len() >= 4 {
            Some((WireValue::Fixed32, 4nat))
        } else {
            None
        },
    }
}

/// The length of the group of field `number` whose start key has been read:
/// the fields that `s` starts with, up to and with the end key of the same
/// number. A field inside the group has one level less than the group, and
/// needs one. (The bounds on `klen` and `vlen` are there for the definition
/// to be seen to end.)
pub open spec fn group_len(s: Seq<u8>, number: u32, depth: nat) -> Option<nat>
    decreases s.len(), 0nat,
{
    match parse_key(s) {
        None => None,
        Some((key, klen)) => if key.wire_type == WireType::EndGroup {
            if key.number == number {
                Some(klen)
            } else {
                None
            }
        } else if depth <= 1 || klen < 1 || klen > s.len() {
            None
        } else {
            match parse_value(s.skip(klen as int), key, (depth - 1) as nat) {
                None => None,
                Some((_, vlen)) => if klen + vlen > s.len() {
                    None
                } else {
                    match group_len(s.skip((klen + vlen) as int), number, depth) {
                        Some(rest) => Some((klen + vlen + rest) as nat),
                        None => None,
                    }
                },
            }
        },
    }
}

/// The field that `s` starts with and the bytes it takes.
pub open spec fn parse_field(s: Seq<u8>, depth: nat) -> Option<(Field, nat)> {
    match parse_key(s) {
        None => None,
        Some((key, klen)) => match parse_value(s.skip(klen as int), key, depth) {
            None => None,
            Some((value, vlen)) => Some((Field { number: key.number, value }, (klen + vlen) as nat)),
        },
    }
}

/// The fields of the message `s`, in the order in which they are written,
/// or `None` where `s` is not a run of well-formed fields. (The bounds on
/// `n` are there for the definition to be seen to end.)
pub open spec fn parse_fields(s: Seq<u8>, depth: nat) -> Option<Seq<Field>>
    decreases s.len(),
{
    if s.len() == 0 {
        Some(Seq::empty())
    } else {
        match parse_field(s, depth) {
            None => None,
            Some((field, n)) => if n < 1 || n > s.len() {
                None
            } else {
                match parse_fields(s.skip(n as int), depth) {
                    Some(rest) => Some(seq![field] + rest),
                    None => None,
                }
            },
        }
    }
}

/// What a field holds, with a run of bytes borrowed from the message.
#[derive(Clone, Copy, Debug)]
pub enum RawValue<'a> {
    Varint(u64),
    Fixed64,
    LengthDelimited(&'a [u8]),
    Group,
    Fixed32,
}

/// One field of a message, borrowed from the bytes it was read from.
#[derive(Clone, Copy, Debug)]
pub struct RawField<'a> {
    pub number: u32,
    pub value: RawValue<'a>,
}

impl<'a> View for RawValue<'a> {
    type V = WireValue;

    open spec fn view(&self) -> WireValue {
        match *self {
            RawValue::Varint(v) => WireValue::Varint(v),
            RawValue::Fixed64 => WireValue::Fixed64,
            RawValue::LengthDelimited(bytes) => WireValue::LengthDelimited(bytes@),
            RawValue::Group => WireValue::Group,
            RawValue::Fixed32 => WireValue::Fixed32,
        }
    }
}

impl<'a> View for RawField<'a> {
    type V = Field;

    open spec fn view(&self) -> Field {
        Field { number: self.number, value: self.value@ }
    }
}

/// The fields that a list of borrowed fields stands for.
pub open spec fn field_views(fields: Seq<RawField>) -> Seq<Field> {
    Seq::new(fields.len(), |i: int| fields[i]@)
}

/// Reads the value of layout `key.wire_type` that starts at `pos`, and the
/// position behind it.
pub fn read_value<'a>(bytes: &'a [u8], pos: usize, key: Key, depth: u32) -> (r: Option<
    (RawValue<'a>, usize),
>)
    requires
        pos <= bytes.len(),
    ensures
        match r {
            Some((value, next)) => pos <= next <= bytes.len() && parse_value(
                bytes@.skip(pos as int),
                key,
                depth as nat,
            ) == Some((value@, (next - pos) as nat)),
            None => parse_value(bytes@.skip(pos as int), key, depth as nat) is None,
        },
    decreases bytes.len() - pos, 1nat,
{
    let avail: usize = bytes.len() - pos;
    match key.wire_type {
        WireType::Varint => match decode_varint(bytes, pos) {
            Some((v, next)) => Some((RawValue::Varint(v), next)),
            None => None,
        },
        WireType::Fixed64 => if avail >= 8 {
            Some((RawValue::Fixed64, pos + 8))
        } else {
            None
        },
        WireType::LengthDelimited => match decode_varint(bytes, pos) {
            Some((len, next)) => {
                if len > (bytes.len() - next) as u64 {
                    return None;
                }
                let end: usize = next + len as usize;
                let payload = vstd::slice::slice_subrange(bytes, next, end);
                proof {
                    assert(bytes@.skip(pos as int).subrange(next - pos, end - pos)
                        =~= bytes@.subrange(next as int, end as int));
                }
                Some((RawValue::LengthDelimited(payload), end))
            },
            None => None,
        },
        WireType::StartGroup => match skip_group(bytes, pos, key.number, depth) {
            Some(next) => Some((RawValue::Group, next)),
            None => None,
        },
        WireType::EndGroup => None,
        WireType::Fixed32 => if avail >= 4 {
            Some((RawValue::Fixed32, pos + 4))
        } else {
            None
        },
    }
}

/// Passes over the group of field `number` whose start key ends at `pos`,
/// and returns the position behind its end key.
pub fn skip_group(bytes: &[u8], pos: usize, number: u32, depth: u32) -> (r: Option<usize>)
    requires
        pos <= bytes.len(),
    ensures
        match r {
            Some(next) => pos < next <= bytes.len() && group_len(
                bytes@.skip(pos as int),
                number,
                depth as nat,
            ) == Some((next - pos) as nat),
            None => group_len(bytes@.skip(pos as int), number, depth as nat) is None,
        },
    decreases bytes.len() - pos, 0nat,
{
    let ghost s = bytes@.skip(pos as int);
    match decode_key(bytes, pos) {
        None => None,
        Some((key, after_key)) => {
            if key.wire_type == WireType::EndGroup {
                return if key.number == number {
                    Some(after_key)
                } else {
                    None
                };
            }
            if depth <= 1 {
                return None;
            }
            proof {
                assert(s.skip(after_key - pos) =~= bytes@.skip(after_key as int));
            }
            match read_value(bytes, after_key, key, depth - 1) {
                None => None,
                Some((_, after_value)) => {
                    proof {
                        assert(s.skip(after_value - pos) =~= bytes@.skip(after_value as int));
                    }
                    skip_group(bytes, after_value, number, depth)
                },
            }
        },
    }
}

/// Reads the field that starts at `pos` and the position behind it.
pub fn read_field<'a>(bytes: &'a [u8], pos: usize, depth: u32) -> (r: Option<
    (RawField<'a>, usize),
>)
    requires
        pos <= bytes.len(),
    ensures
        match r {
            Some((field, next)) => pos < next <= bytes.len() && parse_field(
                bytes@.skip(pos as int),
                depth as nat,
            ) == Some((field@, (next - pos) as nat)),
            None => parse_field(bytes@.skip(pos as int), depth as nat) is None,
        },
{
    match decode_key(bytes, pos) {
        None => None,
        Some((key, after_key)) => {
            proof {
                assert(bytes@.skip(pos as int).skip(after_key - pos) =~= bytes@.skip(
                    after_key as int,
                ));
            }
            match read_value(bytes, after_key, key, depth) {
                None => None,
                Some((value, next)) => Some((RawField { number: key.number, value }, next)),
            }
        },
    }
}

/// Reads the message `bytes` into its fields, in the order in which they
/// are written.
pub fn parse_message<'a>(bytes: &'a [u8], depth: u32) -> (r: Option<Vec<RawField<'a>>>)
    ensures
        match r {
            Some(fields) => parse_fields(bytes@, depth as nat) == Some(field_views(fields@)),
            None => parse_fields(bytes@, depth as nat) is None,
        },
{
    let mut fields: Vec<RawField<'a>> = Vec::new();
    let mut pos: usize = 0;
    proof {
        assert(bytes@.skip(0) =~= bytes@);
        assert(field_views(fields@) =~= Seq::empty());
        if let Some(rest) = parse_fields(bytes@, depth as nat) {
            assert(Seq::<Field>::empty() + rest =~= rest);
        }
    }
    while pos < bytes.len()
        invariant
            pos <= bytes.len(),
            parse_fields(bytes@, depth as nat) == match parse_fields(
                bytes@.skip(pos as int),
                depth as nat,
            ) {
                Some(rest) => Some(field_views(fields@) + rest),
                None => None,
            },
        decreases bytes.len() - pos,
    {
        match read_field(bytes, pos, depth) {
            None => {
                return None;
            },
            Some((field, next)) => {
                let ghost before = fields@;
                fields.push(field);
                proof {
                    assert(bytes@.skip(pos as int).skip(next - pos) =~= bytes@.skip(next as int));
                    assert(field_views(fields@) =~= field_views(before) + seq![field@]);
                    if let Some(rest) = parse_fields(bytes@.skip(next as int), depth as nat) {
                        assert(field_views(before) + (seq![field@] + rest) =~= field_views(
                            fields@,
                        ) + rest);
                    }
                }
                pos = next;
            },
        }
    }
    proof {
        assert(field_views(fields@) + Seq::<Field>::empty() =~= field_views(fields@));
    }
    Some(fields)
}

} // verus!
