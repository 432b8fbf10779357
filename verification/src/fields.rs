//! Reading typed values out of the fields of a message: a field that is
//! written once takes the value of its last occurrence, a repeated field
//! the values of all occurrences in order.

use crate::encode::{bytes_field_of, optional_bytes_fields, repeated_bytes_fields};
use crate::wire::{field_views, Field, RawField, RawValue, WireValue};
use vstd::prelude::*;
use vstd::slice::slice_to_vec;

verus! {

/// The bytes that a field holds; none where it holds no run of bytes.
pub open spec fn payload(field: Field) -> Seq<u8> {
    match field.value {
        WireValue::LengthDelimited(bytes) => bytes,
        _ => Seq::empty(),
    }
}

/// The number that a field holds; zero where it holds no varint.
pub open spec fn scalar(field: Field) -> u64 {
    match field.value {
        WireValue::Varint(v) => v,
        _ => 0,
    }
}

/// Every field numbered `number` holds a run of bytes.
pub open spec fn all_length_delimited(fields: Seq<Field>, number: u32) -> bool {
    forall|i: int|
        0 <= i < fields.len() && (#[trigger] fields[i]).number == number
            ==> fields[i].value is LengthDelimited
}

/// The bytes of the first field numbered `number`, if there is one.
pub open spec fn first_bytes(fields: Seq<Field>, number: u32) -> Option<Seq<u8>>
    decreases fields.len(),
{
    if fields.len() == 0 {
        None
    } else if fields[0].number == number {
        Some(payload(fields[0]))
    } else {
        first_bytes(fields.drop_first(), number)
    }
}

/// The bytes of the last field numbered `number`; none where there is no
/// such field.
pub open spec fn last_bytes(fields: Seq<Field>, number: u32) -> Seq<u8>
    decreases fields.len(),
{
    if fields.len() == 0 {
        Seq::empty()
    } else if fields.last().number == number {
        payload(fields.last())
    } else {
        last_bytes(fields.drop_last(), number)
    }
}

/// The number in the last field numbered `number`; zero where there is no
/// such field.
pub open spec fn last_varint(fields: Seq<Field>, number: u32) -> u64
    decreases fields.len(),
{
    if fields.len() == 0 {
        0
    } else if fields.last().number == number {
        scalar(fields.last())
    } else {
        last_varint(fields.drop_last(), number)
    }
}

/// The bytes of every field numbered `number`, in the order in which the
/// fields are written.
pub open spec fn repeated_bytes(fields: Seq<Field>, number: u32) -> Seq<Seq<u8>>
    decreases fields.len(),
{
    if fields.len() == 0 {
        Seq::empty()
    } else if fields.last().number == number {
        repeated_bytes(fields.drop_last(), number).push(payload(fields.last()))
    } else {
        repeated_bytes(fields.drop_last(), number)
    }
}

/// The byte strings that a list of byte vectors stands for.
pub open spec fn byte_strings(list: Seq<Vec<u8>>) -> Seq<Seq<u8>> {
    Seq::new(list.len(), |i: int| list[i]@)
}

/// Tells whether every field numbered `number` holds a run of bytes.
pub fn only_length_delimited(fields: &Vec<RawField>, number: u32) -> (r: bool)
    ensures
        r == all_length_delimited(field_views(fields@), number),
{
    let mut i: usize = 0;
    while i < fields.len()
        invariant
            i <= fields.len(),
            forall|j: int|
                0 <= j < i && (#[trigger] field_views(fields@)[j]).number == number
                    ==> field_views(fields@)[j].value is LengthDelimited,
        decreases fields.len() - i,
    {
        if fields[i].number == number {
            match fields[i].value {
                RawValue::LengthDelimited(_) => {},
                _ => {
                    assert(field_views(fields@)[i as int].number == number);
                    return false;
                },
            }
        }
        i = i + 1;
    }
    true
}

/// Copies the bytes that a field holds.
pub fn payload_of(field: &RawField) -> (r: Vec<u8>)
    ensures
        r@ == payload(field@),
{
    match field.value {
        RawValue::LengthDelimited(bytes) => slice_to_vec(bytes),
        _ => Vec::new(),
    }
}

/// Copies the bytes of the last field numbered `number`.
pub fn last_bytes_of(fields: &Vec<RawField>, number: u32) -> (r: Vec<u8>)
    ensures
        r@ == last_bytes(field_views(fields@), number),
{
    let ghost all = field_views(fields@);
    let mut i: usize = fields.len();
    proof {
        assert(all.take(i as int) =~= all);
    }
    while i > 0
        invariant
            i <= fields.len(),
            all == field_views(fields@),
            last_bytes(all, number) == last_bytes(all.take(i as int), number),
        decreases i,
    {
        i = i - 1;
        proof {
            assert(all.take(i + 1).drop_last() =~= all.take(i as int));
            assert(all.take(i + 1).last() == fields[i as int]@);
        }
        if fields[i].number == number {
            return payload_of(&fields[i]);
        }
    }
    Vec::new()
}

/// The number in the last field numbered `number`.
pub fn last_varint_of(fields: &Vec<RawField>, number: u32) -> (r: u64)
    ensures
        r == last_varint(field_views(fields@), number),
{
    let ghost all = field_views(fields@);
    let mut i: usize = fields.len();
    proof {
        assert(all.take(i as int) =~= all);
    }
    while i > 0
        invariant
            i <= fields.len(),
            all == field_views(fields@),
            last_varint(all, number) == last_varint(all.take(i as int), number),
        decreases i,
    {
        i = i - 1;
        proof {
            assert(all.take(i + 1).drop_last() =~= all.take(i as int));
            assert(all.take(i + 1).last() == fields[i as int]@);
        }
        if fields[i].number == number {
            return match fields[i].value {
                RawValue::Varint(v) => v,
                _ => 0,
            };
        }
    }
    0
}

/// Finds the first field numbered `number`, if there is one.
pub fn first_field_of(fields: &Vec<RawField>, number: u32) -> (r: Option<usize>)
    ensures
        match r {
            Some(j) => j < fields.len() && fields[j as int].number == number && first_bytes(
                field_views(fields@),
                number,
            ) == Some(payload(fields[j as int]@)),
            None => first_bytes(field_views(fields@), number) is None,
        },
{
    let ghost all = field_views(fields@);
    let mut i: usize = 0;
    proof {
        assert(all.skip(0) =~= all);
    }
    while i < fields.len()
        invariant
            i <= fields.len(),
            all == field_views(fields@),
            first_bytes(all, number) == first_bytes(all.skip(i as int), number),
        decreases fields.len() - i,
    {
        proof {
            assert(all.skip(i as int)[0] == fields[i as int]@);
            assert(all.skip(i as int).drop_first() =~= all.skip(i + 1));
        }
        if fields[i].number == number {
            return Some(i);
        }
        i = i + 1;
    }
    None
}

/// Copies the bytes of every field numbered `number`, in order.
pub fn repeated_bytes_of(fields: &Vec<RawField>, number: u32) -> (r: Vec<Vec<u8>>)
    ensures
        byte_strings(r@) == repeated_bytes(field_views(fields@), number),
{
    let ghost all = field_views(fields@);
    let mut out: Vec<Vec<u8>> = Vec::new();
    let mut i: usize = 0;
    proof {
        assert(byte_strings(out@) =~= Seq::empty());
    }
    while i < fields.len()
        invariant
            i <= fields.len(),
            all == field_views(fields@),
            byte_strings(out@) == repeated_bytes(all.take(i as int), number),
        decreases fields.len() - i,
    {
        proof {
            assert(all.take(i + 1).drop_last() =~= all.take(i as int));
            assert(all.take(i + 1).last() == fields[i as int]@);
        }
        if fields[i].number == number {
            let ghost before = out@;
            let bytes = payload_of(&fields[i]);
            out.push(bytes);
            proof {
                assert(byte_strings(out@) =~= byte_strings(before).push(bytes@));
            }
        }
        i = i + 1;
    }
    proof {
        assert(all.take(i as int) =~= all);
    }
    out
}

/// Fields of other numbers behind a list do not change what the last field
/// numbered `number` holds.
pub proof fn lemma_last_bytes_skips(front: Seq<Field>, back: Seq<Field>, number: u32)
    requires
        forall|j: int| 0 <= j < back.len() ==> (#[trigger] back[j]).number != number,
    ensures
        last_bytes(front + back, number) == last_bytes(front, number),
    decreases back.len(),
{
    if back.len() == 0 {
        assert(front + back =~= front);
    } else {
        assert((front + back).drop_last() =~= front + back.drop_last());
        assert((front + back).last() == back[back.len() - 1]);
        lemma_last_bytes_skips(front, back.drop_last(), number);
    }
}

/// The items of a repeated field in two lists, one behind the other, are
/// those of the first followed by those of the second.
pub proof fn lemma_repeated_bytes_concat(front: Seq<Field>, back: Seq<Field>, number: u32)
    ensures
        repeated_bytes(front + back, number) == repeated_bytes(front, number) + repeated_bytes(
            back,
            number,
        ),
    decreases back.len(),
{
    if back.len() == 0 {
        assert(front + back =~= front);
        assert(repeated_bytes(front, number) + repeated_bytes(back, number) =~= repeated_bytes(
            front,
            number,
        ));
    } else {
        assert((front + back).drop_last() =~= front + back.drop_last());
        assert((front + back).last() == back.last());
        lemma_repeated_bytes_concat(front, back.drop_last(), number);
        let head = repeated_bytes(front, number);
        let mid = repeated_bytes(back.drop_last(), number);
        if back.last().number == number {
            assert((head + mid).push(payload(back.last())) =~= head + mid.push(
                payload(back.last()),
            ));
        }
    }
}

/// A list without a field numbered `number` holds no item of that field.
pub proof fn lemma_repeated_bytes_absent(fields: Seq<Field>, number: u32)
    requires
        forall|j: int| 0 <= j < fields.len() ==> (#[trigger] fields[j]).number != number,
    ensures
        repeated_bytes(fields, number) == Seq::<Seq<u8>>::empty(),
    decreases fields.len(),
{
    if fields.len() > 0 {
        assert(fields.last() == fields[fields.len() - 1]);
        lemma_repeated_bytes_absent(fields.drop_last(), number);
    }
}

/// The fields that a list of byte strings is written as hold those
/// strings, in order.
pub proof fn lemma_repeated_bytes_of_fields(number: u32, items: Seq<Seq<u8>>)
    ensures
        repeated_bytes(repeated_bytes_fields(number, items), number) == items,
    decreases items.len(),
{
    let fields = repeated_bytes_fields(number, items);
    if items.len() == 0 {
        assert(repeated_bytes(fields, number) =~= items);
    } else {
        assert(fields.drop_last() =~= repeated_bytes_fields(number, items.drop_last()));
        lemma_repeated_bytes_of_fields(number, items.drop_last());
        assert(items.drop_last().push(items.last()) =~= items);
    }
}

/// A field of bytes that is written once, read back, holds those bytes.
pub proof fn lemma_last_bytes_of_optional(number: u32, bytes: Seq<u8>)
    ensures
        last_bytes(optional_bytes_fields(number, bytes), number) == bytes,
{
    let fields = optional_bytes_fields(number, bytes);
    if bytes.len() == 0 {
        assert(last_bytes(fields, number) =~= bytes);
    } else {
        assert(fields.last() == bytes_field_of(number, bytes));
    }
}

} // verus!
