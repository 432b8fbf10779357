//! The body of a transaction. The account reads the messages in it, each a
//! type URL and a value that is handed on as it stands, and takes them only
//! from a body that is well-formed as a whole.

use crate::error::DecodeError;
use crate::fields::{
    last_bytes, last_bytes_of, only_length_delimited, payload, payload_of, repeated_bytes,
};
use crate::schema::{check_field, field_ok, well_formed, Schema};
use crate::text::string_from_utf8;
use crate::wire::{
    field_views, parse_fields, parse_message, Field, RawField, RawValue, RECURSION_LIMIT,
};
use vstd::prelude::*;
use vstd::utf8::{decode_utf8, valid_utf8};

verus! {

/// Field number of the messages in a body.
pub const MESSAGES_FIELD: u32 = 1;

/// Field number of the type URL in a message.
pub const TYPE_URL_FIELD: u32 = 1;

/// Field number of the value in a message.
pub const VALUE_FIELD: u32 = 2;

/// One message to be dispatched under the account's authority: what kind
/// of operation it is, and the operation itself, which the account does
/// not look into.
#[derive(Clone, Debug, PartialEq, Eq)]
pub struct StargateMsg {
    pub type_url: String,
    pub value: Vec<u8>,
}

/// What a message holds.
pub struct StargateMsgView {
    pub type_url: Seq<char>,
    pub value: Seq<u8>,
}

impl View for StargateMsg {
    type V = StargateMsgView;

    open spec fn view(&self) -> StargateMsgView {
        StargateMsgView { type_url: self.type_url@, value: self.value@ }
    }
}

/// What a list of messages holds.
pub open spec fn message_views(list: Seq<StargateMsg>) -> Seq<StargateMsgView> {
    Seq::new(list.len(), |i: int| list[i]@)
}

/// Every field numbered `number` holds valid UTF-8.
pub open spec fn all_utf8(fields: Seq<Field>, number: u32) -> bool {
    forall|i: int|
        0 <= i < fields.len() && (#[trigger] fields[i]).number == number ==> valid_utf8(
            payload(fields[i]),
        )
}

/// What the fields of a message say: the type URL and the value, of each
/// the last one that is written, and nothing where none is.
pub open spec fn any_view(fields: Seq<Field>) -> StargateMsgView {
    StargateMsgView {
        type_url: decode_utf8(last_bytes(fields, TYPE_URL_FIELD)),
        value: last_bytes(fields, VALUE_FIELD),
    }
}

/// The message that the bytes `s` stand for, where they are a well-formed
/// message one level down: every type URL is valid UTF-8, every value a
/// run of bytes, and every other field can be passed over.
pub open spec fn parse_any(s: Seq<u8>) -> Option<StargateMsgView> {
    if well_formed(Schema::Any, s, (RECURSION_LIMIT - 1) as nat) {
        Some(any_view(parse_fields(s, (RECURSION_LIMIT - 1) as nat)->0))
    } else {
        None
    }
}

/// The messages of the body `s`, in the order in which they are written.
/// The body must be well-formed as a whole: its messages and extension
/// options are well-formed messages, its memo is valid UTF-8, its timeout
/// height is a varint, and every other field can be passed over.
pub open spec fn parse_body_messages(s: Seq<u8>) -> Result<Seq<StargateMsgView>, DecodeError> {
    if well_formed(Schema::TxBody, s, RECURSION_LIMIT as nat) {
        let items = repeated_bytes(parse_fields(s, RECURSION_LIMIT as nat)->0, MESSAGES_FIELD);
        Ok(Seq::new(items.len(), |i: int| parse_any(items[i])->0))
    } else {
        Err(DecodeError::MalformedBody)
    }
}

/// Reads the type URL of a message from its fields: the last one, after
/// every one has been checked to be valid UTF-8.
fn type_url_of(fields: &Vec<RawField>) -> (r: Option<String>)
    ensures
        match r {
            Some(text) => all_utf8(field_views(fields@), TYPE_URL_FIELD) && text@ == decode_utf8(
                last_bytes(field_views(fields@), TYPE_URL_FIELD),
            ),
            None => !all_utf8(field_views(fields@), TYPE_URL_FIELD),
        },
{
    let ghost all = field_views(fields@);
    let mut type_url = String::new();
    let mut i: usize = 0;
    proof {
        assert(last_bytes(all.take(0), TYPE_URL_FIELD) =~= Seq::<u8>::empty());
        assert(decode_utf8(Seq::<u8>::empty()) =~= Seq::<char>::empty());
    }
    while i < fields.len()
        invariant
            i <= fields.len(),
            all == field_views(fields@),
            forall|j: int|
                0 <= j < i && (#[trigger] all[j]).number == TYPE_URL_FIELD ==> valid_utf8(
                    payload(all[j]),
                ),
            type_url@ == decode_utf8(last_bytes(all.take(i as int), TYPE_URL_FIELD)),
        decreases fields.len() - i,
    {
        proof {
            assert(all.take(i + 1).drop_last() =~= all.take(i as int));
            assert(all.take(i + 1).last() == all[i as int]);
            assert(all[i as int] == fields[i as int]@);
        }
        if fields[i].number == TYPE_URL_FIELD {
            match string_from_utf8(payload_of(&fields[i])) {
                None => {
                    return None;
                },
                Some(text) => {
                    proof {
                        vstd::utf8::encode_utf8_decode_utf8(text@);
                    }
                    type_url = text;
                },
            }
        }
        i = i + 1;
    }
    proof {
        assert(all.take(i as int) =~= all);
    }
    Some(type_url)
}

/// Reads one message.
pub fn decode_any(bytes: &[u8]) -> (r: Option<StargateMsg>)
    ensures
        match r {
            Some(msg) => parse_any(bytes@) == Some(msg@),
            None => parse_any(bytes@) is None,
        },
{
    let fields = match parse_message(bytes, RECURSION_LIMIT - 1) {
        Some(fields) => fields,
        None => {
            return None;
        },
    };
    let ghost all = field_views(fields@);
    let ghost depth = (RECURSION_LIMIT - 1) as nat;
    if !only_length_delimited(&fields, TYPE_URL_FIELD) || !only_length_delimited(
        &fields,
        VALUE_FIELD,
    ) {
        proof {
            let i = choose|i: int|
                0 <= i < all.len() && ((#[trigger] all[i]).number == TYPE_URL_FIELD
                    || all[i].number == VALUE_FIELD) && !(all[i].value is LengthDelimited);
            assert(!field_ok(Schema::Any, all[i], depth));
        }
        return None;
    }
    match type_url_of(&fields) {
        None => {
            proof {
                let i = choose|i: int|
                    0 <= i < all.len() && (#[trigger] all[i]).number == TYPE_URL_FIELD
                        && !valid_utf8(payload(all[i]));
                assert(!field_ok(Schema::Any, all[i], depth));
            }
            None
        },
        Some(type_url) => {
            let value = last_bytes_of(&fields, VALUE_FIELD);
            proof {
                assert forall|i: int| 0 <= i < all.len() implies field_ok(
                    Schema::Any,
                    #[trigger] all[i],
                    depth,
                ) by {}
            }
            Some(StargateMsg { type_url, value })
        },
    }
}

/// Reads the messages of a body, in the order in which they are written,
/// and holds every other field of the body to its kind.
pub fn body_messages(body_bytes: &[u8]) -> (r: Result<Vec<StargateMsg>, DecodeError>)
    ensures
        match r {
            Ok(messages) => parse_body_messages(body_bytes@) == Ok::<
                Seq<StargateMsgView>,
                DecodeError,
            >(message_views(messages@)),
            Err(e) => parse_body_messages(body_bytes@) == Err::<Seq<StargateMsgView>, DecodeError>(
                e,
            ),
        },
{
    let fields = match parse_message(body_bytes, RECURSION_LIMIT) {
        Some(fields) => fields,
        None => {
            return Err(DecodeError::MalformedBody);
        },
    };
    let ghost all = field_views(fields@);
    let ghost depth = RECURSION_LIMIT as nat;
    let mut messages: Vec<StargateMsg> = Vec::new();
    let mut i: usize = 0;
    proof {
        assert(message_views(messages@) =~= Seq::new(
            repeated_bytes(all.take(0), MESSAGES_FIELD).len(),
            |k: int| parse_any(repeated_bytes(all.take(0), MESSAGES_FIELD)[k])->0,
        ));
    }
    while i < fields.len()
        invariant
            i <= fields.len(),
            all == field_views(fields@),
            depth == RECURSION_LIMIT as nat,
            parse_fields(body_bytes@, depth) == Some(all),
            forall|j: int| 0 <= j < i ==> field_ok(Schema::TxBody, #[trigger] all[j], depth),
            message_views(messages@) == Seq::new(
                repeated_bytes(all.take(i as int), MESSAGES_FIELD).len(),
                |k: int| parse_any(repeated_bytes(all.take(i as int), MESSAGES_FIELD)[k])->0,
            ),
        decreases fields.len() - i,
    {
        let ghost before = repeated_bytes(all.take(i as int), MESSAGES_FIELD);
        proof {
            assert(all.take(i + 1).drop_last() =~= all.take(i as int));
            assert(all.take(i + 1).last() == all[i as int]);
            assert(all[i as int] == fields[i as int]@);
        }
        if fields[i].number == MESSAGES_FIELD {
            let decoded = match fields[i].value {
                RawValue::LengthDelimited(bytes) => decode_any(bytes),
                _ => None,
            };
            match decoded {
                None => {
                    proof {
                        assert(!field_ok(Schema::TxBody, all[i as int], depth));
                    }
                    return Err(DecodeError::MalformedBody);
                },
                Some(msg) => {
                    let ghost old_messages = messages@;
                    messages.push(msg);
                    proof {
                        let after = repeated_bytes(all.take(i + 1), MESSAGES_FIELD);
                        assert(after == before.push(payload(all[i as int])));
                        assert(parse_any(payload(all[i as int])) == Some(msg@));
                        assert(messages@ == old_messages.push(msg));
                        assert(message_views(old_messages).len() == old_messages.len());
                        assert(old_messages.len() == before.len());
                        assert forall|k: int| 0 <= k < before.len() implies message_views(
                            messages@,
                        )[k] == parse_any(after[k])->0 by {
                            assert(messages@[k] == old_messages[k]);
                            assert(message_views(messages@)[k] == message_views(old_messages)[k]);
                            assert(after[k] == before[k]);
                        }
                        assert(message_views(messages@) =~= Seq::new(
                            after.len(),
                            |k: int| parse_any(after[k])->0,
                        ));
                    }
                },
            }
        } else {
            if !check_field(Schema::TxBody, &fields[i], RECURSION_LIMIT) {
                return Err(DecodeError::MalformedBody);
            }
        }
        i = i + 1;
    }
    proof {
        assert(all.take(i as int) =~= all);
    }
    Ok(messages)
}

} // verus!
