//! The signed envelope that a relayer submits: the body bytes, the
//! authorization-info bytes and the signatures over them.

use crate::error::DecodeError;
use crate::fields::{
    all_length_delimited, byte_strings, last_bytes, last_bytes_of, lemma_last_bytes_of_optional,
    lemma_last_bytes_skips, lemma_repeated_bytes_absent, lemma_repeated_bytes_concat,
    lemma_repeated_bytes_of_fields, only_length_delimited, repeated_bytes, repeated_bytes_of,
};
use crate::encode::{
    encode_bytes_field, encode_optional_bytes_field,
    lemma_parse_fields_after_optional_bytes_field, lemma_parse_fields_after_repeated_bytes_field,
    optional_bytes_field, optional_bytes_fields, repeated_bytes_field, repeated_bytes_fields,
};
use crate::wire::{parse_fields, parse_message, Field, RECURSION_LIMIT};
use vstd::prelude::*;

verus! {

/// Field number of the body bytes.
pub const BODY_BYTES_FIELD: u32 = 1;

/// Field number of the authorization-info bytes.
pub const AUTH_INFO_BYTES_FIELD: u32 = 2;

/// Field number of the signatures.
pub const SIGNATURES_FIELD: u32 = 3;

/// A signed transaction as it is submitted. The body and the authorization
/// info stay encoded: the signature is over these very bytes.
#[derive(Clone, Debug, PartialEq, Eq)]
pub struct SignedEnvelope {
    pub body_bytes: Vec<u8>,
    pub auth_info_bytes: Vec<u8>,
    pub signatures: Vec<Vec<u8>>,
}

/// What a signed envelope holds.
pub struct EnvelopeView {
    pub body_bytes: Seq<u8>,
    pub auth_info_bytes: Seq<u8>,
    pub signatures: Seq<Seq<u8>>,
}

impl View for SignedEnvelope {
    type V = EnvelopeView;

    open spec fn view(&self) -> EnvelopeView {
        EnvelopeView {
            body_bytes: self.body_bytes@,
            auth_info_bytes: self.auth_info_bytes@,
            signatures: byte_strings(self.signatures@),
        }
    }
}

/// The encoding of an envelope: the body and the authorization info, each
/// left out where empty, then one field for each signature.
pub open spec fn envelope_encoding(envelope: EnvelopeView) -> Seq<u8> {
    optional_bytes_field(BODY_BYTES_FIELD, envelope.body_bytes) + optional_bytes_field(
        AUTH_INFO_BYTES_FIELD,
        envelope.auth_info_bytes,
    ) + repeated_bytes_field(SIGNATURES_FIELD, envelope.signatures)
}

/// The three fields of an envelope hold runs of bytes wherever they occur.
pub open spec fn envelope_fields_typed(fields: Seq<Field>) -> bool {
    &&& all_length_delimited(fields, BODY_BYTES_FIELD)
    &&& all_length_delimited(fields, AUTH_INFO_BYTES_FIELD)
    &&& all_length_delimited(fields, SIGNATURES_FIELD)
}

/// The envelope that the bytes `s` stand for. They must be a well-formed
/// message in which the three fields of an envelope hold bytes, and must
/// carry at least one signature. Fields of other numbers are passed over;
/// of a repeated body or authorization info the last one counts.
pub open spec fn parse_envelope(s: Seq<u8>) -> Result<EnvelopeView, DecodeError> {
    match parse_fields(s, RECURSION_LIMIT as nat) {
        None => Err(DecodeError::MalformedEnvelope),
        Some(fields) => if !envelope_fields_typed(fields) {
            Err(DecodeError::MalformedEnvelope)
        } else if repeated_bytes(fields, SIGNATURES_FIELD).len() == 0 {
            Err(DecodeError::MissingSignature)
        } else {
            Ok(
                EnvelopeView {
                    body_bytes: last_bytes(fields, BODY_BYTES_FIELD),
                    auth_info_bytes: last_bytes(fields, AUTH_INFO_BYTES_FIELD),
                    signatures: repeated_bytes(fields, SIGNATURES_FIELD),
                },
            )
        },
    }
}

impl SignedEnvelope {
    /// Reads an envelope from the bytes that a relayer submitted.
    pub fn decode(bytes: &[u8]) -> (r: Result<SignedEnvelope, DecodeError>)
        ensures
            match r {
                Ok(envelope) => parse_envelope(bytes@) == Ok::<EnvelopeView, DecodeError>(
                    envelope@,
                ),
                Err(e) => parse_envelope(bytes@) == Err::<EnvelopeView, DecodeError>(e),
            },
    {
        let fields = match parse_message(bytes, RECURSION_LIMIT) {
            Some(fields) => fields,
            None => {
                return Err(DecodeError::MalformedEnvelope);
            },
        };
        if !only_length_delimited(&fields, BODY_BYTES_FIELD) || !only_length_delimited(
            &fields,
            AUTH_INFO_BYTES_FIELD,
        ) || !only_length_delimited(&fields, SIGNATURES_FIELD) {
            return Err(DecodeError::MalformedEnvelope);
        }
        let signatures = repeated_bytes_of(&fields, SIGNATURES_FIELD);
        if signatures.len() == 0 {
            return Err(DecodeError::MissingSignature);
        }
        let body_bytes = last_bytes_of(&fields, BODY_BYTES_FIELD);
        let auth_info_bytes = last_bytes_of(&fields, AUTH_INFO_BYTES_FIELD);
        Ok(SignedEnvelope { body_bytes, auth_info_bytes, signatures })
    }

    /// Writes the envelope as the bytes that `decode` reads.
    pub fn encode(&self) -> (out: Vec<u8>)
        ensures
            out@ == envelope_encoding(self@),
    {
        let mut out: Vec<u8> = Vec::new();
        encode_optional_bytes_field(BODY_BYTES_FIELD, self.body_bytes.as_slice(), &mut out);
        encode_optional_bytes_field(
            AUTH_INFO_BYTES_FIELD,
            self.auth_info_bytes.as_slice(),
            &mut out,
        );
        let ghost head = out@;
        let ghost items = byte_strings(self.signatures@);
        let mut i: usize = 0;
        proof {
            assert(out@ =~= head + repeated_bytes_field(SIGNATURES_FIELD, items.take(0)));
        }
        while i < self.signatures.len()
            invariant
                i <= self.signatures.len(),
                items == byte_strings(self.signatures@),
                out@ == head + repeated_bytes_field(SIGNATURES_FIELD, items.take(i as int)),
            decreases self.signatures.len() - i,
        {
            let ghost before = out@;
            encode_bytes_field(SIGNATURES_FIELD, self.signatures[i].as_slice(), &mut out);
            proof {
                assert(items.take(i + 1).drop_last() =~= items.take(i as int));
                assert(items.take(i + 1).last() == self.signatures[i as int]@);
                assert(out@ =~= head + repeated_bytes_field(
                    SIGNATURES_FIELD,
                    items.take(i + 1),
                ));
            }
            i = i + 1;
        }
        proof {
            assert(items.take(i as int) =~= items);
            assert(out@ =~= envelope_encoding(self@));
        }
        out
    }
}

/// Round trip. An envelope that carries at least one signature, written
/// with `encode` and read with `decode`, comes back as it was: the same
/// body bytes, the same authorization-info bytes and the same signatures in
/// the same order. One without a signature is written too, and is refused
/// when read, for want of a signature.
pub proof fn lemma_envelope_round_trip(envelope: SignedEnvelope)
    ensures
        parse_envelope(envelope_encoding(envelope@)) == (if envelope.signatures@.len() > 0 {
            Ok::<EnvelopeView, DecodeError>(envelope@)
        } else {
            Err::<EnvelopeView, DecodeError>(DecodeError::MissingSignature)
        }),
{
    let depth = RECURSION_LIMIT as nat;
    let body = envelope@.body_bytes;
    let auth = envelope@.auth_info_bytes;
    let sigs = envelope@.signatures;
    let body_fields = optional_bytes_fields(BODY_BYTES_FIELD, body);
    let auth_fields = optional_bytes_fields(AUTH_INFO_BYTES_FIELD, auth);
    let sig_fields = repeated_bytes_fields(SIGNATURES_FIELD, sigs);
    let fields = body_fields + auth_fields + sig_fields;

    // What the encoding is read as.
    let sig_bytes = repeated_bytes_field(SIGNATURES_FIELD, sigs);
    let auth_bytes = optional_bytes_field(AUTH_INFO_BYTES_FIELD, auth);
    let body_bytes = optional_bytes_field(BODY_BYTES_FIELD, body);
    let none = Seq::<u8>::empty();
    assert(parse_fields(none, depth) == Some(Seq::<Field>::empty()));
    assert(body.len() == envelope.body_bytes.len());
    assert(auth.len() == envelope.auth_info_bytes.len());
    assert forall|i: int| 0 <= i < sigs.len() implies (#[trigger] sigs[i]).len() <= u64::MAX by {
        assert(sigs[i].len() == envelope.signatures@[i].len());
    }
    lemma_parse_fields_after_repeated_bytes_field(SIGNATURES_FIELD, sigs, none, depth);
    assert(sig_bytes + none =~= sig_bytes);
    assert(sig_fields + Seq::<Field>::empty() =~= sig_fields);
    lemma_parse_fields_after_optional_bytes_field(AUTH_INFO_BYTES_FIELD, auth, sig_bytes, depth);
    lemma_parse_fields_after_optional_bytes_field(
        BODY_BYTES_FIELD,
        body,
        auth_bytes + sig_bytes,
        depth,
    );
    assert(envelope_encoding(envelope@) =~= body_bytes + (auth_bytes + sig_bytes));
    assert(body_fields + (auth_fields + sig_fields) =~= fields);
    assert(parse_fields(envelope_encoding(envelope@), depth) == Some(fields));

    // What those fields hold.
    assert(envelope_fields_typed(fields));
    lemma_last_bytes_skips(body_fields, auth_fields + sig_fields, BODY_BYTES_FIELD);
    lemma_last_bytes_of_optional(BODY_BYTES_FIELD, body);
    lemma_last_bytes_skips(body_fields + auth_fields, sig_fields, AUTH_INFO_BYTES_FIELD);
    if auth.len() == 0 {
        assert(body_fields + auth_fields =~= body_fields);
        lemma_last_bytes_skips(Seq::empty(), body_fields, AUTH_INFO_BYTES_FIELD);
        assert(Seq::<Field>::empty() + body_fields =~= body_fields);
    } else {
        assert((body_fields + auth_fields).last() == auth_fields[0]);
    }
    lemma_repeated_bytes_concat(body_fields + auth_fields, sig_fields, SIGNATURES_FIELD);
    lemma_repeated_bytes_absent(body_fields + auth_fields, SIGNATURES_FIELD);
    lemma_repeated_bytes_of_fields(SIGNATURES_FIELD, sigs);
    assert(Seq::<Seq<u8>>::empty() + sigs =~= sigs);
    assert(fields =~= (body_fields + auth_fields) + sig_fields);
    assert(last_bytes(fields, BODY_BYTES_FIELD) == body);
    assert(last_bytes(fields, AUTH_INFO_BYTES_FIELD) == auth);
    assert(repeated_bytes(fields, SIGNATURES_FIELD) == sigs);
}

} // verus!
