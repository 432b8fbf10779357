//! The account: setting it up, relaying a signed transaction, and reading
//! its record.

use crate::auth_info::{declared_sequence, parse_declared_sequence};
use crate::body::{body_messages, parse_body_messages, StargateMsgView};
use crate::context::{Attribute, Env, MessageInfo, Response, ResponseView};
use crate::crypto::{secp256k1_verification, secp256k1_verify, sha256_digest};
use crate::envelope::{parse_envelope, EnvelopeView, SignedEnvelope};
use crate::error::ContractError;
use crate::msg::{
    ExecuteMsg, InstantiateMsg, QueryMsg, SignerInfoResponse, SignerInfoResponseView,
};
use crate::sign_doc::{sign_doc_encoding, SignDoc, SignDocView};
use crate::state::{PubKey, PubKeyView, SignerInfo, SignerInfoView};
use vstd::prelude::*;

verus! {

/// The one kind of key that an account verifies with.
pub const SECP256K1_TYPE_URL: &'static str = "/cosmos.crypto.secp256k1.PubKey";

/// The account number that stands in every signing document. It is a fixed
/// value that signer and account agree on, not the number that the chain
/// gave the account.
pub const DEFAULT_ACCOUNT_NUM: u64 = 0;

/// The kind of key is the one that an account verifies with.
pub open spec fn supported_key_type(type_url: Seq<char>) -> bool {
    type_url == SECP256K1_TYPE_URL@
}

/// The signing document of an envelope on the chain `chain_id`.
pub open spec fn sign_doc_of(envelope: EnvelopeView, chain_id: Seq<char>) -> SignDocView {
    SignDocView {
        body_bytes: envelope.body_bytes,
        auth_info_bytes: envelope.auth_info_bytes,
        chain_id,
        account_number: DEFAULT_ACCOUNT_NUM,
    }
}

/// What verification says of the first signature of an envelope under the
/// key `public_key`: the signature is held against the SHA-256 digest of
/// the encoded signing document. `None` too where there is no signature.
pub open spec fn signature_check(
    public_key: PubKeyView,
    envelope: EnvelopeView,
    chain_id: Seq<char>,
) -> Option<bool> {
    if envelope.signatures.len() == 0 {
        None
    } else {
        secp256k1_verification(
            sha256_digest(sign_doc_encoding(sign_doc_of(envelope, chain_id))),
            envelope.signatures[0],
            public_key.key,
        )
    }
}

/// What becomes of an envelope once verification has spoken: the messages
/// to relay, or the first reason to refuse it. The key must be of the
/// supported kind, the signature must have verified, the declared sequence
/// must be the stored one and must have a successor, and the body must be
/// well-formed.
pub open spec fn relay_verified_result(
    state: SignerInfoView,
    envelope: EnvelopeView,
    verification: Option<bool>,
) -> Result<Seq<StargateMsgView>, ContractError> {
    if !supported_key_type(state.public_key.type_url) {
        Err(ContractError::UnsupportedKeyType)
    } else if verification != Some(true) {
        Err(ContractError::SignatureVerificationFailed)
    } else {
        match parse_declared_sequence(envelope.auth_info_bytes) {
            Err(e) => Err(ContractError::Decode(e)),
            Ok(declared) => if declared != state.sequence {
                Err(ContractError::InvalidNonce { expected: state.sequence, declared })
            } else if state.sequence == u64::MAX {
                Err(ContractError::SequenceExhausted)
            } else {
                match parse_body_messages(envelope.body_bytes) {
                    Err(e) => Err(ContractError::Decode(e)),
                    Ok(messages) => Ok(messages),
                }
            },
        }
    }
}

/// What becomes of the submitted bytes `tx` at an account in state `state`
/// on the chain `chain_id`: the messages to relay, in the order in which
/// the body holds them, or the first reason to refuse the transaction.
pub open spec fn relay_result(state: SignerInfoView, chain_id: Seq<char>, tx: Seq<u8>) -> Result<
    Seq<StargateMsgView>,
    ContractError,
> {
    match parse_envelope(tx) {
        Err(e) => Err(ContractError::Decode(e)),
        Ok(envelope) => relay_verified_result(
            state,
            envelope,
            signature_check(state.public_key, envelope, chain_id),
        ),
    }
}

/// The sequence that the account holds after `tx` was submitted: one more
/// where the transaction was relayed, the same where it was refused.
pub open spec fn sequence_after(state: SignerInfoView, chain_id: Seq<char>, tx: Seq<u8>) -> nat {
    if relay_result(state, chain_id, tx) is Ok {
        (state.sequence + 1) as nat
    } else {
        state.sequence as nat
    }
}

/// What setting an account up hands back.
pub open spec fn instantiate_response(sender: Seq<char>) -> ResponseView {
    ResponseView {
        attributes: seq![("method"@, "instantiate"@), ("owner"@, sender)],
        messages: Seq::empty(),
    }
}

/// What a relayed transaction hands back.
pub open spec fn relay_response(messages: Seq<StargateMsgView>) -> ResponseView {
    ResponseView { attributes: seq![("action"@, "send_tx"@)], messages }
}

/// The answer to a query for the record `state`.
pub open spec fn signer_info_response(state: SignerInfoView) -> SignerInfoResponseView {
    SignerInfoResponseView { sequence: state.sequence, public_key: state.public_key }
}

/// Tells whether the kind of key is the one that an account verifies with.
pub fn is_supported_key_type(type_url: &String) -> (r: bool)
    ensures
        r == supported_key_type(type_url@),
{
    let expected: String = SECP256K1_TYPE_URL.to_owned();
    *type_url == expected
}

/// Sets an account up: the record holds the given key and sequence zero.
/// A key of another kind than secp256k1 is refused.
pub fn instantiate(_env: Env, info: MessageInfo, msg: InstantiateMsg) -> (r: Result<
    (SignerInfo, Response),
    ContractError,
>)
    ensures
        match r {
            Ok(made) => supported_key_type(msg.type_url@) && made.0@ == (SignerInfoView {
                public_key: PubKeyView { type_url: msg.type_url@, key: msg.key@ },
                sequence: 0,
            }) && made.1@ == instantiate_response(info.sender@),
            Err(e) => !supported_key_type(msg.type_url@) && e == ContractError::UnsupportedKeyType,
        },
{
    if !is_supported_key_type(&msg.type_url) {
        return Err(ContractError::UnsupportedKeyType);
    }
    let state = SignerInfo {
        public_key: PubKey { type_url: msg.type_url, key: msg.key },
        sequence: 0,
    };
    let mut attributes: Vec<Attribute> = Vec::new();
    attributes.push(Attribute { key: "method".to_owned(), value: "instantiate".to_owned() });
    attributes.push(Attribute { key: "owner".to_owned(), value: info.sender });
    let response = Response { attributes, messages: Vec::new() };
    proof {
        assert(response@.attributes =~= instantiate_response(info.sender@).attributes);
        assert(response@.messages =~= instantiate_response(info.sender@).messages);
    }
    Ok((state, response))
}

/// Lets a signature pass only where verification took it and found it
/// good.
pub fn require_verified(verification: Option<bool>) -> (r: Result<(), ContractError>)
    ensures
        r == (if verification == Some(true) {
            Ok::<(), ContractError>(())
        } else {
            Err::<(), ContractError>(ContractError::SignatureVerificationFailed)
        }),
{
    match verification {
        Some(true) => Ok(()),
        _ => Err(ContractError::SignatureVerificationFailed),
    }
}

/// Holds the sequence that a transaction declares against the stored one.
/// They must be equal: no window, no gap.
pub fn check_nonce(stored: u64, declared: u64) -> (r: Result<(), ContractError>)
    ensures
        r == (if declared == stored {
            Ok::<(), ContractError>(())
        } else {
            Err::<(), ContractError>(ContractError::InvalidNonce { expected: stored, declared })
        }),
{
    if declared == stored {
        Ok(())
    } else {
        Err(ContractError::InvalidNonce { expected: stored, declared })
    }
}

/// Checks the first signature of an envelope under `public_key`: builds
/// the signing document for the chain `chain_id`, hashes its encoding and
/// asks whether the signature is one by that key over the digest.
pub fn verify_envelope(public_key: &PubKey, envelope: &SignedEnvelope, chain_id: &str) -> (r:
    Option<bool>)
    ensures
        r == signature_check(public_key@, envelope@, chain_id@),
{
    if envelope.signatures.len() == 0 {
        return None;
    }
    let sign_doc = SignDoc {
        body_bytes: envelope.body_bytes.as_slice(),
        auth_info_bytes: envelope.auth_info_bytes.as_slice(),
        chain_id,
        account_number: DEFAULT_ACCOUNT_NUM,
    };
    let digest = sign_doc.digest();
    secp256k1_verify(
        digest.as_slice(),
        envelope.signatures[0].as_slice(),
        public_key.key.as_slice(),
    )
}

/// Relays an envelope once verification has spoken. Where every check
/// passes, the sequence goes up by one and the messages of the body are
/// handed back in order; where one fails, the record stays as it was.
pub fn relay_verified(state: &mut SignerInfo, envelope: &SignedEnvelope, verification: Option<
    bool,
>) -> (r: Result<Response, ContractError>)
    ensures
        final(state).public_key == old(state).public_key,
        match relay_verified_result(old(state)@, envelope@, verification) {
            Ok(messages) => r matches Ok(response) && response@ == relay_response(messages)
                && final(state).sequence == old(state).sequence + 1,
            Err(e) => r == Err::<Response, ContractError>(e) && final(state).sequence == old(
                state,
            ).sequence,
        },
{
    if !is_supported_key_type(&state.public_key.type_url) {
        return Err(ContractError::UnsupportedKeyType);
    }
    match require_verified(verification) {
        Err(e) => {
            return Err(e);
        },
        Ok(_) => {},
    }
    let declared = match declared_sequence(envelope.auth_info_bytes.as_slice()) {
        Ok(declared) => declared,
        Err(e) => {
            return Err(ContractError::Decode(e));
        },
    };
    match check_nonce(state.sequence, declared) {
        Err(e) => {
            return Err(e);
        },
        Ok(_) => {},
    }
    if state.sequence == u64::MAX {
        return Err(ContractError::SequenceExhausted);
    }
    let messages = match body_messages(envelope.body_bytes.as_slice()) {
        Ok(messages) => messages,
        Err(e) => {
            return Err(ContractError::Decode(e));
        },
    };
    state.sequence = state.sequence + 1;
    let mut attributes: Vec<Attribute> = Vec::new();
    attributes.push(Attribute { key: "action".to_owned(), value: "send_tx".to_owned() });
    let response = Response { attributes, messages };
    proof {
        assert(response@.attributes =~= seq![("action"@, "send_tx"@)]);
    }
    Ok(response)
}

/// Relays the signed transaction `tx_bytes`: reads the envelope, checks its
/// first signature over the signing document, checks the declared sequence
/// and hands the messages of the body back. The record changes only where
/// the transaction is relayed, and then only in its sequence.
pub fn execute_send_tx(
    state: &mut SignerInfo,
    env: Env,
    _info: MessageInfo,
    tx_bytes: Vec<u8>,
) -> (r: Result<Response, ContractError>)
    ensures
        final(state).public_key == old(state).public_key,
        final(state).sequence == sequence_after(old(state)@, env.chain_id@, tx_bytes@),
        match relay_result(old(state)@, env.chain_id@, tx_bytes@) {
            Ok(messages) => r matches Ok(response) && response@ == relay_response(messages),
            Err(e) => r == Err::<Response, ContractError>(e),
        },
{
    let envelope = match SignedEnvelope::decode(tx_bytes.as_slice()) {
        Ok(envelope) => envelope,
        Err(e) => {
            return Err(ContractError::Decode(e));
        },
    };
    let verification = verify_envelope(&state.public_key, &envelope, env.chain_id.as_str());
    relay_verified(state, &envelope, verification)
}

/// Does what `msg` asks for.
pub fn execute(state: &mut SignerInfo, env: Env, info: MessageInfo, msg: ExecuteMsg) -> (r: Result<
    Response,
    ContractError,
>)
    ensures
        final(state).public_key == old(state).public_key,
        match msg {
            ExecuteMsg::SendTx { tx } => {
                &&& final(state).sequence == sequence_after(old(state)@, env.chain_id@, tx@)
                &&& match relay_result(old(state)@, env.chain_id@, tx@) {
                    Ok(messages) => r matches Ok(response) && response@ == relay_response(
                        messages,
                    ),
                    Err(e) => r == Err::<Response, ContractError>(e),
                }
            },
        },
{
    match msg {
        ExecuteMsg::SendTx { tx } => execute_send_tx(state, env, info, tx),
    }
}

/// Reads the record: the key and the sequence, as they stand.
pub fn query_signer_info(state: &SignerInfo) -> (r: SignerInfoResponse)
    ensures
        r@ == signer_info_response(state@),
{
    SignerInfoResponse {
        public_key: PubKey {
            type_url: state.public_key.type_url.clone(),
            key: state.public_key.key.clone(),
        },
        sequence: state.sequence,
    }
}

/// Answers what `msg` asks about.
pub fn query(state: &SignerInfo, _env: Env, msg: QueryMsg) -> (r: SignerInfoResponse)
    ensures
        r@ == signer_info_response(state@),
{
    match msg {
        QueryMsg::SignerInfo {  } => query_signer_info(state),
    }
}

/// The record is one that `instantiate` makes and relaying keeps: its key
/// is of the supported kind.
pub open spec fn active(state: SignerInfoView) -> bool {
    supported_key_type(state.public_key.type_url)
}

/// An envelope whose first signature verifies under the stored key, which
/// declares the stored sequence and whose body is well-formed, is relayed
/// wherever the sequence has a successor: the call hands back the messages
/// of the body, in the order in which the body holds them, and the
/// sequence goes up by exactly one.
pub proof fn lemma_signed_envelope_relayed(
    state: SignerInfoView,
    chain_id: Seq<char>,
    tx: Seq<u8>,
    envelope: EnvelopeView,
)
    requires
        active(state),
        state.sequence < u64::MAX,
        parse_envelope(tx) == Ok::<EnvelopeView, crate::error::DecodeError>(envelope),
        signature_check(state.public_key, envelope, chain_id) == Some(true),
        parse_declared_sequence(envelope.auth_info_bytes) == Ok::<u64, crate::error::DecodeError>(
            state.sequence,
        ),
        parse_body_messages(envelope.body_bytes) is Ok,
    ensures
        relay_result(state, chain_id, tx) == Ok::<Seq<StargateMsgView>, ContractError>(
            parse_body_messages(envelope.body_bytes)->Ok_0,
        ),
        sequence_after(state, chain_id, tx) == state.sequence + 1,
{
}

/// An envelope whose signature verifies but which declares another
/// sequence than the stored one is refused as an invalid nonce, and the
/// sequence stays as it was.
pub proof fn lemma_wrong_sequence_refused(
    state: SignerInfoView,
    chain_id: Seq<char>,
    tx: Seq<u8>,
    envelope: EnvelopeView,
    declared: u64,
)
    requires
        active(state),
        parse_envelope(tx) == Ok::<EnvelopeView, crate::error::DecodeError>(envelope),
        signature_check(state.public_key, envelope, chain_id) == Some(true),
        parse_declared_sequence(envelope.auth_info_bytes) == Ok::<u64, crate::error::DecodeError>(
            declared,
        ),
        declared != state.sequence,
    ensures
        relay_result(state, chain_id, tx) == Err::<Seq<StargateMsgView>, ContractError>(
            ContractError::InvalidNonce { expected: state.sequence, declared },
        ),
        sequence_after(state, chain_id, tx) == state.sequence,
{
}

/// An envelope whose first signature does not verify under the stored key
/// is refused for that reason, whatever sequence it declares, and the
/// sequence stays as it was.
pub proof fn lemma_bad_signature_refused(
    state: SignerInfoView,
    chain_id: Seq<char>,
    tx: Seq<u8>,
    envelope: EnvelopeView,
)
    requires
        active(state),
        parse_envelope(tx) == Ok::<EnvelopeView, crate::error::DecodeError>(envelope),
        signature_check(state.public_key, envelope, chain_id) != Some(true),
    ensures
        relay_result(state, chain_id, tx) == Err::<Seq<StargateMsgView>, ContractError>(
            ContractError::SignatureVerificationFailed,
        ),
        sequence_after(state, chain_id, tx) == state.sequence,
{
}

/// Replay. A transaction that was relayed when the account stood at
/// `before` is refused at every later state `after` of the same account,
/// whose key is the same and whose sequence has gone up: the sequence that
/// the transaction declares is stale.
pub proof fn lemma_replay_refused(
    before: SignerInfoView,
    after: SignerInfoView,
    chain_id: Seq<char>,
    tx: Seq<u8>,
)
    requires
        relay_result(before, chain_id, tx) is Ok,
        after.public_key == before.public_key,
        after.sequence > before.sequence,
    ensures
        relay_result(after, chain_id, tx) == Err::<Seq<StargateMsgView>, ContractError>(
            ContractError::InvalidNonce { expected: after.sequence, declared: before.sequence },
        ),
        sequence_after(after, chain_id, tx) == after.sequence,
{
}

/// No call makes the sequence smaller, none moves it by more than one, and
/// none moves it past the largest sequence there is.
pub proof fn lemma_sequence_steps(state: SignerInfoView, chain_id: Seq<char>, tx: Seq<u8>)
    ensures
        state.sequence <= sequence_after(state, chain_id, tx) <= state.sequence + 1,
        sequence_after(state, chain_id, tx) <= u64::MAX,
        sequence_after(state, chain_id, tx) == state.sequence + 1 <==> relay_result(
            state,
            chain_id,
            tx,
        ) is Ok,
{
}

} // verus!
