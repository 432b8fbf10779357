use account_contract::context::{Attribute, Env, MessageInfo};
use account_contract::contract::{
    check_nonce, execute, execute_send_tx, instantiate, is_supported_key_type, query,
    query_signer_info, relay_verified, require_verified, verify_envelope, DEFAULT_ACCOUNT_NUM,
    SECP256K1_TYPE_URL,
};
use account_contract::envelope::SignedEnvelope;
use account_contract::error::{ContractError, DecodeError};
use account_contract::msg::{ExecuteMsg, InstantiateMsg, QueryMsg, SignerInfoResponse};
use account_contract::state::{PubKey, SignerInfo};
use cosmrs::proto::cosmos::tx::v1beta1::TxRaw;
use cosmrs::proto::traits::MessageExt;
use cosmrs::{
    bank::MsgSend,
    crypto::secp256k1,
    tx::{self, AccountNumber, Fee, Msg, SignDoc, SignerInfo as TxSignerInfo},
    AccountId, Coin,
};
use cosmwasm_std::testing::mock_env as host_env;
use std::str::FromStr;

fn mock_env() -> Env {
    Env { chain_id: host_env().block.chain_id }
}

fn mock_info(sender: &str) -> MessageInfo {
    MessageInfo { sender: sender.to_string() }
}

fn make_tx(sender_key: &secp256k1::SigningKey, chain_id: &str, sequence_number: u64) -> Vec<u8> {
    let account_prefix: &str = "prefix";
    let recipient_private_key = secp256k1::SigningKey::random();
    let recipient_account_id = recipient_private_key
        .public_key()
        .account_id(account_prefix)
        .unwrap();
    make_tx_to(sender_key, chain_id, sequence_number, recipient_account_id)
}

fn make_tx_to(
    sender_key: &secp256k1::SigningKey,
    chain_id: &str,
    sequence_number: u64,
    recipient_account_id: AccountId,
) -> Vec<u8> {
    let account_number: AccountNumber = 0;
    let denom: &str = "token";
    let memo: &str = "memo";
    let account_contract: &str = "preifx1qqke80wg";

    let sender_public_key = sender_key.public_key();

    let account_contract_id = AccountId::from_str(account_contract).unwrap();

    let amount = Coin {
        amount: 1u8.into(),
        denom: denom.parse().unwrap(),
    };

    let msg_send = MsgSend {
        from_address: account_contract_id.clone(),
        to_address: recipient_account_id,
        amount: vec![amount.clone()],
    }
    .to_any()
    .unwrap();

    let chain_id = chain_id.parse().unwrap();
    let gas = 100_000u64;
    let fee = Fee::from_amount_and_gas(amount, gas);

    let tx_body = tx::BodyBuilder::new().msg(msg_send).memo(memo).finish();
    let auth_info =
        TxSignerInfo::single_direct(Some(sender_public_key), sequence_number).auth_info(fee);
    let sign_doc = SignDoc::new(&tx_body, &auth_info, &chain_id, account_number).unwrap();
    let tx_raw: TxRaw = sign_doc.clone().sign(sender_key).unwrap().into();
    tx_raw.to_bytes().unwrap()
}

fn make_user_op_tx(sender_key: &secp256k1::SigningKey) -> Vec<u8> {
    let env = host_env();
    make_tx(sender_key, env.block.chain_id.as_str(), 0)
}

fn account_of(sender_key: &secp256k1::SigningKey) -> SignerInfo {
    let msg = InstantiateMsg {
        type_url: SECP256K1_TYPE_URL.into(),
        key: sender_key.public_key().to_bytes(),
    };
    instantiate(mock_env(), mock_info("creator"), msg).unwrap().0
}

#[test]
fn test_instantiate() {
    let sender_key = secp256k1::SigningKey::random();

    let msg = InstantiateMsg {
        type_url: SECP256K1_TYPE_URL.into(),
        key: sender_key.public_key().to_bytes(),
    };
    let info = mock_info("creator");

    // we can just call .unwrap() to assert this was a success
    let (state, res) = instantiate(mock_env(), info, msg).unwrap();
    assert_eq!(0, res.messages.len());

    // it worked, let's query the state
    let value: SignerInfoResponse = query(&state, mock_env(), QueryMsg::SignerInfo {});
    assert_eq!(0, value.sequence);
    assert_eq!(SECP256K1_TYPE_URL, value.public_key.type_url);
    assert_eq!(sender_key.public_key().to_bytes(), value.public_key.key);
}

#[test]
fn test_exec_send_tx() {
    let sender_key = secp256k1::SigningKey::random();

    let msg = InstantiateMsg {
        type_url: SECP256K1_TYPE_URL.into(),
        key: sender_key.public_key().to_bytes(),
    };
    let info = mock_info("creator");
    let (mut state, _res) = instantiate(mock_env(), info, msg).unwrap();

    // beneficiary can release it
    let info = mock_info("bundler");
    let msg = ExecuteMsg::SendTx {
        tx: make_user_op_tx(&sender_key),
    };
    let _res = execute(&mut state, mock_env(), info, msg).unwrap();

    // it worked, let's query the state
    let value: SignerInfoResponse = query(&state, mock_env(), QueryMsg::SignerInfo {});
    assert_eq!(1, value.sequence);
    assert_eq!(SECP256K1_TYPE_URL, value.public_key.type_url);
    assert_eq!(sender_key.public_key().to_bytes(), value.public_key.key);
}

#[test]
fn instantiate_reports_method_and_owner() {
    let sender_key = secp256k1::SigningKey::random();
    let msg = InstantiateMsg {
        type_url: SECP256K1_TYPE_URL.into(),
        key: sender_key.public_key().to_bytes(),
    };
    let (state, res) = instantiate(mock_env(), mock_info("creator"), msg).unwrap();
    assert_eq!(
        res.attributes,
        vec![
            Attribute { key: "method".to_string(), value: "instantiate".to_string() },
            Attribute { key: "owner".to_string(), value: "creator".to_string() },
        ]
    );
    assert_eq!(
        state,
        SignerInfo {
            public_key: PubKey {
                type_url: "/cosmos.crypto.secp256k1.PubKey".to_string(),
                key: sender_key.public_key().to_bytes(),
            },
            sequence: 0,
        }
    );
}

#[test]
fn instantiate_refuses_other_key_types() {
    let msg = InstantiateMsg {
        type_url: "/cosmos.crypto.ed25519.PubKey".to_string(),
        key: vec![1u8; 32],
    };
    let res = instantiate(mock_env(), mock_info("creator"), msg);
    assert_eq!(res.unwrap_err(), ContractError::UnsupportedKeyType);
    let msg = InstantiateMsg { type_url: String::new(), key: vec![] };
    let res = instantiate(mock_env(), mock_info("creator"), msg);
    assert_eq!(res.unwrap_err(), ContractError::UnsupportedKeyType);
    assert!(is_supported_key_type(&SECP256K1_TYPE_URL.to_string()));
    assert!(!is_supported_key_type(&"/cosmos.crypto.secp256k1.PubKey ".to_string()));
}

#[test]
fn relay_hands_back_the_message_of_the_body() {
    let sender_key = secp256k1::SigningKey::random();
    let mut state = account_of(&sender_key);
    let tx = make_user_op_tx(&sender_key);
    let raw = <TxRaw as cosmrs::proto::traits::Message>::decode(tx.as_slice()).unwrap();
    let body =
        <cosmrs::proto::cosmos::tx::v1beta1::TxBody as cosmrs::proto::traits::Message>::decode(
            raw.body_bytes.as_slice(),
        )
        .unwrap();

    let res = execute_send_tx(&mut state, mock_env(), mock_info("bundler"), tx).unwrap();
    assert_eq!(
        res.attributes,
        vec![Attribute { key: "action".to_string(), value: "send_tx".to_string() }]
    );
    assert_eq!(res.messages.len(), 1);
    assert_eq!(res.messages[0].type_url, "/cosmos.bank.v1beta1.MsgSend");
    assert_eq!(res.messages[0].type_url, body.messages[0].type_url);
    assert_eq!(res.messages[0].value, body.messages[0].value);
    assert_eq!(state.sequence, 1);
}

#[test]
fn accepted_then_replayed_then_signed_by_another_key() {
    let key = secp256k1::SigningKey::random();
    let other_key = secp256k1::SigningKey::random();
    let mut state = account_of(&key);
    let chain_id = host_env().block.chain_id;

    let first = make_tx(&key, chain_id.as_str(), 0);
    let res = execute_send_tx(&mut state, mock_env(), mock_info("bundler"), first.clone());
    assert_eq!(res.unwrap().messages.len(), 1);
    assert_eq!(state.sequence, 1);

    let res = execute_send_tx(&mut state, mock_env(), mock_info("bundler"), first);
    assert_eq!(res.unwrap_err(), ContractError::InvalidNonce { expected: 1, declared: 0 });
    assert_eq!(state.sequence, 1);

    let second = make_tx(&other_key, chain_id.as_str(), 1);
    let res = execute_send_tx(&mut state, mock_env(), mock_info("bundler"), second);
    assert_eq!(res.unwrap_err(), ContractError::SignatureVerificationFailed);
    assert_eq!(state.sequence, 1);

    let third = make_tx(&key, chain_id.as_str(), 1);
    let res = execute_send_tx(&mut state, mock_env(), mock_info("bundler"), third);
    assert!(res.is_ok());
    assert_eq!(state.sequence, 2);
}

#[test]
fn a_fixed_key_signs_the_same_transaction_every_time() {
    let key = secp256k1::SigningKey::from_slice(&[0x11u8; 32]).unwrap();
    let recipient = AccountId::new("prefix", &[7u8; 20]).unwrap();
    let chain_id = host_env().block.chain_id;
    let tx = make_tx_to(&key, chain_id.as_str(), 0, recipient.clone());
    assert_eq!(tx, make_tx_to(&key, chain_id.as_str(), 0, recipient));

    let envelope = SignedEnvelope::decode(tx.as_slice()).unwrap();
    assert_eq!(envelope.signatures.len(), 1);
    assert_eq!(envelope.signatures[0].len(), 64);
    assert_eq!(envelope.encode(), tx);

    let mut state = account_of(&key);
    assert_eq!(state.public_key.key.len(), 33);
    let res = execute_send_tx(&mut state, mock_env(), mock_info("bundler"), tx.clone()).unwrap();
    assert_eq!(res.messages.len(), 1);
    assert_eq!(res.messages[0].type_url, "/cosmos.bank.v1beta1.MsgSend");
    assert_eq!(state.sequence, 1);
    let res = execute_send_tx(&mut state, mock_env(), mock_info("bundler"), tx);
    assert_eq!(res.unwrap_err(), ContractError::InvalidNonce { expected: 1, declared: 0 });
}

#[test]
fn wrong_sequence_is_an_invalid_nonce() {
    let key = secp256k1::SigningKey::random();
    let mut state = account_of(&key);
    let before = state.clone();
    let tx = make_tx(&key, host_env().block.chain_id.as_str(), 7);
    let res = execute_send_tx(&mut state, mock_env(), mock_info("bundler"), tx);
    assert_eq!(res.unwrap_err(), ContractError::InvalidNonce { expected: 0, declared: 7 });
    assert_eq!(state, before);
}

#[test]
fn a_signature_for_another_chain_does_not_verify() {
    let key = secp256k1::SigningKey::random();
    let mut state = account_of(&key);
    let before = state.clone();
    let tx = make_tx(&key, "another-chain-1", 0);
    let res = execute_send_tx(&mut state, mock_env(), mock_info("bundler"), tx);
    assert_eq!(res.unwrap_err(), ContractError::SignatureVerificationFailed);
    assert_eq!(state, before);
}

#[test]
fn a_signature_for_another_account_number_does_not_verify() {
    let key = secp256k1::SigningKey::random();
    let mut state = account_of(&key);
    let chain_id = host_env().block.chain_id;
    let amount = Coin { amount: 1u8.into(), denom: "token".parse().unwrap() };
    let body = tx::BodyBuilder::new().memo("memo").finish();
    let auth_info = TxSignerInfo::single_direct(Some(key.public_key()), 0)
        .auth_info(Fee::from_amount_and_gas(amount, 100_000u64));
    let sign_doc =
        SignDoc::new(&body, &auth_info, &chain_id.parse().unwrap(), DEFAULT_ACCOUNT_NUM + 1)
            .unwrap();
    let raw: TxRaw = sign_doc.sign(&key).unwrap().into();
    let res = execute_send_tx(
        &mut state,
        mock_env(),
        mock_info("bundler"),
        raw.to_bytes().unwrap(),
    );
    assert_eq!(res.unwrap_err(), ContractError::SignatureVerificationFailed);
    assert_eq!(state.sequence, 0);
}

#[test]
fn a_tampered_body_does_not_verify() {
    let key = secp256k1::SigningKey::random();
    let mut state = account_of(&key);
    let tx = make_user_op_tx(&key);
    let mut envelope = SignedEnvelope::decode(tx.as_slice()).unwrap();
    let last = envelope.body_bytes.len() - 1;
    envelope.body_bytes[last] ^= 1;
    let res = execute_send_tx(&mut state, mock_env(), mock_info("bundler"), envelope.encode());
    assert_eq!(res.unwrap_err(), ContractError::SignatureVerificationFailed);
    assert_eq!(state.sequence, 0);
}

#[test]
fn a_malformed_signature_does_not_verify() {
    let key = secp256k1::SigningKey::random();
    let mut state = account_of(&key);
    let tx = make_user_op_tx(&key);
    let mut envelope = SignedEnvelope::decode(tx.as_slice()).unwrap();
    envelope.signatures[0].truncate(63);
    assert_eq!(verify_envelope(&state.public_key, &envelope, "cosmos-testnet-14002"), None);
    let res = execute_send_tx(&mut state, mock_env(), mock_info("bundler"), envelope.encode());
    assert_eq!(res.unwrap_err(), ContractError::SignatureVerificationFailed);
    assert_eq!(state.sequence, 0);
}

#[test]
fn verification_holds_the_signature_against_the_digest_of_the_document() {
    let key = secp256k1::SigningKey::random();
    let state = account_of(&key);
    let tx = make_user_op_tx(&key);
    let envelope = SignedEnvelope::decode(tx.as_slice()).unwrap();
    assert_eq!(
        verify_envelope(&state.public_key, &envelope, "cosmos-testnet-14002"),
        Some(true)
    );
    assert_eq!(
        verify_envelope(&state.public_key, &envelope, "cosmos-testnet-14003"),
        Some(false)
    );
    let other = account_of(&secp256k1::SigningKey::random());
    assert_eq!(
        verify_envelope(&other.public_key, &envelope, "cosmos-testnet-14002"),
        Some(false)
    );
    let no_key = PubKey { type_url: SECP256K1_TYPE_URL.to_string(), key: vec![] };
    assert_eq!(verify_envelope(&no_key, &envelope, "cosmos-testnet-14002"), None);
    let unsigned = SignedEnvelope {
        body_bytes: envelope.body_bytes.clone(),
        auth_info_bytes: envelope.auth_info_bytes.clone(),
        signatures: vec![],
    };
    assert_eq!(verify_envelope(&state.public_key, &unsigned, "cosmos-testnet-14002"), None);
}

#[test]
fn only_the_first_signature_counts() {
    let key = secp256k1::SigningKey::random();
    let mut state = account_of(&key);
    let tx = make_user_op_tx(&key);
    let mut envelope = SignedEnvelope::decode(tx.as_slice()).unwrap();
    envelope.signatures.push(vec![0u8; 64]);
    let res = execute_send_tx(&mut state, mock_env(), mock_info("bundler"), envelope.encode());
    assert!(res.is_ok());

    let mut state = account_of(&key);
    envelope.signatures.swap(0, 1);
    let res = execute_send_tx(&mut state, mock_env(), mock_info("bundler"), envelope.encode());
    assert_eq!(res.unwrap_err(), ContractError::SignatureVerificationFailed);
}

#[test]
fn bytes_that_are_no_envelope_are_refused() {
    let key = secp256k1::SigningKey::random();
    let mut state = account_of(&key);
    let before = state.clone();
    let res = execute_send_tx(&mut state, mock_env(), mock_info("bundler"), vec![0xff]);
    assert_eq!(res.unwrap_err(), ContractError::Decode(DecodeError::MalformedEnvelope));
    let res = execute_send_tx(&mut state, mock_env(), mock_info("bundler"), vec![]);
    assert_eq!(res.unwrap_err(), ContractError::Decode(DecodeError::MissingSignature));
    assert_eq!(state, before);
}

#[test]
fn a_record_with_another_key_type_relays_nothing() {
    let key = secp256k1::SigningKey::random();
    let mut state = account_of(&key);
    state.public_key.type_url = "/cosmos.crypto.ed25519.PubKey".to_string();
    let tx = make_user_op_tx(&key);
    let res = execute_send_tx(&mut state, mock_env(), mock_info("bundler"), tx);
    assert_eq!(res.unwrap_err(), ContractError::UnsupportedKeyType);
    assert_eq!(state.sequence, 0);
}

#[test]
fn signature_and_nonce_checks() {
    assert_eq!(require_verified(Some(true)), Ok(()));
    assert_eq!(require_verified(Some(false)), Err(ContractError::SignatureVerificationFailed));
    assert_eq!(require_verified(None), Err(ContractError::SignatureVerificationFailed));
    assert_eq!(check_nonce(4, 4), Ok(()));
    assert_eq!(check_nonce(4, 5), Err(ContractError::InvalidNonce { expected: 4, declared: 5 }));
    assert_eq!(check_nonce(4, 3), Err(ContractError::InvalidNonce { expected: 4, declared: 3 }));
    assert_eq!(
        check_nonce(0, u64::MAX),
        Err(ContractError::InvalidNonce { expected: 0, declared: u64::MAX })
    );
}

#[test]
fn relay_after_verification_by_hand() {
    // auth info: one signer entry that declares sequence 5
    let auth_info_bytes = vec![0x0a, 0x02, 0x18, 0x05];
    // body: two messages, "/a" with value [1, 2] and "/b" without value
    let body_bytes = vec![
        0x0a, 0x08, 0x0a, 0x02, 0x2f, 0x61, 0x12, 0x02, 0x01, 0x02, 0x0a, 0x04, 0x0a, 0x02, 0x2f,
        0x62,
    ];
    let envelope = SignedEnvelope { body_bytes, auth_info_bytes, signatures: vec![vec![9u8; 64]] };
    let fresh = SignerInfo {
        public_key: PubKey { type_url: SECP256K1_TYPE_URL.to_string(), key: vec![2u8; 33] },
        sequence: 5,
    };

    let mut state = fresh.clone();
    let res = relay_verified(&mut state, &envelope, Some(true)).unwrap();
    assert_eq!(state.sequence, 6);
    assert_eq!(state.public_key, fresh.public_key);
    assert_eq!(res.messages.len(), 2);
    assert_eq!(res.messages[0].type_url, "/a");
    assert_eq!(res.messages[0].value, vec![1u8, 2]);
    assert_eq!(res.messages[1].type_url, "/b");
    assert_eq!(res.messages[1].value, Vec::<u8>::new());

    let mut state = fresh.clone();
    let res = relay_verified(&mut state, &envelope, Some(false));
    assert_eq!(res.unwrap_err(), ContractError::SignatureVerificationFailed);
    assert_eq!(state, fresh);

    let mut state = fresh.clone();
    let res = relay_verified(&mut state, &envelope, None);
    assert_eq!(res.unwrap_err(), ContractError::SignatureVerificationFailed);
    assert_eq!(state, fresh);

    let mut state = fresh.clone();
    state.sequence = 6;
    let res = relay_verified(&mut state, &envelope, Some(true));
    assert_eq!(res.unwrap_err(), ContractError::InvalidNonce { expected: 6, declared: 5 });
    assert_eq!(state.sequence, 6);

    let mut state = fresh.clone();
    let mut broken = envelope.clone();
    broken.auth_info_bytes = vec![0x0a, 0x05];
    let res = relay_verified(&mut state, &broken, Some(true));
    assert_eq!(res.unwrap_err(), ContractError::Decode(DecodeError::MalformedAuthInfo));
    assert_eq!(state, fresh);

    let mut broken = envelope.clone();
    broken.auth_info_bytes = vec![];
    let res = relay_verified(&mut state, &broken, Some(true));
    assert_eq!(res.unwrap_err(), ContractError::Decode(DecodeError::MissingSigner));
    assert_eq!(state, fresh);

    let mut broken = envelope.clone();
    broken.body_bytes = vec![0x0a, 0x03, 0x0a, 0x01, 0xff];
    let res = relay_verified(&mut state, &broken, Some(true));
    assert_eq!(res.unwrap_err(), ContractError::Decode(DecodeError::MalformedBody));
    assert_eq!(state, fresh);
}

#[test]
fn a_body_that_is_malformed_where_the_account_does_not_look_is_refused() {
    let fresh = SignerInfo {
        public_key: PubKey { type_url: SECP256K1_TYPE_URL.to_string(), key: vec![2u8; 33] },
        sequence: 0,
    };
    // a memo that is no UTF-8
    let envelope = SignedEnvelope {
        body_bytes: vec![0x12, 0x01, 0xff],
        auth_info_bytes: vec![0x0a, 0x00],
        signatures: vec![vec![9u8; 64]],
    };
    let mut state = fresh.clone();
    let res = relay_verified(&mut state, &envelope, Some(true));
    assert_eq!(res.unwrap_err(), ContractError::Decode(DecodeError::MalformedBody));
    assert_eq!(state, fresh);

    // a fee that is no message
    let envelope = SignedEnvelope {
        body_bytes: vec![],
        auth_info_bytes: vec![0x12, 0x01, 0xff, 0x0a, 0x00],
        signatures: vec![vec![9u8; 64]],
    };
    let res = relay_verified(&mut state, &envelope, Some(true));
    assert_eq!(res.unwrap_err(), ContractError::Decode(DecodeError::MalformedAuthInfo));
    assert_eq!(state, fresh);

    // both well-formed: relayed, without a message
    let envelope = SignedEnvelope {
        body_bytes: vec![0x12, 0x01, 0x6d],
        auth_info_bytes: vec![0x12, 0x00, 0x0a, 0x00],
        signatures: vec![vec![9u8; 64]],
    };
    let res = relay_verified(&mut state, &envelope, Some(true)).unwrap();
    assert_eq!(res.messages.len(), 0);
    assert_eq!(state.sequence, 1);
}

#[test]
fn the_largest_sequence_has_no_successor() {
    let last = SignerInfo {
        public_key: PubKey { type_url: SECP256K1_TYPE_URL.to_string(), key: vec![2u8; 33] },
        sequence: u64::MAX,
    };
    // one signer entry that declares the largest sequence
    let declares_last =
        vec![0x0a, 0x0b, 0x18, 0xff, 0xff, 0xff, 0xff, 0xff, 0xff, 0xff, 0xff, 0xff, 0x01];
    let envelope = SignedEnvelope {
        body_bytes: vec![],
        auth_info_bytes: declares_last.clone(),
        signatures: vec![vec![9u8; 64]],
    };
    let mut state = last.clone();
    let res = relay_verified(&mut state, &envelope, Some(true));
    assert_eq!(res.unwrap_err(), ContractError::SequenceExhausted);
    assert_eq!(state, last);

    // what is refused for another reason is refused for that reason
    let res = relay_verified(&mut state, &envelope, Some(false));
    assert_eq!(res.unwrap_err(), ContractError::SignatureVerificationFailed);
    let stale = SignedEnvelope {
        body_bytes: vec![],
        auth_info_bytes: vec![0x0a, 0x02, 0x18, 0x05],
        signatures: vec![vec![9u8; 64]],
    };
    let res = relay_verified(&mut state, &stale, Some(true));
    assert_eq!(
        res.unwrap_err(),
        ContractError::InvalidNonce { expected: u64::MAX, declared: 5 }
    );
    assert_eq!(state, last);

    // a signed transaction at the largest sequence
    let key = secp256k1::SigningKey::random();
    let mut state = account_of(&key);
    state.sequence = u64::MAX;
    let tx = make_tx(&key, host_env().block.chain_id.as_str(), u64::MAX);
    let res = execute_send_tx(&mut state, mock_env(), mock_info("bundler"), tx);
    assert_eq!(res.unwrap_err(), ContractError::SequenceExhausted);
    assert_eq!(state.sequence, u64::MAX);

    // one below it, the sequence still goes up
    let mut state = account_of(&key);
    state.sequence = u64::MAX - 1;
    let tx = make_tx(&key, host_env().block.chain_id.as_str(), u64::MAX - 1);
    let res = execute_send_tx(&mut state, mock_env(), mock_info("bundler"), tx);
    assert!(res.is_ok());
    assert_eq!(state.sequence, u64::MAX);
}

#[test]
fn query_reads_the_record_as_it_stands() {
    let state = SignerInfo {
        public_key: PubKey { type_url: SECP256K1_TYPE_URL.to_string(), key: vec![3u8; 33] },
        sequence: 41,
    };
    let value = query_signer_info(&state);
    assert_eq!(
        value,
        SignerInfoResponse {
            sequence: 41,
            public_key: PubKey { type_url: SECP256K1_TYPE_URL.to_string(), key: vec![3u8; 33] },
        }
    );
    assert_eq!(query(&state, mock_env(), QueryMsg::SignerInfo {}), value);
    assert_eq!(state.sequence, 41);
}
