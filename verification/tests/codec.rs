use near_api::account_id::AccountId;
use near_api::actions::{
    AccessKey, AccessKeyPermission, Action, AddKeyAction, CreateAccountAction,
    DeleteAccountAction, DeleteKeyAction, DeployContractAction, FunctionCallAction,
    FunctionCallPermission, StakeAction, TransferAction,
};
use near_api::crypto::{CryptoHash, PublicKey};
use near_api::encoding::{decode_action, encode_action};
use near_api::errors::{Base58Error, CryptoHashError, DecimalNumberParsingError};
use near_api::numbers::{parse_decimal_amount, parse_u128_decimal, u128_to_decimal_string};
use near_api::tokens::Tokens;

fn account(s: &str) -> AccountId {
    AccountId::new(String::from(s)).unwrap()
}

fn ed_key(seed: u8) -> PublicKey {
    PublicKey::ed25519_from_bytes(vec![seed; 32]).unwrap()
}

fn round_trips(a: Action) -> Action {
    let bytes = encode_action(&a);
    decode_action(&bytes).expect("an encoded action must decode")
}

// Round-tripping each supported action variant through the wire form is
// lossless, field for field.
#[test]
fn action_round_trip_create_account() {
    let a = Action::CreateAccount(CreateAccountAction {});
    assert_eq!(round_trips(a), Action::CreateAccount(CreateAccountAction {}));
}

#[test]
fn action_round_trip_deploy_contract() {
    let a = Action::DeployContract(DeployContractAction { code: vec![0, 1, 2, 250] });
    assert_eq!(a, round_trips(Action::DeployContract(DeployContractAction {
        code: vec![0, 1, 2, 250],
    })));
}

#[test]
fn action_round_trip_function_call() {
    let a = Action::FunctionCall(FunctionCallAction {
        method_name: String::from("ft_transfer"),
        args: b"{\"receiver_id\":\"bob.near\"}".to_vec(),
        gas: 30_000_000_000_000,
        deposit: 1,
    });
    let b = round_trips(Action::FunctionCall(FunctionCallAction {
        method_name: String::from("ft_transfer"),
        args: b"{\"receiver_id\":\"bob.near\"}".to_vec(),
        gas: 30_000_000_000_000,
        deposit: 1,
    }));
    assert_eq!(a, b);
}

#[test]
fn action_round_trip_transfer() {
    let a = Action::Transfer(TransferAction { deposit: u128::MAX - 7 });
    assert_eq!(a, round_trips(a.clone()));
}

#[test]
fn action_round_trip_stake() {
    let a = Action::Stake(StakeAction { stake: 123_456_789, public_key: ed_key(1) });
    assert_eq!(a, round_trips(a.clone()));
}

#[test]
fn action_round_trip_add_key_full_access() {
    let a = Action::AddKey(AddKeyAction {
        public_key: ed_key(2),
        access_key: AccessKey { nonce: 77, permission: AccessKeyPermission::FullAccess },
    });
    assert_eq!(a, round_trips(a.clone()));
}

#[test]
fn action_round_trip_add_key_function_call() {
    let a = Action::AddKey(AddKeyAction {
        public_key: PublicKey::secp256k1_from_bytes(vec![9; 64]).unwrap(),
        access_key: AccessKey {
            nonce: 1,
            permission: AccessKeyPermission::FunctionCall(FunctionCallPermission {
                allowance: Some(250_000_000_000_000_000_000_000),
                receiver_id: String::from("app.near"),
                method_names: vec![String::from("set_status"), String::from("donate")],
            }),
        },
    });
    assert_eq!(a, round_trips(a.clone()));
}

#[test]
fn action_round_trip_delete_key_and_account() {
    let a = Action::DeleteKey(DeleteKeyAction { public_key: ed_key(3) });
    assert_eq!(a, round_trips(a.clone()));
    let a = Action::DeleteAccount(DeleteAccountAction { beneficiary_id: account("heir.near") });
    assert_eq!(a, round_trips(a.clone()));
}

// The wire form agrees with the ecosystem's serializer on the same shapes.
#[test]
fn wire_form_matches_borsh() {
    let a = Action::Transfer(TransferAction { deposit: 42 });
    let mine = encode_action(&a);
    let reference = borsh::to_vec(&(3u8, 42u128)).unwrap();
    assert_eq!(mine, reference);

    let a = Action::FunctionCall(FunctionCallAction {
        method_name: String::from("ping"),
        args: vec![1, 2, 3],
        gas: 5,
        deposit: 6,
    });
    let mine = encode_action(&a);
    let reference =
        borsh::to_vec(&(2u8, String::from("ping"), vec![1u8, 2, 3], 5u64, 6u128)).unwrap();
    assert_eq!(mine, reference);

    let a = Action::DeleteAccount(DeleteAccountAction { beneficiary_id: account("heir.near") });
    let mine = encode_action(&a);
    let reference = borsh::to_vec(&(7u8, String::from("heir.near"))).unwrap();
    assert_eq!(mine, reference);
}

// Truncated or padded bytes are not an encoding.
#[test]
fn decode_rejects_truncation_and_padding() {
    let a = Action::Transfer(TransferAction { deposit: 42 });
    let mut bytes = encode_action(&a);
    let mut truncated = bytes.clone();
    truncated.pop();
    assert!(decode_action(&truncated).is_none());
    bytes.push(0);
    assert!(decode_action(&bytes).is_none());
    assert!(decode_action(&[42u8]).is_none());
}

// Hash strings decode exactly when they are 32 base-58 bytes.
#[test]
fn crypto_hash_from_base58() {
    let h = CryptoHash::from_str("11111111111111111111111111111111").unwrap();
    assert_eq!(h, CryptoHash([0u8; 32]));
    let printed = h.to_base58_string();
    assert_eq!(printed, "11111111111111111111111111111111");

    match CryptoHash::from_str("1111") {
        Err(CryptoHashError::IncorrectHashLength(n)) => assert_eq!(n, 4),
        other => panic!("expected a length error, got {:?}", other),
    }
    match CryptoHash::from_str("0OIl") {
        Err(CryptoHashError::Base58DecodeError(Base58Error::InvalidCharacter { .. })) => {},
        other => panic!("expected a decode error, got {:?}", other),
    }
}

// Key strings carry their curve prefix.
#[test]
fn public_key_string_round_trip() {
    let key = ed_key(11);
    let printed = key.to_prefixed_string();
    assert!(printed.starts_with("ed25519:"));
    let parsed = PublicKey::from_str(&printed).unwrap();
    assert_eq!(parsed, key);
    assert!(PublicKey::from_str("ed25519:zzz").is_none());
    assert!(PublicKey::from_str("wrong:abc").is_none());
}

// Account IDs follow the documented grammar.
#[test]
fn account_id_validation() {
    assert!(AccountId::new(String::from("alice.near")).is_some());
    assert!(AccountId::new(String::from("a-b_c.d1")).is_some());
    assert!(AccountId::new(String::from("a")).is_none());
    assert!(AccountId::new(String::from("Alice.near")).is_none());
    assert!(AccountId::new(String::from(".alice")).is_none());
    assert!(AccountId::new(String::from("alice..near")).is_none());
    assert!(AccountId::new(String::from("alice.near.")).is_none());
}

// Amounts print and parse as plain decimal digit strings.
#[test]
fn decimal_strings_round_trip() {
    assert_eq!(u128_to_decimal_string(0), "0");
    assert_eq!(u128_to_decimal_string(105), "105");
    assert_eq!(u128_to_decimal_string(u128::MAX), u128::MAX.to_string());
    assert_eq!(parse_u128_decimal("0"), Some(0));
    assert_eq!(parse_u128_decimal("340282366920938463463374607431768211455"), Some(u128::MAX));
    assert_eq!(parse_u128_decimal("340282366920938463463374607431768211456"), None);
    assert_eq!(parse_u128_decimal(""), None);
    assert_eq!(parse_u128_decimal("12a"), None);
}

// The decimal error taxonomy compares structurally.
#[test]
fn decimal_errors_are_distinct() {
    let a = DecimalNumberParsingError::InvalidNumber(String::from("x"));
    let b = DecimalNumberParsingError::LongWhole(String::from("x"));
    let c = DecimalNumberParsingError::LongFractional(String::from("x"));
    assert_ne!(a, b);
    assert_ne!(b, c);
}

// The nested shapes — keys, access keys, permissions — also agree with the
// ecosystem's serializer.
#[test]
fn wire_form_matches_borsh_for_nested_shapes() {
    let a = Action::AddKey(AddKeyAction {
        public_key: ed_key(4),
        access_key: AccessKey {
            nonce: 9,
            permission: AccessKeyPermission::FunctionCall(FunctionCallPermission {
                allowance: Some(7),
                receiver_id: String::from("app.near"),
                method_names: vec![String::from("ping")],
            }),
        },
    });
    let mine = near_api::encoding::encode_action(&a);
    let reference = borsh::to_vec(&(
        5u8,
        (0u8, [4u8; 32]),
        9u64,
        (0u8, Some(7u128), String::from("app.near"), vec![String::from("ping")]),
    ))
    .unwrap();
    assert_eq!(mine, reference);

    let a = Action::AddKey(AddKeyAction {
        public_key: ed_key(4),
        access_key: AccessKey { nonce: 1, permission: AccessKeyPermission::FullAccess },
    });
    let mine = near_api::encoding::encode_action(&a);
    let reference = borsh::to_vec(&(5u8, (0u8, [4u8; 32]), 1u64, 1u8)).unwrap();
    assert_eq!(mine, reference);
}

// Human-entered amounts scale into the token's smallest unit; each failure
// carries its own condition.
#[test]
fn decimal_amount_parsing() {
    assert_eq!(parse_decimal_amount("1", 6), Ok(1_000_000));
    assert_eq!(parse_decimal_amount("1.5", 6), Ok(1_500_000));
    assert_eq!(parse_decimal_amount("0.000001", 6), Ok(1));
    assert_eq!(parse_decimal_amount("12.25", 2), Ok(1225));
    assert_eq!(
        parse_decimal_amount("1.2345678", 6),
        Err(DecimalNumberParsingError::LongFractional(String::from("2345678")))
    );
    assert_eq!(
        parse_decimal_amount("one", 6),
        Err(DecimalNumberParsingError::InvalidNumber(String::from("one")))
    );
    assert_eq!(
        parse_decimal_amount("1.2.3", 6),
        Err(DecimalNumberParsingError::InvalidNumber(String::from("1.2.3")))
    );
    assert_eq!(
        parse_decimal_amount("340282366920938463463374607431768211455", 6),
        Err(DecimalNumberParsingError::LongWhole(String::from(
            "340282366920938463463374607431768211455"
        )))
    );
}

// Token transfers serialize their arguments the way the contract calls
// expect: the amount as a bare number, the token ID escaped.
#[test]
fn transfer_argument_objects() {
    let wrapped = Tokens::of(account("alice.near"))
        .send_to(account("bob.near"))
        .ft(
            account("token.near"),
            near_api::tokens::FTBalance::with_decimals(6).with_amount(1_000_000),
        )
        .unwrap();
    match &wrapped.tx.prepopulated.actions[0] {
        Action::FunctionCall(f) => {
            assert_eq!(f.args, b"{\"receiver_id\":\"bob.near\",\"amount\":1000000}".to_vec());
        },
        other => panic!("expected the transfer call, got {:?}", other),
    }

    let c = Tokens::of(account("alice.near"))
        .send_to(account("bob.near"))
        .nft(account("gallery.near"), String::from("rare \"quoted\" \\ id\n"))
        .unwrap();
    match &c.tr.actions[0] {
        Action::FunctionCall(f) => {
            assert_eq!(f.method_name, "nft_transfer");
            assert_eq!(
                f.args,
                b"{\"receiver_id\":\"bob.near\",\"token_id\":\"rare \\\"quoted\\\" \\\\ id\\u000a\"}"
                    .to_vec()
            );
            let parsed: serde_json::Value = serde_json::from_slice(&f.args).unwrap();
            assert_eq!(
                parsed.get("token_id").and_then(|t| t.as_str()),
                Some("rare \"quoted\" \\ id\n")
            );
        },
        other => panic!("expected the transfer call, got {:?}", other),
    }
}
