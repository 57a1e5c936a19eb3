use ed25519_dalek::Verifier;
use sha2::Digest;

use near_api::account_id::AccountId;
use near_api::actions::{AccessKeyPermission, Action, TransferAction};
use near_api::config::NetworkConfig;
use near_api::crypto::{CryptoHash, PublicKey, SecretKey};
use near_api::errors::{
    ExecuteMetaTransactionsError, ExecuteTransactionError, LedgerError, MetaSignError, QueryError,
    ResponseKind, SignerError, ValidationError,
};
use near_api::execution::{
    presign, sign_transaction, FinalExecutionOutcome, SubmissionState, SubmitDecision,
    SubmitOutcome,
};
use near_api::meta::{delegate_action_from_prepopulated, relayer_endpoint};
use near_api::account::Account;
use near_api::query::{join_results, process_account_view, AccountData, QueryRequest, QueryResponse};
use near_api::reference::Reference;
use near_api::retry::{run_retry_schedule, AttemptOutcome, RetryPolicy};
use near_api::signer::{ledger_error_from_exchange, KeystoreSigner, SecretKeySigner, Signer};
use near_api::tokens::{FTBalance, NearToken, StorageBalance, Tokens};
use near_api::transactions::PrepopulateTransaction;

fn account(s: &str) -> AccountId {
    AccountId::new(String::from(s)).unwrap()
}

fn ed_key(seed: u8) -> PublicKey {
    PublicKey::ed25519_from_bytes(vec![seed; 32]).unwrap()
}

fn ed_secret(seed: u8) -> SecretKey {
    // A full key pair: the seed half and the matching public half.
    let signing = ed25519_dalek::SigningKey::from_bytes(&[seed; 32]);
    let mut data = signing.to_bytes().to_vec();
    data.extend_from_slice(signing.verifying_key().as_bytes());
    SecretKey::ed25519_from_bytes(data).unwrap()
}

fn simple_transfer(signer: &str, receiver: &str, deposit: u128) -> PrepopulateTransaction {
    PrepopulateTransaction {
        signer_id: account(signer),
        receiver_id: account(receiver),
        actions: vec![Action::Transfer(TransferAction { deposit })],
    }
}

// The retry loop: K transient failures then success, within budget.
#[test]
fn retry_succeeds_after_k_failures_within_budget() {
    let outcomes = vec![
        AttemptOutcome::TransientFailure(String::from("boom")),
        AttemptOutcome::TransientFailure(String::from("boom")),
        AttemptOutcome::Success,
        AttemptOutcome::Success,
    ];
    let policy = RetryPolicy { retries: 3, initial_sleep_ms: 10, exponential_backoff: true };
    let (succeeded, attempts, delays) = run_retry_schedule(&outcomes, policy);
    assert!(succeeded);
    assert_eq!(attempts, 3);
    assert_eq!(delays, vec![10, 20]);
}

// The retry loop: budget smaller than the failure streak.
#[test]
fn retry_exhausts_budget() {
    let outcomes = vec![
        AttemptOutcome::TransientFailure(String::from("a")),
        AttemptOutcome::TransientFailure(String::from("b")),
        AttemptOutcome::TransientFailure(String::from("c")),
        AttemptOutcome::Success,
    ];
    let policy = RetryPolicy { retries: 1, initial_sleep_ms: 7, exponential_backoff: false };
    let (succeeded, attempts, delays) = run_retry_schedule(&outcomes, policy);
    assert!(!succeeded);
    assert_eq!(attempts, 2);
    assert_eq!(delays, vec![7]);
}

// Exponential backoff: the delay before retry i is D * 2^(i-1).
#[test]
fn retry_backoff_doubles() {
    let outcomes = vec![
        AttemptOutcome::TransientFailure(String::from("x")),
        AttemptOutcome::TransientFailure(String::from("x")),
        AttemptOutcome::TransientFailure(String::from("x")),
        AttemptOutcome::Success,
    ];
    let policy = RetryPolicy { retries: 3, initial_sleep_ms: 5, exponential_backoff: true };
    let (succeeded, attempts, delays) = run_retry_schedule(&outcomes, policy);
    assert!(succeeded);
    assert_eq!(attempts, 4);
    assert_eq!(delays, vec![5, 10, 20]);
}

// Nonce resolution: a fabricated access-key response with nonce 41 yields a
// transaction signed with nonce 42.
#[test]
fn nonce_resolution_uses_observed_plus_one() {
    let pp = simple_transfer("alice.near", "bob.near", 1);
    let tx = presign(pp, ed_key(7), 41, CryptoHash([0u8; 32]));
    assert_eq!(tx.nonce, 42);
    let signed = sign_transaction(tx, &ed_secret(1)).unwrap();
    assert_eq!(signed.transaction.nonce, 42);
}

// The signature the pipeline produces really is the ed25519 signature over
// the hashed wire form.
#[test]
fn signing_produces_a_verifiable_signature() {
    let pp = simple_transfer("alice.near", "bob.near", 12345);
    let tx = presign(pp, ed_key(9), 41, CryptoHash([3u8; 32]));
    let wire = near_api::encoding::encode_transaction(&tx);
    let signed = sign_transaction(tx, &ed_secret(2)).unwrap();
    let digest = sha2::Sha256::digest(&wire);
    let signing = ed25519_dalek::SigningKey::from_bytes(&[2u8; 32]);
    let sig_bytes: [u8; 64] = signed.signature.sig_data().as_slice().try_into().unwrap();
    let sig = ed25519_dalek::Signature::from_bytes(&sig_bytes);
    assert!(signing.verifying_key().verify(&digest, &sig).is_ok());
}

// Submission: a settled outcome is never retried; transient failures are,
// until the budget runs out, ending in retries-exhausted with the last error.
#[test]
fn submission_retries_only_transient_failures() {
    let policy = RetryPolicy { retries: 1, initial_sleep_ms: 3, exponential_backoff: false };
    let mut state = SubmissionState::new(policy.clone());
    let settled = FinalExecutionOutcome::Failure(String::from("definitively rejected"));
    match state.on_submit_outcome(SubmitOutcome::Settled(settled.clone())) {
        SubmitDecision::Complete(Ok(out)) => assert_eq!(out, settled),
        other => panic!("expected an immediate completion, got {:?}", other),
    }

    let mut state = SubmissionState::new(policy);
    match state.on_submit_outcome(SubmitOutcome::TransientFailure(String::from("t1"))) {
        SubmitDecision::RetryAfterMs(d) => assert_eq!(d, 3),
        other => panic!("expected a retry, got {:?}", other),
    }
    match state.on_submit_outcome(SubmitOutcome::TransientFailure(String::from("t2"))) {
        SubmitDecision::Complete(Err(ExecuteTransactionError::RetriesExhausted(last))) => {
            assert_eq!(last, "t2");
        },
        other => panic!("expected retries exhausted, got {:?}", other),
    }
}

// The multi-query join: the postprocess input exists only if all sub-queries
// succeed; the first failure surfaces unmodified.
#[test]
fn join_results_needs_every_success() {
    let all_ok: Vec<Result<u32, QueryError>> = vec![Ok(1), Ok(2), Ok(3)];
    assert_eq!(join_results(all_ok).unwrap(), vec![1, 2, 3]);

    let failure = QueryError::UnexpectedResponse {
        expected: ResponseKind::CallResult,
        got: ResponseKind::AccountView,
    };
    let one_bad: Vec<Result<u32, QueryError>> =
        vec![Ok(1), Err(failure.clone()), Err(QueryError::InternalErrorNoResponse)];
    assert_eq!(join_results(one_bad).unwrap_err(), failure);
}

// A response of the wrong shape is rejected with the shape it had.
#[test]
fn process_rejects_wrong_response_kind() {
    let resp = QueryResponse::CallResult(vec![1, 2]);
    match process_account_view(resp) {
        Err(QueryError::UnexpectedResponse { expected, got }) => {
            assert_eq!(expected, ResponseKind::AccountView);
            assert_eq!(got, ResponseKind::CallResult);
        },
        other => panic!("expected a shape mismatch, got {:?}", other),
    }
    let ok = QueryResponse::AccountView(AccountData { amount: 5, locked: 1, storage_usage: 9 });
    assert_eq!(process_account_view(ok).unwrap().amount, 5);
}

// Delegate construction refuses an action set that already delegates.
#[test]
fn delegate_construction_rejects_nested_delegation() {
    let pp = simple_transfer("alice.near", "bob.near", 10);
    let d = delegate_action_from_prepopulated(pp, 1, 100, ed_key(4)).unwrap();
    assert_eq!(d.actions.len(), 1);
    assert_eq!(d.nonce, 1);
    assert_eq!(d.max_block_height, 100);

    let signed = near_api::meta::sign_delegate_action(d, &ed_secret(3)).unwrap();
    let wrapped = Action::Delegate(Box::new(signed));
    assert!(near_api::actions::is_delegate_action(&wrapped));
    assert!(!near_api::actions::is_delegate_action(&Action::Transfer(TransferAction {
        deposit: 1,
    })));
    let nested = PrepopulateTransaction {
        signer_id: account("alice.near"),
        receiver_id: account("bob.near"),
        actions: vec![Action::Transfer(TransferAction { deposit: 1 }), wrapped],
    };
    assert_eq!(
        delegate_action_from_prepopulated(nested, 2, 100, ed_key(4)).unwrap_err(),
        MetaSignError::DelegateActionIsNotSupported
    );
}

// A network without a relayer cannot carry meta-transactions.
#[test]
fn missing_relayer_is_reported() {
    let config = NetworkConfig {
        network_name: String::from("mainnet"),
        rpc_url: String::from("https://rpc.example"),
        meta_transaction_relayer_url: None,
        linkdrop_account_id: None,
    };
    assert_eq!(
        relayer_endpoint(&config).unwrap_err(),
        ExecuteMetaTransactionsError::RelayerIsNotDefined
    );
    let with = NetworkConfig { meta_transaction_relayer_url: Some(String::from("https://r")), ..config };
    assert_eq!(relayer_endpoint(&with).unwrap(), "https://r");
}

// The OS-keystore scenario: the public key resolved, but its private half is
// absent from this machine's store, so signing fails as
// secret-key-unavailable, not public-key-unavailable.
#[test]
fn keystore_signer_distinguishes_missing_secret_from_missing_public() {
    let key = ed_key(5);
    let signer = KeystoreSigner::new_with_pubkey(key.clone());
    assert_eq!(signer.get_public_key().unwrap(), key);

    let pp = simple_transfer("alice.near", "bob.near", 3);
    let err = signer
        .tx_and_secret(pp, key, 42, CryptoHash([0u8; 32]))
        .unwrap_err();
    assert_eq!(err, SignerError::SecretKeyIsNotAvailable);

    let other = ed_key(6);
    let signer = KeystoreSigner::new_with_pubkey(ed_key(5));
    let pp = simple_transfer("alice.near", "bob.near", 3);
    let err = signer
        .tx_and_secret(pp, other, 42, CryptoHash([0u8; 32]))
        .unwrap_err();
    assert_eq!(err, SignerError::PublicKeyIsNotAvailable);
}

// The token-transfer scenario: with no storage deposit for the receiver,
// validation reports the storage-deposit-needed condition, while editing
// under the identical state instead prepends a deposit and succeeds.
#[test]
fn ft_validation_and_edit_on_missing_storage_deposit() {
    let tokens = Tokens::of(account("alice.near"));
    let amount = FTBalance::with_decimals(6).with_amount(1_000_000);
    let wrapped = tokens
        .send_to(account("bob.near"))
        .ft(account("usdt.tether-token.near"), amount)
        .unwrap();
    let tx = wrapped.tx;

    let validation = tx.validate_with_network(Some(6), None).unwrap_err();
    let ValidationError::TransactionValidationError(msg) = validation;
    assert_eq!(msg, "Storage deposit is needed");

    let mut editable = tx;
    let before = editable.prepopulated().actions.len();
    editable.edit_with_network(Some(6), None).unwrap();
    let after = editable.prepopulated();
    assert_eq!(after.actions.len(), before + 1);
    match &after.actions[0] {
        Action::FunctionCall(f) => {
            assert_eq!(f.method_name, "storage_deposit");
            assert_eq!(f.args, b"{\"account_id\":\"bob.near\"}".to_vec());
        },
        other => panic!("expected a storage deposit to be prepended, got {:?}", other),
    }

    // Editing again under the identical network state changes nothing: the
    // deposit is already in place, so the edit is idempotent.
    editable.edit_with_network(Some(6), None).unwrap();
    assert_eq!(editable.prepopulated(), after);

    // With a deposit already present on chain, both validation and editing
    // succeed and editing changes nothing.
    let mut tx2 = near_api::tokens::Tokens::of(account("alice.near"))
        .send_to(account("bob.near"))
        .ft(account("usdt.tether-token.near"), FTBalance::with_decimals(6).with_amount(5))
        .unwrap()
        .tx;
    let deposit = StorageBalance { available: 1, total: 1 };
    tx2.validate_with_network(Some(6), Some(deposit)).unwrap();
    let before = tx2.prepopulated();
    tx2.edit_with_network(Some(6), Some(deposit)).unwrap();
    assert_eq!(tx2.prepopulated(), before);
}

// The decimals precondition fails with its own conditions.
#[test]
fn ft_validation_reports_metadata_conditions() {
    let tx = Tokens::of(account("alice.near"))
        .send_to(account("bob.near"))
        .ft(account("token.near"), FTBalance::with_decimals(6).with_amount(5))
        .unwrap()
        .tx;
    let ValidationError::TransactionValidationError(msg) =
        tx.validate_with_network(None, None).unwrap_err();
    assert_eq!(msg, "Metadata is not provided");
    let ValidationError::TransactionValidationError(msg) =
        tx.validate_with_network(Some(18), None).unwrap_err();
    assert_eq!(msg, "Decimals mismatch: expected 18, got 6");
}

// The device error taxonomy: the buffer-overflow status word is recognised
// inside any exchange message.
#[test]
fn ledger_buffer_overflow_is_classified() {
    let e = ledger_error_from_exchange(String::from("APDU exchange failed: 0x6990"));
    assert_eq!(e, LedgerError::BufferOverflow);
    let e = ledger_error_from_exchange(String::from("device unplugged"));
    assert_eq!(e, LedgerError::LedgerError(String::from("device unplugged")));
}

// Native token transfers carry the exact yocto amount.
#[test]
fn send_near_builds_one_transfer_action() {
    let c = Tokens::of(account("alice.near"))
        .send_to(account("bob.near"))
        .near(NearToken::from_yoctonear(17));
    assert_eq!(c.tr.signer_id, account("alice.near"));
    assert_eq!(c.tr.receiver_id, account("bob.near"));
    assert_eq!(c.tr.actions, vec![Action::Transfer(TransferAction { deposit: 17 })]);
}

// The token-balance group holds exactly its two sub-queries, against one
// shared state view.
#[test]
fn ft_balance_builds_two_subqueries() {
    let group = Tokens::of(account("alice.near"))
        .ft_balance(account("token.near"))
        .unwrap();
    assert_eq!(group.queries.len(), 2);
    match &group.queries[0].request {
        QueryRequest::CallFunction { method_name, .. } => assert_eq!(method_name, "ft_metadata"),
        other => panic!("expected a call, got {:?}", other),
    }
    match &group.queries[1].request {
        QueryRequest::CallFunction { method_name, args, .. } => {
            assert_eq!(method_name, "ft_balance_of");
            assert_eq!(args, &b"{\"account_id\":\"alice.near\"}".to_vec());
        },
        other => panic!("expected a call, got {:?}", other),
    }
    assert_eq!(
        near_api::tokens::ft_balance_postprocess(6, 1_000_000).amount(),
        1_000_000
    );
}

// Key management builds self-addressed transactions with the exact actions.
#[test]
fn account_key_management_builders() {
    let a = Account(account("alice.near"));
    let c = a.add_key(AccessKeyPermission::FullAccess, ed_key(1));
    assert_eq!(c.tr.signer_id, account("alice.near"));
    assert_eq!(c.tr.receiver_id, account("alice.near"));
    match &c.tr.actions[0] {
        Action::AddKey(k) => {
            assert_eq!(k.access_key.nonce, 0);
            assert_eq!(k.access_key.permission, AccessKeyPermission::FullAccess);
        },
        other => panic!("expected a key grant, got {:?}", other),
    }
    let c = a.delete_keys(vec![ed_key(1), ed_key(2)]);
    assert_eq!(c.tr.actions.len(), 2);
    match (&c.tr.actions[0], &c.tr.actions[1]) {
        (Action::DeleteKey(k1), Action::DeleteKey(k2)) => {
            assert_eq!(k1.public_key, ed_key(1));
            assert_eq!(k2.public_key, ed_key(2));
        },
        other => panic!("expected two revocations, got {:?}", other),
    }
}

// The signer facade: the in-memory backend signs; nonce and block reference
// land in the signed artifact unchanged.
#[test]
fn signer_facade_signs_with_in_memory_key() {
    let signer = Signer::SecretKey(SecretKeySigner::new(ed_secret(8)));
    let expected = signer.get_public_key().unwrap();
    let pp = simple_transfer("alice.near", "bob.near", 2);
    let signed = signer.sign(pp, expected.clone(), 42, CryptoHash([1u8; 32])).unwrap();
    assert_eq!(signed.transaction.nonce, 42);
    assert_eq!(signed.transaction.public_key, expected);
    assert_eq!(signed.transaction.block_hash, CryptoHash([1u8; 32]));
}

// Account reads carry the right request shapes, and the access-key record
// comes back with the block hash the node reported.
#[test]
fn account_reads_and_access_key_processing() {
    let a = Account(account("alice.near"));
    match a.view().request {
        QueryRequest::ViewAccount { account_id } => assert_eq!(account_id, account("alice.near")),
        other => panic!("expected an account view, got {:?}", other),
    }
    match a.list_keys().request {
        QueryRequest::ViewAccessKeyList { account_id } => {
            assert_eq!(account_id, account("alice.near"))
        },
        other => panic!("expected a key list, got {:?}", other),
    }
    let q = a.access_key(ed_key(3));
    match q.request {
        QueryRequest::ViewAccessKey { public_key, .. } => assert_eq!(public_key, ed_key(3)),
        other => panic!("expected an access key read, got {:?}", other),
    }

    let resp = QueryResponse::AccessKey {
        access_key: near_api::actions::AccessKey {
            nonce: 41,
            permission: AccessKeyPermission::FullAccess,
        },
        block_hash: CryptoHash([9u8; 32]),
    };
    let (key, hash) = near_api::query::process_access_key(resp).unwrap();
    assert_eq!(key.nonce, 41);
    assert_eq!(hash, CryptoHash([9u8; 32]));
    // The signing nonce the engine derives from it.
    assert_eq!(near_api::execution::nonce_for_signing(key.nonce), 42);
}

// A query can be re-pinned to another state view.
#[test]
fn query_builder_repins_reference() {
    let q = Account(account("alice.near")).view();
    assert_eq!(q.reference, Reference::Optimistic);
    let q = q.at_reference(Reference::AtBlock(1000));
    assert_eq!(q.reference, Reference::AtBlock(1000));
}
