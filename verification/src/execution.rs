use vstd::prelude::*;
use crate::crypto::{
    ed25519_signature_of, sha256, sha256_of, CryptoHash, KeyType, PublicKey, SecretKey,
    SignatureView,
};
use crate::encoding::{encode_transaction, spec_encode_transaction, transaction_wf};
use crate::errors::{ExecuteTransactionError, SignerError};
use crate::retry::{AttemptOutcome, RetryDecision, RetryPolicy, RetryState};
use crate::transactions::{PrepopulateTransaction, SignedTransaction, Transaction};

verus! {

/// The nonce a transaction is signed with: one past the last nonce the
/// network has recorded for the signing key.
pub fn nonce_for_signing(current_nonce: u64) -> (r: u64)
    requires
        current_nonce < u64::MAX,
    ensures
        r == current_nonce + 1,
{
    current_nonce + 1
}

/// Addresses a prepopulated transaction for signing: the nonce is one past
/// the observed on-chain nonce, the block hash is the fetched one, and the
/// rest carries over unchanged.
pub fn presign(
    pp: PrepopulateTransaction,
    public_key: PublicKey,
    current_nonce: u64,
    block_hash: CryptoHash,
) -> (r: Transaction)
    requires
        current_nonce < u64::MAX,
    ensures
        r@.nonce == current_nonce + 1,
        r@.signer_id == pp@.signer_id,
        r@.receiver_id == pp@.receiver_id,
        r@.actions == pp@.actions,
        r@.public_key == public_key@,
        r@.block_hash == block_hash@,
{
    let nonce = nonce_for_signing(current_nonce);
    Transaction::from_prepopulated(pp, public_key, nonce, block_hash)
}

/// The digest a transaction is signed over: the hash of its wire form.
pub open spec fn spec_transaction_digest(t: crate::transactions::TransactionView) -> Seq<u8> {
    sha256_of(spec_encode_transaction(t))
}

/// Signs a fully addressed transaction with an in-memory key: an ed25519
/// key always signs; any other curve fails with the signer's
/// key-unavailability error.
pub fn sign_transaction(tx: Transaction, secret: &SecretKey) -> (r: Result<
    SignedTransaction,
    SignerError,
>)
    requires
        transaction_wf(tx@),
    ensures
        secret@.key_type == KeyType::ED25519 ==> r is Ok,
        r matches Ok(st) ==> {
            &&& st.transaction@ == tx@
            &&& secret@.key_type == KeyType::ED25519
            &&& st.signature@ == (SignatureView {
                key_type: KeyType::ED25519,
                data: ed25519_signature_of(
                    secret@.data.subrange(0, 32),
                    spec_transaction_digest(tx@),
                ),
            })
        },
        r matches Err(e) ==> e == SignerError::SecretKeyIsNotAvailable,
        secret@.key_type != KeyType::ED25519 ==> r == Err::<SignedTransaction, SignerError>(
            SignerError::SecretKeyIsNotAvailable,
        ),
{
    let wire = encode_transaction(&tx);
    let digest = sha256(wire.as_slice());
    match secret.sign(digest.as_slice()) {
        Some(signature) => Ok(SignedTransaction { transaction: tx, signature }),
        None => Err(SignerError::SecretKeyIsNotAvailable),
    }
}

/// What one submission attempt came to: either the network settled the
/// transaction (accepted or definitively rejected — neither is retried), or
/// the transport failed in a way worth retrying.
#[derive(Debug, Clone, PartialEq, Eq)]
pub enum SubmitOutcome {
    /// The network reported a final outcome; carried through unchanged.
    Settled(FinalExecutionOutcome),
    /// The transport failed; the text is its error.
    TransientFailure(String),
}

/// The network's final word on a submitted transaction.
#[derive(Debug, Clone, PartialEq, Eq)]
pub enum FinalExecutionOutcome {
    /// Executed successfully; carries the value the receipt returned.
    Success(Vec<u8>),
    /// Definitively rejected; carries the reported execution error.
    Failure(String),
}

/// What the submission driver must do next.
#[derive(Debug, PartialEq, Eq)]
pub enum SubmitDecision {
    /// Stop with this result.
    Complete(Result<FinalExecutionOutcome, ExecuteTransactionError>),
    /// Sleep this many milliseconds, then submit again.
    RetryAfterMs(u64),
}

/// The submit-and-await stage of the engine: a bounded retry loop around
/// one signed transaction. The driver performs one submission, reports the
/// outcome, and is told whether to stop or retry.
#[derive(Debug, Clone, PartialEq, Eq)]
pub struct SubmissionState {
    pub retry: RetryState,
}

impl SubmissionState {
    pub fn new(policy: RetryPolicy) -> (r: SubmissionState)
        ensures
            r.retry.policy == policy,
            r.retry.attempts_made == 0,
    {
        SubmissionState { retry: RetryState::new(policy) }
    }

    /// A settled outcome — success or definitive rejection — completes the
    /// run at once and is never retried. A transient transport failure is
    /// retried with the policy's delay while the budget lasts; once it is
    /// spent the run completes with the retries-exhausted error carrying
    /// the last transport error.
    pub fn on_submit_outcome(&mut self, outcome: SubmitOutcome) -> (r: SubmitDecision)
        requires
            crate::retry::policy_wf(old(self).retry.policy),
            old(self).retry.attempts_made <= old(self).retry.policy.retries as u16,
        ensures
            final(self).retry.policy == old(self).retry.policy,
            final(self).retry.attempts_made == old(self).retry.attempts_made + 1,
            outcome matches SubmitOutcome::Settled(o) ==> r == SubmitDecision::Complete(
                Ok::<FinalExecutionOutcome, ExecuteTransactionError>(o),
            ),
            outcome matches SubmitOutcome::TransientFailure(e) ==> ({
                &&& old(self).retry.attempts_made < old(self).retry.policy.retries as u16 ==> (
                r matches SubmitDecision::RetryAfterMs(d) && d
                    == crate::retry::spec_delay_before_retry(
                    old(self).retry.policy,
                    (old(self).retry.attempts_made + 1) as nat,
                ))
                &&& old(self).retry.attempts_made == old(self).retry.policy.retries as u16 ==> r
                    == SubmitDecision::Complete(
                    Err::<FinalExecutionOutcome, ExecuteTransactionError>(
                        ExecuteTransactionError::RetriesExhausted(e),
                    ),
                )
            }),
    {
        match outcome {
            SubmitOutcome::Settled(o) => {
                let _ = self.retry.on_outcome(AttemptOutcome::Success);
                SubmitDecision::Complete(Ok(o))
            },
            SubmitOutcome::TransientFailure(e) => {
                match self.retry.on_outcome(AttemptOutcome::TransientFailure(e)) {
                    RetryDecision::Done => SubmitDecision::Complete(
                        Err(ExecuteTransactionError::RetriesExhausted(String::new())),
                    ),
                    RetryDecision::GiveUp(last) => SubmitDecision::Complete(
                        Err(ExecuteTransactionError::RetriesExhausted(last)),
                    ),
                    RetryDecision::RetryAfter(d) => SubmitDecision::RetryAfterMs(d),
                }
            },
        }
    }
}

} // verus!
