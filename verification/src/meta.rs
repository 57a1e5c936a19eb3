use vstd::prelude::*;
use vstd::bytes::{spec_u32_to_le_bytes, u32_to_le_bytes};
use crate::actions::{
    non_delegate_as_action_view, DelegateAction, NonDelegateAction, SignedDelegateAction,
};
use crate::config::NetworkConfig;
use crate::crypto::{ed25519_signature_of, sha256, sha256_of, KeyType, PublicKey, SecretKey};
use crate::encoding::{delegate_action_wf, encode_delegate_action, spec_encode_delegate_action};
use crate::errors::{ExecuteMetaTransactionsError, MetaSignError, SignerError};
use crate::transactions::PrepopulateTransaction;

verus! {

/// The discriminant that prefixes a delegate action's signing payload —
/// one number past the 30-bit range transactions hash in, plus the
/// delegate-action proposal number — so that its signature can never be
/// confused with a transaction's.
pub const DELEGATE_ACTION_SIGN_DISCRIMINANT: u32 = 0x40000000 + 366;

/// Builds a delegate action from a prepopulated transaction.
///
/// Law: construction is rejected, with nothing else done, exactly when the
/// action set already contains a delegate action; otherwise every action
/// carries over unchanged, in order, together with the addressing fields.
#[verifier::loop_isolation(false)]
pub fn delegate_action_from_prepopulated(
    pp: PrepopulateTransaction,
    nonce: u64,
    max_block_height: u64,
    public_key: PublicKey,
) -> (r: Result<DelegateAction, MetaSignError>)
    ensures
        (exists|i: int|
            0 <= i < pp@.actions.len() && (#[trigger] pp@.actions[i]) is Delegate) <==> r == Err::<
            DelegateAction,
            MetaSignError,
        >(MetaSignError::DelegateActionIsNotSupported),
        r matches Ok(d) ==> {
            &&& d@.sender_id == pp@.signer_id
            &&& d@.receiver_id == pp@.receiver_id
            &&& d@.actions.len() == pp@.actions.len()
            &&& forall|i: int|
                0 <= i < pp@.actions.len() ==> non_delegate_as_action_view(#[trigger] d@.actions[i])
                    == pp@.actions[i]
            &&& d@.nonce == nonce
            &&& d@.max_block_height == max_block_height
            &&& d@.public_key == public_key@
        },
{
    let PrepopulateTransaction { signer_id, receiver_id, actions } = pp;
    let ghost avs = actions.deep_view();
    let mut rest = actions;
    let mut converted: Vec<NonDelegateAction> = Vec::new();
    proof {
        assert(rest.deep_view() =~= avs.skip(0));
    }
    while rest.len() > 0
        invariant
            converted@.len() + rest@.len() == avs.len(),
            rest.deep_view() =~= avs.skip(converted@.len() as int),
            forall|j: int|
                0 <= j < converted@.len() ==> non_delegate_as_action_view(
                    #[trigger] converted.deep_view()[j],
                ) == avs[j],
            forall|j: int| 0 <= j < converted@.len() ==> !(#[trigger] avs[j] is Delegate),
        decreases rest@.len(),
    {
        let ghost done = converted@.len();
        let ghost prev_rest = rest@;
        let ghost prev_rest_deep = rest.deep_view();
        let head = rest.remove(0);
        proof {
            assert(avs.skip(done as int)[0] == avs[done as int]);
            assert(head@ == avs[done as int]);
            assert forall|j: int| 0 <= j < rest.deep_view().len() implies rest.deep_view()[j]
                == avs.skip(done as int + 1)[j] by {
                assert(rest@[j] == prev_rest.remove(0)[j]);
                assert(prev_rest.remove(0)[j] == prev_rest[j + 1]);
                assert(prev_rest_deep[j + 1] == prev_rest[j + 1].deep_view());
                assert(prev_rest_deep[j + 1] == avs.skip(done as int)[j + 1]);
            }
            assert(rest.deep_view() =~= avs.skip(done as int + 1));
        }
        match NonDelegateAction::try_from_action(head) {
            Ok(n) => {
                let ghost prev = converted@;
                let ghost prev_deep = converted.deep_view();
                converted.push(n);
                proof {
                    assert forall|j: int| 0 <= j < converted@.len() implies
                        non_delegate_as_action_view(#[trigger] converted.deep_view()[j]) == avs[j]
                        by {
                        assert(converted@ == prev.push(n));
                        if j < prev.len() {
                            assert((prev.push(n))[j] == prev[j]);
                            assert(prev_deep[j] == prev[j].deep_view());
                        } else {
                            assert((prev.push(n))[j] == n);
                        }
                    }
                }
            },
            Err(e) => {
                proof {
                    assert(avs[done as int] is Delegate);
                }
                return Err(e);
            },
        }
    }
    let d = DelegateAction {
        sender_id: signer_id,
        receiver_id,
        actions: converted,
        nonce,
        max_block_height,
        public_key,
    };
    Ok(d)
}

/// The bytes a delegate action's signature is computed over: the sign
/// discriminant and then the action's wire form, hashed.
pub open spec fn spec_delegate_sign_payload(d: crate::actions::DelegateActionView) -> Seq<u8> {
    spec_u32_to_le_bytes(DELEGATE_ACTION_SIGN_DISCRIMINANT) + spec_encode_delegate_action(d)
}

/// Signs a delegate action as its originator, yielding the artifact a
/// relayer accepts.
pub fn sign_delegate_action(d: DelegateAction, secret: &SecretKey) -> (r: Result<
    SignedDelegateAction,
    MetaSignError,
>)
    requires
        delegate_action_wf(d@),
    ensures
        secret@.key_type == KeyType::ED25519 ==> r is Ok,
        r matches Ok(s) ==> {
            &&& s.delegate_action@ == d@
            &&& secret@.key_type == KeyType::ED25519
            &&& s.signature@ == (crate::crypto::SignatureView {
                key_type: KeyType::ED25519,
                data: ed25519_signature_of(
                    secret@.data.subrange(0, 32),
                    sha256_of(spec_delegate_sign_payload(d@)),
                ),
            })
        },
        r matches Err(e) ==> e == MetaSignError::SignerError(SignerError::SecretKeyIsNotAvailable),
        secret@.key_type != KeyType::ED25519 ==> r == Err::<SignedDelegateAction, MetaSignError>(
            MetaSignError::SignerError(SignerError::SecretKeyIsNotAvailable),
        ),
{
    let mut payload = u32_to_le_bytes(DELEGATE_ACTION_SIGN_DISCRIMINANT);
    let wire = encode_delegate_action(&d);
    let mut wire_tail = wire;
    payload.append(&mut wire_tail);
    let digest = sha256(payload.as_slice());
    match secret.sign(digest.as_slice()) {
        Some(signature) => Ok(SignedDelegateAction { delegate_action: d, signature }),
        None => Err(MetaSignError::SignerError(SignerError::SecretKeyIsNotAvailable)),
    }
}

/// Where a meta-transaction goes: the configured relayer, or the error
/// that none is configured for this network.
pub fn relayer_endpoint(config: &NetworkConfig) -> (r: Result<
    String,
    ExecuteMetaTransactionsError,
>)
    ensures
        config.meta_transaction_relayer_url matches Some(u) ==> (r matches Ok(v) && v@ == u@),
        config.meta_transaction_relayer_url is None <==> r == Err::<
            String,
            ExecuteMetaTransactionsError,
        >(ExecuteMetaTransactionsError::RelayerIsNotDefined),
{
    match &config.meta_transaction_relayer_url {
        Some(u) => Ok(u.clone()),
        None => Err(ExecuteMetaTransactionsError::RelayerIsNotDefined),
    }
}

} // verus!
