use vstd::prelude::*;
use crate::account_id::AccountId;
use crate::actions::{clone_actions, Action, ActionView};
use crate::crypto::{CryptoHash, PublicKey, PublicKeyView, Signature, SignatureView};

verus! {

/// The mathematical content of a transaction under construction.
pub struct PrepopulateTransactionView {
    pub signer_id: Seq<char>,
    pub receiver_id: Seq<char>,
    pub actions: Seq<ActionView>,
}

/// A transaction before its nonce and block reference are known: who signs,
/// who receives, and what is done. Mutable until signed.
#[derive(Debug, PartialEq, Eq)]
pub struct PrepopulateTransaction {
    pub signer_id: AccountId,
    pub receiver_id: AccountId,
    pub actions: Vec<Action>,
}

impl View for PrepopulateTransaction {
    type V = PrepopulateTransactionView;

    open spec fn view(&self) -> PrepopulateTransactionView {
        PrepopulateTransactionView {
            signer_id: self.signer_id@,
            receiver_id: self.receiver_id@,
            actions: self.actions.deep_view(),
        }
    }
}

impl Clone for PrepopulateTransaction {
    fn clone(&self) -> (r: Self)
        ensures
            r@ == self@,
    {
        PrepopulateTransaction {
            signer_id: self.signer_id.clone(),
            receiver_id: self.receiver_id.clone(),
            actions: clone_actions(&self.actions),
        }
    }
}

/// A builder that grows a prepopulated transaction action by action.
#[derive(Debug, PartialEq, Eq)]
pub struct ConstructTransaction {
    pub tr: PrepopulateTransaction,
}

impl ConstructTransaction {
    /// Starts with no actions.
    pub fn new(signer_id: AccountId, receiver_id: AccountId) -> (r: ConstructTransaction)
        ensures
            r.tr@.signer_id == signer_id@,
            r.tr@.receiver_id == receiver_id@,
            r.tr@.actions.len() == 0,
    {
        let c = ConstructTransaction {
            tr: PrepopulateTransaction { signer_id, receiver_id, actions: Vec::new() },
        };
        proof {
            assert(c.tr@.actions =~= Seq::<ActionView>::empty());
        }
        c
    }

    /// Appends one action.
    pub fn add_action(self, action: Action) -> (r: ConstructTransaction)
        ensures
            r.tr@.signer_id == self.tr@.signer_id,
            r.tr@.receiver_id == self.tr@.receiver_id,
            r.tr@.actions == self.tr@.actions.push(action@),
    {
        let ConstructTransaction { tr } = self;
        let PrepopulateTransaction { signer_id, receiver_id, mut actions } = tr;
        actions.push(action);
        let r = ConstructTransaction {
            tr: PrepopulateTransaction { signer_id, receiver_id, actions },
        };
        proof {
            assert(r.tr@.actions =~= self.tr@.actions.push(action@));
        }
        r
    }

    /// Appends the actions in order.
    pub fn add_actions(self, added: Vec<Action>) -> (r: ConstructTransaction)
        ensures
            r.tr@.signer_id == self.tr@.signer_id,
            r.tr@.receiver_id == self.tr@.receiver_id,
            r.tr@.actions == self.tr@.actions + added.deep_view(),
    {
        let ConstructTransaction { tr } = self;
        let PrepopulateTransaction { signer_id, receiver_id, mut actions } = tr;
        let n = added.len();
        let ghost base = actions.deep_view();
        let ghost base_len = actions@.len();
        let mut i: usize = 0;
        while i < n
            invariant
                i <= n,
                n == added@.len(),
                actions@.len() == base_len + i,
                forall|j: int| 0 <= j < base_len ==> actions.deep_view()[j] == base[j],
                forall|j: int|
                    0 <= j < i ==> actions.deep_view()[base_len + j] == added.deep_view()[j],
            decreases n - i,
        {
            let a = added[i].clone();
            let ghost prev = actions@;
            actions.push(a);
            proof {
                assert forall|j: int| 0 <= j < prev.len() implies actions@[j] == prev[j] by {
                    assert((prev.push(a))[j] == prev[j]);
                }
                assert((prev.push(a))[prev.len() as int] == a);
                assert(actions.deep_view()[base_len + i] == added.deep_view()[i as int]);
            }
            i += 1;
        }
        let r = ConstructTransaction {
            tr: PrepopulateTransaction { signer_id, receiver_id, actions },
        };
        proof {
            assert forall|j: int| 0 <= j < actions.deep_view().len() implies actions.deep_view()[j]
                == (base + added.deep_view())[j] by {
                if j < base_len {
                    assert(actions.deep_view()[j] == base[j]);
                } else {
                    assert(actions.deep_view()[j] == added.deep_view()[j - base_len]);
                }
            }
            assert(actions.deep_view() =~= base + added.deep_view());
        }
        r
    }
}

/// The mathematical content of a fully addressed transaction.
pub struct TransactionView {
    pub signer_id: Seq<char>,
    pub public_key: PublicKeyView,
    pub nonce: u64,
    pub receiver_id: Seq<char>,
    pub block_hash: Seq<u8>,
    pub actions: Seq<ActionView>,
}

/// A fully addressed transaction, ready to be serialized and signed.
#[derive(Debug, PartialEq, Eq)]
pub struct Transaction {
    pub signer_id: AccountId,
    pub public_key: PublicKey,
    pub nonce: u64,
    pub receiver_id: AccountId,
    pub block_hash: CryptoHash,
    pub actions: Vec<Action>,
}

impl View for Transaction {
    type V = TransactionView;

    open spec fn view(&self) -> TransactionView {
        TransactionView {
            signer_id: self.signer_id@,
            public_key: self.public_key@,
            nonce: self.nonce,
            receiver_id: self.receiver_id@,
            block_hash: self.block_hash@,
            actions: self.actions.deep_view(),
        }
    }
}

/// The mathematical content of a signed transaction.
pub struct SignedTransactionView {
    pub transaction: TransactionView,
    pub signature: SignatureView,
}

/// The immutable artifact a transaction becomes once signed.
#[derive(Debug, PartialEq, Eq)]
pub struct SignedTransaction {
    pub transaction: Transaction,
    pub signature: Signature,
}

impl View for SignedTransaction {
    type V = SignedTransactionView;

    open spec fn view(&self) -> SignedTransactionView {
        SignedTransactionView { transaction: self.transaction@, signature: self.signature@ }
    }
}

impl Transaction {
    /// Addresses a prepopulated transaction with the resolved key, nonce and
    /// block hash; nothing else changes.
    pub fn from_prepopulated(
        pp: PrepopulateTransaction,
        public_key: PublicKey,
        nonce: u64,
        block_hash: CryptoHash,
    ) -> (r: Transaction)
        ensures
            r@.signer_id == pp@.signer_id,
            r@.receiver_id == pp@.receiver_id,
            r@.actions == pp@.actions,
            r@.public_key == public_key@,
            r@.nonce == nonce,
            r@.block_hash == block_hash@,
    {
        Transaction {
            signer_id: pp.signer_id,
            public_key,
            nonce,
            receiver_id: pp.receiver_id,
            block_hash,
            actions: pp.actions,
        }
    }
}

} // verus!
