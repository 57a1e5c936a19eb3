use vstd::prelude::*;
use crate::account_id::AccountId;
use crate::actions::{
    AccessKey, AccessKeyPermission, Action, AddKeyAction, DeleteAccountAction, DeleteKeyAction,
};
use crate::crypto::PublicKey;
use crate::query::{QueryBuilder, QueryRequest};
use crate::reference::Reference;
use crate::transactions::ConstructTransaction;

verus! {

/// The account-level operations: reads through the query framework and
/// key-management transactions.
#[derive(Debug, PartialEq, Eq)]
pub struct Account(pub AccountId);

impl Account {
    /// The account's state view.
    pub fn view(&self) -> (r: QueryBuilder)
        ensures
            r.request matches QueryRequest::ViewAccount { account_id } && account_id@ == self.0@,
            r.reference == Reference::Optimistic,
    {
        QueryBuilder::new(QueryRequest::ViewAccount { account_id: self.0.clone() })
    }

    /// One access key's record, with the node's current block hash.
    pub fn access_key(&self, signer_public_key: PublicKey) -> (r: QueryBuilder)
        ensures
            r.request matches QueryRequest::ViewAccessKey { account_id, public_key } && account_id@
                == self.0@ && public_key@ == signer_public_key@,
            r.reference == Reference::Optimistic,
    {
        QueryBuilder::new(
            QueryRequest::ViewAccessKey {
                account_id: self.0.clone(),
                public_key: signer_public_key,
            },
        )
    }

    /// All of the account's access keys.
    pub fn list_keys(&self) -> (r: QueryBuilder)
        ensures
            r.request matches QueryRequest::ViewAccessKeyList { account_id } && account_id@
                == self.0@,
            r.reference == Reference::Optimistic,
    {
        QueryBuilder::new(QueryRequest::ViewAccessKeyList { account_id: self.0.clone() })
    }

    /// Grants the given key the given scope, as a self-addressed
    /// transaction. The key's nonce starts at zero; the network assigns
    /// the real one.
    pub fn add_key(&self, permission: AccessKeyPermission, public_key: PublicKey) -> (r:
        ConstructTransaction)
        ensures
            r.tr@.signer_id == self.0@,
            r.tr@.receiver_id == self.0@,
            r.tr@.actions.len() == 1,
            r.tr@.actions[0] == (crate::actions::ActionView::AddKey {
                public_key: public_key@,
                access_key: crate::actions::AccessKeyModel {
                    nonce: 0,
                    permission: crate::actions::spec_permission_view(permission),
                },
            }),
    {
        ConstructTransaction::new(self.0.clone(), self.0.clone()).add_action(
            Action::AddKey(
                AddKeyAction { public_key, access_key: AccessKey { nonce: 0, permission } },
            ),
        )
    }

    /// Revokes one key.
    pub fn delete_key(&self, public_key: PublicKey) -> (r: ConstructTransaction)
        ensures
            r.tr@.signer_id == self.0@,
            r.tr@.receiver_id == self.0@,
            r.tr@.actions.len() == 1,
            r.tr@.actions[0] == (crate::actions::ActionView::DeleteKey {
                public_key: public_key@,
            }),
    {
        ConstructTransaction::new(self.0.clone(), self.0.clone()).add_action(
            Action::DeleteKey(DeleteKeyAction { public_key }),
        )
    }

    /// Revokes several keys in one transaction, in the given order.
    pub fn delete_keys(&self, public_keys: Vec<PublicKey>) -> (r: ConstructTransaction)
        ensures
            r.tr@.signer_id == self.0@,
            r.tr@.receiver_id == self.0@,
            r.tr@.actions.len() == public_keys@.len(),
            forall|i: int|
                0 <= i < public_keys@.len() ==> #[trigger] r.tr@.actions[i] == (
                crate::actions::ActionView::DeleteKey { public_key: public_keys.deep_view()[i] }),
    {
        let mut actions: Vec<Action> = Vec::new();
        let n = public_keys.len();
        let mut rest = public_keys;
        let ghost keys = rest.deep_view();
        proof {
            assert(rest.deep_view() =~= keys.skip(0));
        }
        while rest.len() > 0
            invariant
                actions@.len() + rest@.len() == keys.len(),
                rest.deep_view() =~= keys.skip(actions@.len() as int),
                forall|j: int|
                    0 <= j < actions@.len() ==> #[trigger] actions.deep_view()[j] == (
                    crate::actions::ActionView::DeleteKey { public_key: keys[j] }),
            decreases rest@.len(),
        {
            let ghost done = actions@.len();
            let ghost prev_rest = rest@;
            let ghost prev_rest_deep = rest.deep_view();
            let key = rest.remove(0);
            proof {
                assert(keys.skip(done as int)[0] == keys[done as int]);
                assert(key@ == keys[done as int]);
                assert forall|j: int| 0 <= j < rest.deep_view().len() implies rest.deep_view()[j]
                    == keys.skip(done as int + 1)[j] by {
                    assert(rest@[j] == prev_rest.remove(0)[j]);
                    assert(prev_rest.remove(0)[j] == prev_rest[j + 1]);
                    assert(prev_rest_deep[j + 1] == prev_rest[j + 1].deep_view());
                    assert(prev_rest_deep[j + 1] == keys.skip(done as int)[j + 1]);
                }
                assert(rest.deep_view() =~= keys.skip(done as int + 1));
            }
            let ghost prev = actions@;
            let ghost prev_deep = actions.deep_view();
            actions.push(Action::DeleteKey(DeleteKeyAction { public_key: key }));
            proof {
                assert forall|j: int| 0 <= j < actions@.len() implies #[trigger] actions.deep_view()[j]
                    == (crate::actions::ActionView::DeleteKey { public_key: keys[j] }) by {
                    if j < prev.len() {
                        assert((actions@)[j] == prev[j]);
                        assert(prev_deep[j] == prev[j].deep_view());
                    } else {
                        assert((actions@)[j] == actions@.last());
                    }
                }
            }
        }
        let c = ConstructTransaction::new(self.0.clone(), self.0.clone()).add_actions(actions);
        c
    }

    /// Deletes the account; its remaining balance goes to the beneficiary.
    pub fn delete_account_with_beneficiary(&self, beneficiary_id: AccountId) -> (r:
        ConstructTransaction)
        ensures
            r.tr@.signer_id == self.0@,
            r.tr@.receiver_id == self.0@,
            r.tr@.actions.len() == 1,
            r.tr@.actions[0] == (crate::actions::ActionView::DeleteAccount {
                beneficiary_id: beneficiary_id@,
            }),
    {
        ConstructTransaction::new(self.0.clone(), self.0.clone()).add_action(
            Action::DeleteAccount(DeleteAccountAction { beneficiary_id }),
        )
    }
}

} // verus!
