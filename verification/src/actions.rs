use vstd::prelude::*;
use crate::account_id::AccountId;
use crate::crypto::{PublicKey, PublicKeyView, Signature, SignatureView};
use crate::errors::MetaSignError;

verus! {

// ---------------------------------------------------------------------------
// The operations a transaction can carry, and their mathematical models.
// ---------------------------------------------------------------------------

/// Creates the receiver account.
#[derive(Debug, Clone, PartialEq, Eq, Structural)]
pub struct CreateAccountAction {}

/// Sets the receiver's contract code.
#[derive(Debug, PartialEq, Eq)]
pub struct DeployContractAction {
    pub code: Vec<u8>,
}

/// Invokes a method of the receiver's contract.
#[derive(Debug, PartialEq, Eq)]
pub struct FunctionCallAction {
    pub method_name: String,
    pub args: Vec<u8>,
    /// The gas budget of the call.
    pub gas: u64,
    /// The deposit attached to the call, in the smallest unit.
    pub deposit: u128,
}

/// Moves a deposit, in the smallest unit, to the receiver.
#[derive(Debug, Clone, PartialEq, Eq, Structural)]
pub struct TransferAction {
    pub deposit: u128,
}

/// Stakes tokens with a validator key.
#[derive(Debug, PartialEq, Eq)]
pub struct StakeAction {
    pub stake: u128,
    pub public_key: PublicKey,
}

/// Grants an access key to the receiver account.
#[derive(Debug, PartialEq, Eq)]
pub struct AddKeyAction {
    pub public_key: PublicKey,
    pub access_key: AccessKey,
}

/// Revokes the access key of the given public key.
#[derive(Debug, PartialEq, Eq)]
pub struct DeleteKeyAction {
    pub public_key: PublicKey,
}

/// Deletes the receiver account; its balance goes to the beneficiary.
#[derive(Debug, PartialEq, Eq)]
pub struct DeleteAccountAction {
    pub beneficiary_id: AccountId,
}

/// The scope an access key authorizes.
#[derive(Debug, PartialEq, Eq)]
pub enum AccessKeyPermission {
    FunctionCall(FunctionCallPermission),
    FullAccess,
}

/// A function-call-restricted permission scope.
#[derive(Debug, PartialEq, Eq)]
pub struct FunctionCallPermission {
    /// The balance the key may spend on gas, where it is capped.
    pub allowance: Option<u128>,
    pub receiver_id: String,
    pub method_names: Vec<String>,
}

/// A per-(account, key) authorization record.
#[derive(Debug, PartialEq, Eq)]
pub struct AccessKey {
    pub nonce: u64,
    pub permission: AccessKeyPermission,
}

/// An action a delegate action may carry: every kind but a further
/// delegation, which the type itself rules out.
#[derive(Debug, PartialEq, Eq)]
pub enum NonDelegateAction {
    CreateAccount(CreateAccountAction),
    DeployContract(DeployContractAction),
    FunctionCall(FunctionCallAction),
    Transfer(TransferAction),
    Stake(StakeAction),
    AddKey(AddKeyAction),
    DeleteKey(DeleteKeyAction),
    DeleteAccount(DeleteAccountAction),
}

/// A transaction to be signed by its originator but carried and paid for by
/// a relayer.
#[derive(Debug, PartialEq, Eq)]
pub struct DelegateAction {
    pub sender_id: AccountId,
    pub receiver_id: AccountId,
    pub actions: Vec<NonDelegateAction>,
    pub nonce: u64,
    /// The block height past which the delegation lapses.
    pub max_block_height: u64,
    pub public_key: PublicKey,
}

/// A delegate action together with the originator's signature over it.
#[derive(Debug, PartialEq, Eq)]
pub struct SignedDelegateAction {
    pub delegate_action: DelegateAction,
    pub signature: Signature,
}

/// One operation within a transaction.
#[derive(Debug, PartialEq, Eq)]
pub enum Action {
    CreateAccount(CreateAccountAction),
    DeployContract(DeployContractAction),
    FunctionCall(FunctionCallAction),
    Transfer(TransferAction),
    Stake(StakeAction),
    AddKey(AddKeyAction),
    DeleteKey(DeleteKeyAction),
    DeleteAccount(DeleteAccountAction),
    /// A wrapped, already-signed delegate action. A delegate action's own
    /// action list can never contain one of these.
    Delegate(Box<SignedDelegateAction>),
}

// ---------------------------------------------------------------------------
// Models.
// ---------------------------------------------------------------------------

pub struct FunctionCallPermissionView {
    pub allowance: Option<u128>,
    pub receiver_id: Seq<char>,
    pub method_names: Seq<Seq<char>>,
}

pub enum AccessKeyPermissionView {
    FunctionCall(FunctionCallPermissionView),
    FullAccess,
}

pub struct AccessKeyModel {
    pub nonce: u64,
    pub permission: AccessKeyPermissionView,
}

pub enum NonDelegateActionView {
    CreateAccount,
    DeployContract { code: Seq<u8> },
    FunctionCall { method_name: Seq<char>, args: Seq<u8>, gas: u64, deposit: u128 },
    Transfer { deposit: u128 },
    Stake { stake: u128, public_key: PublicKeyView },
    AddKey { public_key: PublicKeyView, access_key: AccessKeyModel },
    DeleteKey { public_key: PublicKeyView },
    DeleteAccount { beneficiary_id: Seq<char> },
}

pub struct DelegateActionView {
    pub sender_id: Seq<char>,
    pub receiver_id: Seq<char>,
    pub actions: Seq<NonDelegateActionView>,
    pub nonce: u64,
    pub max_block_height: u64,
    pub public_key: PublicKeyView,
}

pub struct SignedDelegateActionView {
    pub delegate_action: DelegateActionView,
    pub signature: SignatureView,
}

pub enum ActionView {
    CreateAccount,
    DeployContract { code: Seq<u8> },
    FunctionCall { method_name: Seq<char>, args: Seq<u8>, gas: u64, deposit: u128 },
    Transfer { deposit: u128 },
    Stake { stake: u128, public_key: PublicKeyView },
    AddKey { public_key: PublicKeyView, access_key: AccessKeyModel },
    DeleteKey { public_key: PublicKeyView },
    DeleteAccount { beneficiary_id: Seq<char> },
    Delegate(SignedDelegateActionView),
}

pub open spec fn spec_permission_view(p: AccessKeyPermission) -> AccessKeyPermissionView {
    match p {
        AccessKeyPermission::FunctionCall(f) => AccessKeyPermissionView::FunctionCall(
            FunctionCallPermissionView {
                allowance: f.allowance,
                receiver_id: f.receiver_id@,
                method_names: f.method_names.deep_view(),
            },
        ),
        AccessKeyPermission::FullAccess => AccessKeyPermissionView::FullAccess,
    }
}

impl View for AccessKey {
    type V = AccessKeyModel;

    open spec fn view(&self) -> AccessKeyModel {
        AccessKeyModel { nonce: self.nonce, permission: spec_permission_view(self.permission) }
    }
}

impl View for NonDelegateAction {
    type V = NonDelegateActionView;

    open spec fn view(&self) -> NonDelegateActionView {
        match *self {
            NonDelegateAction::CreateAccount(_) => NonDelegateActionView::CreateAccount,
            NonDelegateAction::DeployContract(d) => NonDelegateActionView::DeployContract {
                code: d.code@,
            },
            NonDelegateAction::FunctionCall(f) => NonDelegateActionView::FunctionCall {
                method_name: f.method_name@,
                args: f.args@,
                gas: f.gas,
                deposit: f.deposit,
            },
            NonDelegateAction::Transfer(t) => NonDelegateActionView::Transfer { deposit: t.deposit },
            NonDelegateAction::Stake(s) => NonDelegateActionView::Stake {
                stake: s.stake,
                public_key: s.public_key@,
            },
            NonDelegateAction::AddKey(k) => NonDelegateActionView::AddKey {
                public_key: k.public_key@,
                access_key: k.access_key@,
            },
            NonDelegateAction::DeleteKey(k) => NonDelegateActionView::DeleteKey {
                public_key: k.public_key@,
            },
            NonDelegateAction::DeleteAccount(d) => NonDelegateActionView::DeleteAccount {
                beneficiary_id: d.beneficiary_id@,
            },
        }
    }
}

impl DeepView for NonDelegateAction {
    type V = NonDelegateActionView;

    open spec fn deep_view(&self) -> NonDelegateActionView {
        self.view()
    }
}

impl View for DelegateAction {
    type V = DelegateActionView;

    open spec fn view(&self) -> DelegateActionView {
        DelegateActionView {
            sender_id: self.sender_id@,
            receiver_id: self.receiver_id@,
            actions: self.actions.deep_view(),
            nonce: self.nonce,
            max_block_height: self.max_block_height,
            public_key: self.public_key@,
        }
    }
}

impl View for SignedDelegateAction {
    type V = SignedDelegateActionView;

    open spec fn view(&self) -> SignedDelegateActionView {
        SignedDelegateActionView {
            delegate_action: self.delegate_action@,
            signature: self.signature@,
        }
    }
}

impl View for Action {
    type V = ActionView;

    open spec fn view(&self) -> ActionView {
        match self {
            Action::CreateAccount(_) => ActionView::CreateAccount,
            Action::DeployContract(d) => ActionView::DeployContract { code: d.code@ },
            Action::FunctionCall(f) => ActionView::FunctionCall {
                method_name: f.method_name@,
                args: f.args@,
                gas: f.gas,
                deposit: f.deposit,
            },
            Action::Transfer(t) => ActionView::Transfer { deposit: t.deposit },
            Action::Stake(s) => ActionView::Stake { stake: s.stake, public_key: s.public_key@ },
            Action::AddKey(k) => ActionView::AddKey {
                public_key: k.public_key@,
                access_key: k.access_key@,
            },
            Action::DeleteKey(k) => ActionView::DeleteKey { public_key: k.public_key@ },
            Action::DeleteAccount(d) => ActionView::DeleteAccount {
                beneficiary_id: d.beneficiary_id@,
            },
            Action::Delegate(s) => ActionView::Delegate((**s)@),
        }
    }
}

/// The action model a wrapped non-delegate action stands for.
pub open spec fn non_delegate_as_action_view(v: NonDelegateActionView) -> ActionView {
    match v {
        NonDelegateActionView::CreateAccount => ActionView::CreateAccount,
        NonDelegateActionView::DeployContract { code } => ActionView::DeployContract { code },
        NonDelegateActionView::FunctionCall { method_name, args, gas, deposit } =>
            ActionView::FunctionCall { method_name, args, gas, deposit },
        NonDelegateActionView::Transfer { deposit } => ActionView::Transfer { deposit },
        NonDelegateActionView::Stake { stake, public_key } => ActionView::Stake {
            stake,
            public_key,
        },
        NonDelegateActionView::AddKey { public_key, access_key } => ActionView::AddKey {
            public_key,
            access_key,
        },
        NonDelegateActionView::DeleteKey { public_key } => ActionView::DeleteKey { public_key },
        NonDelegateActionView::DeleteAccount { beneficiary_id } => ActionView::DeleteAccount {
            beneficiary_id,
        },
    }
}

impl NonDelegateAction {
    /// Accepts every action but a delegation; wrapping a delegation is the
    /// construction error of the meta-transaction flow.
    pub fn try_from_action(action: Action) -> (r: Result<NonDelegateAction, MetaSignError>)
        ensures
            action@ is Delegate <==> r == Err::<NonDelegateAction, MetaSignError>(
                MetaSignError::DelegateActionIsNotSupported,
            ),
            !(action@ is Delegate) ==> (r matches Ok(n) && non_delegate_as_action_view(n@)
                == action@),
    {
        match action {
            Action::CreateAccount(a) => Ok(NonDelegateAction::CreateAccount(a)),
            Action::DeployContract(a) => Ok(NonDelegateAction::DeployContract(a)),
            Action::FunctionCall(a) => Ok(NonDelegateAction::FunctionCall(a)),
            Action::Transfer(a) => Ok(NonDelegateAction::Transfer(a)),
            Action::Stake(a) => Ok(NonDelegateAction::Stake(a)),
            Action::AddKey(a) => Ok(NonDelegateAction::AddKey(a)),
            Action::DeleteKey(a) => Ok(NonDelegateAction::DeleteKey(a)),
            Action::DeleteAccount(a) => Ok(NonDelegateAction::DeleteAccount(a)),
            Action::Delegate(_) => Err(MetaSignError::DelegateActionIsNotSupported),
        }
    }

    /// Unwraps back into a plain action.
    pub fn into_action(self) -> (r: Action)
        ensures
            r@ == non_delegate_as_action_view(self@),
    {
        match self {
            NonDelegateAction::CreateAccount(a) => Action::CreateAccount(a),
            NonDelegateAction::DeployContract(a) => Action::DeployContract(a),
            NonDelegateAction::FunctionCall(a) => Action::FunctionCall(a),
            NonDelegateAction::Transfer(a) => Action::Transfer(a),
            NonDelegateAction::Stake(a) => Action::Stake(a),
            NonDelegateAction::AddKey(a) => Action::AddKey(a),
            NonDelegateAction::DeleteKey(a) => Action::DeleteKey(a),
            NonDelegateAction::DeleteAccount(a) => Action::DeleteAccount(a),
        }
    }
}


// ---------------------------------------------------------------------------
// Cloning, with the copy's model equal to the original's.
// ---------------------------------------------------------------------------

/// Copies a vector of strings; the copy reads the same.
fn clone_string_vec(v: &Vec<String>) -> (r: Vec<String>)
    ensures
        r.deep_view() == v.deep_view(),
{
    let mut out: Vec<String> = Vec::new();
    let n = v.len();
    let mut i: usize = 0;
    while i < n
        invariant
            i <= n,
            n == v@.len(),
            out@.len() == i,
            forall|j: int| 0 <= j < i ==> out@[j]@ == v@[j]@,
        decreases n - i,
    {
        out.push(v[i].clone());
        i += 1;
    }
    proof {
        assert(out.deep_view() =~= v.deep_view());
    }
    out
}

impl Clone for FunctionCallPermission {
    fn clone(&self) -> (r: Self)
        ensures
            spec_permission_view(AccessKeyPermission::FunctionCall(r)) == spec_permission_view(
                AccessKeyPermission::FunctionCall(*self),
            ),
    {
        FunctionCallPermission {
            allowance: match &self.allowance {
                Some(a) => Some(*a),
                None => None,
            },
            receiver_id: self.receiver_id.clone(),
            method_names: clone_string_vec(&self.method_names),
        }
    }
}

impl Clone for AccessKeyPermission {
    fn clone(&self) -> (r: Self)
        ensures
            spec_permission_view(r) == spec_permission_view(*self),
    {
        match self {
            AccessKeyPermission::FunctionCall(f) => AccessKeyPermission::FunctionCall(f.clone()),
            AccessKeyPermission::FullAccess => AccessKeyPermission::FullAccess,
        }
    }
}

impl Clone for AccessKey {
    fn clone(&self) -> (r: Self)
        ensures
            r@ == self@,
    {
        AccessKey { nonce: self.nonce, permission: self.permission.clone() }
    }
}

impl Clone for NonDelegateAction {
    fn clone(&self) -> (r: Self)
        ensures
            r@ == self@,
    {
        match self {
            NonDelegateAction::CreateAccount(_) => NonDelegateAction::CreateAccount(
                CreateAccountAction {},
            ),
            NonDelegateAction::DeployContract(d) => NonDelegateAction::DeployContract(
                DeployContractAction { code: crate::crypto::clone_u8_vec(&d.code) },
            ),
            NonDelegateAction::FunctionCall(f) => NonDelegateAction::FunctionCall(
                FunctionCallAction {
                    method_name: f.method_name.clone(),
                    args: crate::crypto::clone_u8_vec(&f.args),
                    gas: f.gas,
                    deposit: f.deposit,
                },
            ),
            NonDelegateAction::Transfer(t) => NonDelegateAction::Transfer(TransferAction {
                deposit: t.deposit,
            }),
            NonDelegateAction::Stake(st) => NonDelegateAction::Stake(StakeAction {
                stake: st.stake,
                public_key: st.public_key.clone(),
            }),
            NonDelegateAction::AddKey(k) => NonDelegateAction::AddKey(AddKeyAction {
                public_key: k.public_key.clone(),
                access_key: k.access_key.clone(),
            }),
            NonDelegateAction::DeleteKey(k) => NonDelegateAction::DeleteKey(DeleteKeyAction {
                public_key: k.public_key.clone(),
            }),
            NonDelegateAction::DeleteAccount(d) => NonDelegateAction::DeleteAccount(
                DeleteAccountAction { beneficiary_id: d.beneficiary_id.clone() },
            ),
        }
    }
}

/// Copies a vector of delegate-safe actions; the copy's model is the same.
fn clone_non_delegate_actions(v: &Vec<NonDelegateAction>) -> (r: Vec<NonDelegateAction>)
    ensures
        r.deep_view() == v.deep_view(),
{
    let mut out: Vec<NonDelegateAction> = Vec::new();
    let n = v.len();
    let mut i: usize = 0;
    while i < n
        invariant
            i <= n,
            n == v@.len(),
            out@.len() == i,
            forall|j: int| 0 <= j < i ==> out@[j]@ == v@[j]@,
        decreases n - i,
    {
        out.push(v[i].clone());
        i += 1;
    }
    proof {
        assert(out.deep_view() =~= v.deep_view());
    }
    out
}

impl Clone for DelegateAction {
    fn clone(&self) -> (r: Self)
        ensures
            r@ == self@,
    {
        let r = DelegateAction {
            sender_id: self.sender_id.clone(),
            receiver_id: self.receiver_id.clone(),
            actions: clone_non_delegate_actions(&self.actions),
            nonce: self.nonce,
            max_block_height: self.max_block_height,
            public_key: self.public_key.clone(),
        };
        r
    }
}

impl Clone for SignedDelegateAction {
    fn clone(&self) -> (r: Self)
        ensures
            r@ == self@,
    {
        SignedDelegateAction {
            delegate_action: self.delegate_action.clone(),
            signature: self.signature.clone(),
        }
    }
}

impl Clone for Action {
    fn clone(&self) -> (r: Self)
        ensures
            r@ == self@,
    {
        match self {
            Action::CreateAccount(_) => Action::CreateAccount(CreateAccountAction {}),
            Action::DeployContract(d) => Action::DeployContract(DeployContractAction {
                code: crate::crypto::clone_u8_vec(&d.code),
            }),
            Action::FunctionCall(f) => Action::FunctionCall(FunctionCallAction {
                method_name: f.method_name.clone(),
                args: crate::crypto::clone_u8_vec(&f.args),
                gas: f.gas,
                deposit: f.deposit,
            }),
            Action::Transfer(t) => Action::Transfer(TransferAction { deposit: t.deposit }),
            Action::Stake(st) => Action::Stake(StakeAction {
                stake: st.stake,
                public_key: st.public_key.clone(),
            }),
            Action::AddKey(k) => Action::AddKey(AddKeyAction {
                public_key: k.public_key.clone(),
                access_key: k.access_key.clone(),
            }),
            Action::DeleteKey(k) => Action::DeleteKey(DeleteKeyAction {
                public_key: k.public_key.clone(),
            }),
            Action::DeleteAccount(d) => Action::DeleteAccount(DeleteAccountAction {
                beneficiary_id: d.beneficiary_id.clone(),
            }),
            Action::Delegate(s) => Action::Delegate(Box::new((**s).clone())),
        }
    }
}

impl DeepView for Action {
    type V = ActionView;

    open spec fn deep_view(&self) -> ActionView {
        self.view()
    }
}

/// Copies a vector of actions; the copy's model is the same.
pub fn clone_actions(v: &Vec<Action>) -> (r: Vec<Action>)
    ensures
        r.deep_view() == v.deep_view(),
{
    let mut out: Vec<Action> = Vec::new();
    let n = v.len();
    let mut i: usize = 0;
    while i < n
        invariant
            i <= n,
            n == v@.len(),
            out@.len() == i,
            forall|j: int| 0 <= j < i ==> out@[j]@ == v@[j]@,
        decreases n - i,
    {
        out.push(v[i].clone());
        i += 1;
    }
    proof {
        assert(out.deep_view() =~= v.deep_view());
    }
    out
}

/// Whether an action is a wrapped delegate action.
pub fn is_delegate_action(a: &Action) -> (r: bool)
    ensures
        r == (a@ is Delegate),
{
    matches!(a, Action::Delegate(_))
}

} // verus!
