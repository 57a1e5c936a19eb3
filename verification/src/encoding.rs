use vstd::prelude::*;
use vstd::bytes::{spec_u32_to_le_bytes, spec_u64_to_le_bytes, u32_to_le_bytes, u64_to_le_bytes};
use vstd::string::StringSliceAdditionalSpecFns;
use vstd::slice::{slice_index_get, slice_subrange, slice_to_vec};
use crate::account_id::{valid_account_id, AccountId};
use crate::actions::{
    AccessKey, AccessKeyModel, AccessKeyPermission, AccessKeyPermissionView, Action, ActionView,
    AddKeyAction, CreateAccountAction, DeleteAccountAction, DeleteKeyAction, DeployContractAction,
    FunctionCallAction, FunctionCallPermission, StakeAction, TransferAction,
    DelegateAction, DelegateActionView, FunctionCallPermissionView, NonDelegateAction,
    NonDelegateActionView, SignedDelegateAction, SignedDelegateActionView,
};
use crate::crypto::{KeyType, PublicKey, PublicKeyView, Signature, SignatureView};
use crate::transactions::{Transaction, TransactionView};

verus! {

// ---------------------------------------------------------------------------
// The wire form of a transaction: little-endian integers, length-prefixed
// byte strings, and one tag byte per enum variant. This is the form the
// network hashes and signs.
// ---------------------------------------------------------------------------

/// A character sequence that the wire form can carry: ASCII, with a length
/// a 32-bit prefix can state.
pub open spec fn encodable_string(s: Seq<char>) -> bool {
    &&& s.len() < 0x1_0000_0000
    &&& vstd::utf8::is_ascii_chars(s)
}

pub open spec fn encodable_bytes(b: Seq<u8>) -> bool {
    b.len() < 0x1_0000_0000
}

/// The bytes of an ASCII character sequence.
pub open spec fn spec_ascii_bytes(s: Seq<char>) -> Seq<u8> {
    s.map_values(|c: char| c as u8)
}

pub open spec fn u128_low(x: u128) -> u64 {
    (x & 0xffff_ffff_ffff_ffff) as u64
}

pub open spec fn u128_high(x: u128) -> u64 {
    (x >> 64) as u64
}

pub open spec fn spec_encode_u128(x: u128) -> Seq<u8> {
    spec_u64_to_le_bytes(u128_low(x)) + spec_u64_to_le_bytes(u128_high(x))
}

/// A byte string travels as its 32-bit length and then its bytes.
pub open spec fn spec_encode_bytes(b: Seq<u8>) -> Seq<u8> {
    spec_u32_to_le_bytes(b.len() as u32) + b
}

/// A string travels as the byte string of its characters.
pub open spec fn spec_encode_string(s: Seq<char>) -> Seq<u8> {
    spec_encode_bytes(spec_ascii_bytes(s))
}

pub open spec fn spec_encode_option_u128(o: Option<u128>) -> Seq<u8> {
    match o {
        Option::None => seq![0u8],
        Option::Some(x) => seq![1u8] + spec_encode_u128(x),
    }
}

/// A key travels as its curve tag and its raw bytes, without a length.
pub open spec fn spec_encode_public_key(k: PublicKeyView) -> Seq<u8> {
    match k.key_type {
        KeyType::ED25519 => seq![0u8] + k.data,
        KeyType::SECP256K1 => seq![1u8] + k.data,
    }
}

pub open spec fn spec_encode_signature(s: SignatureView) -> Seq<u8> {
    match s.key_type {
        KeyType::ED25519 => seq![0u8] + s.data,
        KeyType::SECP256K1 => seq![1u8] + s.data,
    }
}

pub open spec fn spec_encode_permission(p: AccessKeyPermissionView) -> Seq<u8> {
    match p {
        AccessKeyPermissionView::FunctionCall(f) => seq![0u8] + spec_encode_option_u128(f.allowance)
            + spec_encode_string(f.receiver_id) + spec_encode_string_vec(f.method_names),
        AccessKeyPermissionView::FullAccess => seq![1u8],
    }
}

/// The strings of a vector, one after the other, from index `i` on.
pub open spec fn spec_encode_strings_from(v: Seq<Seq<char>>, i: int) -> Seq<u8>
    decreases v.len() - i,
{
    if i < 0 || i >= v.len() {
        Seq::empty()
    } else {
        spec_encode_string(v[i]) + spec_encode_strings_from(v, i + 1)
    }
}

/// A vector of strings travels as its 32-bit count and then its strings.
pub open spec fn spec_encode_string_vec(v: Seq<Seq<char>>) -> Seq<u8> {
    spec_u32_to_le_bytes(v.len() as u32) + spec_encode_strings_from(v, 0)
}

pub open spec fn spec_encode_access_key(k: AccessKeyModel) -> Seq<u8> {
    spec_u64_to_le_bytes(k.nonce) + spec_encode_permission(k.permission)
}

/// One action, as a tag byte and its fields. A delegate-safe action travels
/// exactly as the plain action it stands for.
pub open spec fn spec_encode_non_delegate_action(v: NonDelegateActionView) -> Seq<u8> {
    match v {
        NonDelegateActionView::CreateAccount => seq![0u8],
        NonDelegateActionView::DeployContract { code } => seq![1u8] + spec_encode_bytes(code),
        NonDelegateActionView::FunctionCall { method_name, args, gas, deposit } => seq![2u8]
            + spec_encode_string(method_name) + spec_encode_bytes(args) + spec_u64_to_le_bytes(gas)
            + spec_encode_u128(deposit),
        NonDelegateActionView::Transfer { deposit } => seq![3u8] + spec_encode_u128(deposit),
        NonDelegateActionView::Stake { stake, public_key } => seq![4u8] + spec_encode_u128(stake)
            + spec_encode_public_key(public_key),
        NonDelegateActionView::AddKey { public_key, access_key } => seq![5u8]
            + spec_encode_public_key(public_key) + spec_encode_access_key(access_key),
        NonDelegateActionView::DeleteKey { public_key } => seq![6u8] + spec_encode_public_key(
            public_key,
        ),
        NonDelegateActionView::DeleteAccount { beneficiary_id } => seq![7u8] + spec_encode_string(
            beneficiary_id,
        ),
    }
}

pub open spec fn spec_encode_non_delegate_actions_from(
    v: Seq<NonDelegateActionView>,
    i: int,
) -> Seq<u8>
    decreases v.len() - i,
{
    if i < 0 || i >= v.len() {
        Seq::empty()
    } else {
        spec_encode_non_delegate_action(v[i]) + spec_encode_non_delegate_actions_from(v, i + 1)
    }
}

pub open spec fn spec_encode_delegate_action(d: DelegateActionView) -> Seq<u8> {
    spec_encode_string(d.sender_id) + spec_encode_string(d.receiver_id) + spec_u32_to_le_bytes(
        d.actions.len() as u32,
    ) + spec_encode_non_delegate_actions_from(d.actions, 0) + spec_u64_to_le_bytes(d.nonce)
        + spec_u64_to_le_bytes(d.max_block_height) + spec_encode_public_key(d.public_key)
}

pub open spec fn spec_encode_signed_delegate_action(s: SignedDelegateActionView) -> Seq<u8> {
    spec_encode_delegate_action(s.delegate_action) + spec_encode_signature(s.signature)
}

pub open spec fn spec_encode_action(v: ActionView) -> Seq<u8> {
    match v {
        ActionView::CreateAccount => seq![0u8],
        ActionView::DeployContract { code } => seq![1u8] + spec_encode_bytes(code),
        ActionView::FunctionCall { method_name, args, gas, deposit } => seq![2u8]
            + spec_encode_string(method_name) + spec_encode_bytes(args) + spec_u64_to_le_bytes(gas)
            + spec_encode_u128(deposit),
        ActionView::Transfer { deposit } => seq![3u8] + spec_encode_u128(deposit),
        ActionView::Stake { stake, public_key } => seq![4u8] + spec_encode_u128(stake)
            + spec_encode_public_key(public_key),
        ActionView::AddKey { public_key, access_key } => seq![5u8] + spec_encode_public_key(
            public_key,
        ) + spec_encode_access_key(access_key),
        ActionView::DeleteKey { public_key } => seq![6u8] + spec_encode_public_key(public_key),
        ActionView::DeleteAccount { beneficiary_id } => seq![7u8] + spec_encode_string(
            beneficiary_id,
        ),
        ActionView::Delegate(s) => seq![8u8] + spec_encode_signed_delegate_action(s),
    }
}

pub open spec fn spec_encode_actions_from(v: Seq<ActionView>, i: int) -> Seq<u8>
    decreases v.len() - i,
{
    if i < 0 || i >= v.len() {
        Seq::empty()
    } else {
        spec_encode_action(v[i]) + spec_encode_actions_from(v, i + 1)
    }
}

/// The wire form the network hashes and signs: signer, key, nonce, receiver,
/// block hash, and the 32-bit-counted actions.
pub open spec fn spec_encode_transaction(t: TransactionView) -> Seq<u8> {
    spec_encode_string(t.signer_id) + spec_encode_public_key(t.public_key) + spec_u64_to_le_bytes(
        t.nonce,
    ) + spec_encode_string(t.receiver_id) + t.block_hash + spec_u32_to_le_bytes(
        t.actions.len() as u32,
    ) + spec_encode_actions_from(t.actions, 0)
}

// ---------------------------------------------------------------------------
// What the wire form can carry.
// ---------------------------------------------------------------------------

pub open spec fn signature_wf(s: SignatureView) -> bool {
    match s.key_type {
        KeyType::ED25519 => s.data.len() == 64,
        KeyType::SECP256K1 => s.data.len() == 65,
    }
}

pub open spec fn permission_wf(p: AccessKeyPermissionView) -> bool {
    match p {
        AccessKeyPermissionView::FunctionCall(f) => {
            &&& encodable_string(f.receiver_id)
            &&& f.method_names.len() < 0x1_0000_0000
            &&& forall|i: int|
                0 <= i < f.method_names.len() ==> encodable_string(#[trigger] f.method_names[i])
        },
        AccessKeyPermissionView::FullAccess => true,
    }
}

pub open spec fn non_delegate_action_wf(v: NonDelegateActionView) -> bool {
    match v {
        NonDelegateActionView::CreateAccount => true,
        NonDelegateActionView::DeployContract { code } => encodable_bytes(code),
        NonDelegateActionView::FunctionCall { method_name, args, gas, deposit } => {
            &&& encodable_string(method_name)
            &&& encodable_bytes(args)
        },
        NonDelegateActionView::Transfer { deposit } => true,
        NonDelegateActionView::Stake { stake, public_key } => crate::crypto::public_key_wf(
            public_key,
        ),
        NonDelegateActionView::AddKey { public_key, access_key } => {
            &&& crate::crypto::public_key_wf(public_key)
            &&& permission_wf(access_key.permission)
        },
        NonDelegateActionView::DeleteKey { public_key } => crate::crypto::public_key_wf(public_key),
        NonDelegateActionView::DeleteAccount { beneficiary_id } => valid_account_id(beneficiary_id),
    }
}

pub open spec fn delegate_action_wf(d: DelegateActionView) -> bool {
    &&& valid_account_id(d.sender_id)
    &&& valid_account_id(d.receiver_id)
    &&& d.actions.len() < 0x1_0000_0000
    &&& forall|i: int| 0 <= i < d.actions.len() ==> non_delegate_action_wf(#[trigger] d.actions[i])
    &&& crate::crypto::public_key_wf(d.public_key)
}

pub open spec fn signed_delegate_action_wf(s: SignedDelegateActionView) -> bool {
    &&& delegate_action_wf(s.delegate_action)
    &&& signature_wf(s.signature)
}

pub open spec fn action_wf(v: ActionView) -> bool {
    match v {
        ActionView::CreateAccount => true,
        ActionView::DeployContract { code } => encodable_bytes(code),
        ActionView::FunctionCall { method_name, args, gas, deposit } => {
            &&& encodable_string(method_name)
            &&& encodable_bytes(args)
        },
        ActionView::Transfer { deposit } => true,
        ActionView::Stake { stake, public_key } => crate::crypto::public_key_wf(public_key),
        ActionView::AddKey { public_key, access_key } => {
            &&& crate::crypto::public_key_wf(public_key)
            &&& permission_wf(access_key.permission)
        },
        ActionView::DeleteKey { public_key } => crate::crypto::public_key_wf(public_key),
        ActionView::DeleteAccount { beneficiary_id } => valid_account_id(beneficiary_id),
        ActionView::Delegate(s) => signed_delegate_action_wf(s),
    }
}

pub open spec fn transaction_wf(t: TransactionView) -> bool {
    &&& valid_account_id(t.signer_id)
    &&& valid_account_id(t.receiver_id)
    &&& crate::crypto::public_key_wf(t.public_key)
    &&& t.block_hash.len() == 32
    &&& t.actions.len() < 0x1_0000_0000
    &&& forall|i: int| 0 <= i < t.actions.len() ==> action_wf(#[trigger] t.actions[i])
}


// ---------------------------------------------------------------------------
// Encoders.
// ---------------------------------------------------------------------------

fn push_u8(out: &mut Vec<u8>, x: u8)
    ensures
        final(out)@ == old(out)@ + seq![x],
{
    out.push(x);
    proof {
        assert(out@ =~= old(out)@ + seq![x]);
    }
}

fn push_u32(out: &mut Vec<u8>, x: u32)
    ensures
        final(out)@ == old(out)@ + spec_u32_to_le_bytes(x),
{
    let mut b = u32_to_le_bytes(x);
    out.append(&mut b);
}

fn push_u64(out: &mut Vec<u8>, x: u64)
    ensures
        final(out)@ == old(out)@ + spec_u64_to_le_bytes(x),
{
    let mut b = u64_to_le_bytes(x);
    out.append(&mut b);
}

fn push_u128(out: &mut Vec<u8>, x: u128)
    ensures
        final(out)@ == old(out)@ + spec_encode_u128(x),
{
    proof {
        assert(x & 0xffff_ffff_ffff_ffff < 0x1_0000_0000_0000_0000) by (bit_vector);
        assert(x >> 64 < 0x1_0000_0000_0000_0000) by (bit_vector);
    }
    let low: u64 = (x & 0xffff_ffff_ffff_ffff) as u64;
    let high: u64 = (x >> 64) as u64;
    push_u64(out, low);
    push_u64(out, high);
    proof {
        assert(out@ =~= old(out)@ + spec_encode_u128(x));
    }
}

fn push_byte_slice(out: &mut Vec<u8>, b: &[u8])
    requires
        b@.len() < 0x1_0000_0000,
    ensures
        final(out)@ == old(out)@ + spec_encode_bytes(b@),
{
    push_u32(out, b.len() as u32);
    out.extend_from_slice(b);
    proof {
        assert(out@ =~= old(out)@ + spec_encode_bytes(b@));
    }
}

fn push_str(out: &mut Vec<u8>, s: &str)
    requires
        encodable_string(s@),
    ensures
        final(out)@ == old(out)@ + spec_encode_string(s@),
{
    proof {
        assert(vstd::string::is_ascii(s));
        vstd::string::is_ascii_spec_bytes(s);
        assert(s.spec_bytes() =~= spec_ascii_bytes(s@));
    }
    let b = s.as_bytes();
    push_byte_slice(out, b);
}

fn push_account_id(out: &mut Vec<u8>, a: &AccountId)
    ensures
        final(out)@ == old(out)@ + spec_encode_string(a@),
        valid_account_id(a@),
{
    a.assert_valid();
    proof {
        lemma_valid_account_id_encodable(a@);
    }
    push_str(out, a.as_str());
}

/// A valid account ID is ASCII and short, so the wire form can carry it.
pub proof fn lemma_valid_account_id_encodable(s: Seq<char>)
    requires
        valid_account_id(s),
    ensures
        encodable_string(s),
{
    assert forall|i: int| 0 <= i < s.len() implies '\0' <= #[trigger] s[i] <= '\u{7f}' by {
        assert(crate::account_id::is_account_id_char(s[i]));
    }
}

fn push_public_key(out: &mut Vec<u8>, k: &PublicKey)
    ensures
        final(out)@ == old(out)@ + spec_encode_public_key(k@),
{
    match k.key_type() {
        KeyType::ED25519 => push_u8(out, 0),
        KeyType::SECP256K1 => push_u8(out, 1),
    }
    out.extend_from_slice(k.key_data().as_slice());
    proof {
        assert(out@ =~= old(out)@ + spec_encode_public_key(k@));
    }
}

fn push_signature(out: &mut Vec<u8>, s: &Signature)
    ensures
        final(out)@ == old(out)@ + spec_encode_signature(s@),
{
    match s.key_type() {
        KeyType::ED25519 => push_u8(out, 0),
        KeyType::SECP256K1 => push_u8(out, 1),
    }
    out.extend_from_slice(s.sig_data().as_slice());
    proof {
        assert(out@ =~= old(out)@ + spec_encode_signature(s@));
    }
}

fn push_option_u128(out: &mut Vec<u8>, o: &Option<u128>)
    ensures
        final(out)@ == old(out)@ + spec_encode_option_u128(*o),
{
    match o {
        Option::None => push_u8(out, 0),
        Option::Some(x) => {
            push_u8(out, 1);
            push_u128(out, *x);
        },
    }
    proof {
        assert(out@ =~= old(out)@ + spec_encode_option_u128(*o));
    }
}

fn push_string_vec(out: &mut Vec<u8>, v: &Vec<String>)
    requires
        v@.len() < 0x1_0000_0000,
        forall|i: int| 0 <= i < v@.len() ==> encodable_string(#[trigger] v.deep_view()[i]),
    ensures
        final(out)@ == old(out)@ + spec_encode_string_vec(v.deep_view()),
{
    let ghost dv = v.deep_view();
    push_u32(out, v.len() as u32);
    let ghost base = out@;
    let n = v.len();
    let mut i: usize = 0;
    while i < n
        invariant
            i <= n,
            n == v@.len(),
            dv == v.deep_view(),
            dv.len() == n,
            forall|j: int| 0 <= j < n ==> encodable_string(#[trigger] dv[j]),
            base + spec_encode_strings_from(dv, 0) == out@ + spec_encode_strings_from(dv, i as int),
        decreases n - i,
    {
        let ghost prev = out@;
        push_str(out, v[i].as_str());
        proof {
            assert(v@[i as int]@ == dv[i as int]);
            assert(prev + (spec_encode_string(dv[i as int]) + spec_encode_strings_from(
                dv,
                i + 1 as int,
            )) =~= (prev + spec_encode_string(dv[i as int])) + spec_encode_strings_from(
                dv,
                i + 1 as int,
            ));
        }
        i += 1;
    }
    proof {
        assert(spec_encode_strings_from(dv, n as int) =~= Seq::<u8>::empty());
        assert(out@ + Seq::<u8>::empty() =~= out@);
        assert(out@ =~= old(out)@ + spec_encode_string_vec(dv));
    }
}

fn push_permission(out: &mut Vec<u8>, p: &AccessKeyPermission)
    requires
        permission_wf(crate::actions::spec_permission_view(*p)),
    ensures
        final(out)@ == old(out)@ + spec_encode_permission(
            crate::actions::spec_permission_view(*p),
        ),
{
    match p {
        AccessKeyPermission::FunctionCall(f) => {
            push_u8(out, 0);
            push_option_u128(out, &f.allowance);
            push_str(out, f.receiver_id.as_str());
            push_string_vec(out, &f.method_names);
        },
        AccessKeyPermission::FullAccess => {
            push_u8(out, 1);
        },
    }
    proof {
        assert(out@ =~= old(out)@ + spec_encode_permission(
            crate::actions::spec_permission_view(*p),
        ));
    }
}

fn push_access_key(out: &mut Vec<u8>, k: &AccessKey)
    requires
        permission_wf(k@.permission),
    ensures
        final(out)@ == old(out)@ + spec_encode_access_key(k@),
{
    push_u64(out, k.nonce);
    push_permission(out, &k.permission);
    proof {
        assert(out@ =~= old(out)@ + spec_encode_access_key(k@));
    }
}

fn push_non_delegate_action(out: &mut Vec<u8>, a: &NonDelegateAction)
    requires
        non_delegate_action_wf(a@),
    ensures
        final(out)@ == old(out)@ + spec_encode_non_delegate_action(a@),
{
    match a {
        NonDelegateAction::CreateAccount(_) => push_u8(out, 0),
        NonDelegateAction::DeployContract(d) => {
            push_u8(out, 1);
            push_byte_slice(out, d.code.as_slice());
        },
        NonDelegateAction::FunctionCall(f) => {
            push_u8(out, 2);
            push_str(out, f.method_name.as_str());
            push_byte_slice(out, f.args.as_slice());
            push_u64(out, f.gas);
            push_u128(out, f.deposit);
        },
        NonDelegateAction::Transfer(t) => {
            push_u8(out, 3);
            push_u128(out, t.deposit);
        },
        NonDelegateAction::Stake(s) => {
            push_u8(out, 4);
            push_u128(out, s.stake);
            push_public_key(out, &s.public_key);
        },
        NonDelegateAction::AddKey(k) => {
            push_u8(out, 5);
            push_public_key(out, &k.public_key);
            push_access_key(out, &k.access_key);
        },
        NonDelegateAction::DeleteKey(k) => {
            push_u8(out, 6);
            push_public_key(out, &k.public_key);
        },
        NonDelegateAction::DeleteAccount(d) => {
            push_u8(out, 7);
            push_account_id(out, &d.beneficiary_id);
        },
    }
    proof {
        assert(out@ =~= old(out)@ + spec_encode_non_delegate_action(a@));
    }
}

fn push_delegate_action(out: &mut Vec<u8>, d: &DelegateAction)
    requires
        delegate_action_wf(d@),
    ensures
        final(out)@ == old(out)@ + spec_encode_delegate_action(d@),
{
    let ghost dv = d@.actions;
    push_account_id(out, &d.sender_id);
    push_account_id(out, &d.receiver_id);
    push_u32(out, d.actions.len() as u32);
    let ghost base = out@;
    let n = d.actions.len();
    let mut i: usize = 0;
    while i < n
        invariant
            i <= n,
            n == d.actions@.len(),
            dv == d@.actions,
            dv.len() == n,
            forall|j: int| 0 <= j < n ==> non_delegate_action_wf(#[trigger] dv[j]),
            base + spec_encode_non_delegate_actions_from(dv, 0) == out@
                + spec_encode_non_delegate_actions_from(dv, i as int),
        decreases n - i,
    {
        let ghost prev = out@;
        push_non_delegate_action(out, &d.actions[i]);
        proof {
            assert(d.actions@[i as int]@ == dv[i as int]);
            assert(prev + (spec_encode_non_delegate_action(dv[i as int])
                + spec_encode_non_delegate_actions_from(dv, i + 1 as int)) =~= (prev
                + spec_encode_non_delegate_action(dv[i as int]))
                + spec_encode_non_delegate_actions_from(dv, i + 1 as int));
        }
        i += 1;
    }
    push_u64(out, d.nonce);
    push_u64(out, d.max_block_height);
    push_public_key(out, &d.public_key);
    proof {
        assert(spec_encode_non_delegate_actions_from(dv, n as int) =~= Seq::<u8>::empty());
        assert(out@ =~= old(out)@ + spec_encode_delegate_action(d@));
    }
}

fn push_signed_delegate_action(out: &mut Vec<u8>, s: &SignedDelegateAction)
    requires
        signed_delegate_action_wf(s@),
    ensures
        final(out)@ == old(out)@ + spec_encode_signed_delegate_action(s@),
{
    push_delegate_action(out, &s.delegate_action);
    push_signature(out, &s.signature);
    proof {
        assert(out@ =~= old(out)@ + spec_encode_signed_delegate_action(s@));
    }
}

fn push_action(out: &mut Vec<u8>, a: &Action)
    requires
        action_wf(a@),
    ensures
        final(out)@ == old(out)@ + spec_encode_action(a@),
{
    match a {
        Action::CreateAccount(_) => push_u8(out, 0),
        Action::DeployContract(d) => {
            push_u8(out, 1);
            push_byte_slice(out, d.code.as_slice());
        },
        Action::FunctionCall(f) => {
            push_u8(out, 2);
            push_str(out, f.method_name.as_str());
            push_byte_slice(out, f.args.as_slice());
            push_u64(out, f.gas);
            push_u128(out, f.deposit);
        },
        Action::Transfer(t) => {
            push_u8(out, 3);
            push_u128(out, t.deposit);
        },
        Action::Stake(s) => {
            push_u8(out, 4);
            push_u128(out, s.stake);
            push_public_key(out, &s.public_key);
        },
        Action::AddKey(k) => {
            push_u8(out, 5);
            push_public_key(out, &k.public_key);
            push_access_key(out, &k.access_key);
        },
        Action::DeleteKey(k) => {
            push_u8(out, 6);
            push_public_key(out, &k.public_key);
        },
        Action::DeleteAccount(d) => {
            push_u8(out, 7);
            push_account_id(out, &d.beneficiary_id);
        },
        Action::Delegate(s) => {
            push_u8(out, 8);
            push_signed_delegate_action(out, s);
        },
    }
    proof {
        assert(out@ =~= old(out)@ + spec_encode_action(a@));
    }
}

fn push_transaction(out: &mut Vec<u8>, t: &Transaction)
    requires
        transaction_wf(t@),
    ensures
        final(out)@ == old(out)@ + spec_encode_transaction(t@),
{
    let ghost dv = t@.actions;
    push_account_id(out, &t.signer_id);
    push_public_key(out, &t.public_key);
    push_u64(out, t.nonce);
    push_account_id(out, &t.receiver_id);
    out.extend_from_slice(t.block_hash.0.as_slice());
    push_u32(out, t.actions.len() as u32);
    let ghost base = out@;
    let n = t.actions.len();
    let mut i: usize = 0;
    while i < n
        invariant
            i <= n,
            n == t.actions@.len(),
            dv == t@.actions,
            dv.len() == n,
            forall|j: int| 0 <= j < n ==> action_wf(#[trigger] dv[j]),
            base + spec_encode_actions_from(dv, 0) == out@ + spec_encode_actions_from(
                dv,
                i as int,
            ),
        decreases n - i,
    {
        let ghost prev = out@;
        push_action(out, &t.actions[i]);
        proof {
            assert(t.actions@[i as int]@ == dv[i as int]);
            assert(prev + (spec_encode_action(dv[i as int]) + spec_encode_actions_from(
                dv,
                i + 1 as int,
            )) =~= (prev + spec_encode_action(dv[i as int])) + spec_encode_actions_from(
                dv,
                i + 1 as int,
            ));
        }
        i += 1;
    }
    proof {
        assert(spec_encode_actions_from(dv, n as int) =~= Seq::<u8>::empty());
        assert(out@ =~= old(out)@ + spec_encode_transaction(t@));
    }
}

/// Encodes one action into its wire form.
pub fn encode_action(a: &Action) -> (r: Vec<u8>)
    requires
        action_wf(a@),
    ensures
        r@ == spec_encode_action(a@),
{
    let mut out: Vec<u8> = Vec::new();
    push_action(&mut out, a);
    proof {
        assert(out@ =~= spec_encode_action(a@));
    }
    out
}

/// Encodes a fully addressed transaction into the wire form the network
/// hashes and signs.
pub fn encode_transaction(t: &Transaction) -> (r: Vec<u8>)
    requires
        transaction_wf(t@),
    ensures
        r@ == spec_encode_transaction(t@),
{
    let mut out: Vec<u8> = Vec::new();
    push_transaction(&mut out, t);
    proof {
        assert(out@ =~= spec_encode_transaction(t@));
    }
    out
}

/// Encodes a delegate action, the body an originator signs.
pub fn encode_delegate_action(d: &DelegateAction) -> (r: Vec<u8>)
    requires
        delegate_action_wf(d@),
    ensures
        r@ == spec_encode_delegate_action(d@),
{
    let mut out: Vec<u8> = Vec::new();
    push_delegate_action(&mut out, d);
    proof {
        assert(out@ =~= spec_encode_delegate_action(d@));
    }
    out
}

/// The wire form of a signed transaction: the transaction and then the
/// signature.
pub open spec fn spec_encode_signed_transaction(
    s: crate::transactions::SignedTransactionView,
) -> Seq<u8> {
    spec_encode_transaction(s.transaction) + spec_encode_signature(s.signature)
}

/// Encodes a signed transaction into the form the network's broadcast
/// methods accept.
pub fn encode_signed_transaction(s: &crate::transactions::SignedTransaction) -> (r: Vec<u8>)
    requires
        transaction_wf(s.transaction@),
    ensures
        r@ == spec_encode_signed_transaction(s@),
{
    let mut out: Vec<u8> = Vec::new();
    push_transaction(&mut out, &s.transaction);
    push_signature(&mut out, &s.signature);
    proof {
        assert(out@ =~= spec_encode_signed_transaction(s@));
    }
    out
}

/// Encodes a signed delegate action, the payload a relayer accepts.
pub fn encode_signed_delegate_action(s: &SignedDelegateAction) -> (r: Vec<u8>)
    requires
        signed_delegate_action_wf(s@),
    ensures
        r@ == spec_encode_signed_delegate_action(s@),
{
    let mut out: Vec<u8> = Vec::new();
    push_signed_delegate_action(&mut out, s);
    proof {
        assert(out@ =~= spec_encode_signed_delegate_action(s@));
    }
    out
}


// ---------------------------------------------------------------------------
// Decoders. Each states completeness: wherever the input from `pos` on
// begins with the encoding of a well-formed value, decoding succeeds and
// returns exactly that value and the position after its encoding.
// ---------------------------------------------------------------------------

/// Splitting a known prefix off the tail of a byte sequence.
pub proof fn lemma_prefix_split(input: Seq<u8>, pos: int, head: Seq<u8>, rest: Seq<u8>)
    requires
        0 <= pos <= input.len(),
        input.subrange(pos, input.len() as int) == head + rest,
    ensures
        pos + head.len() + rest.len() == input.len(),
        input.subrange(pos, pos + head.len()) == head,
        input.subrange(pos + head.len(), input.len() as int) == rest,
{
    let tail = input.subrange(pos, input.len() as int);
    assert(tail.len() == head.len() + rest.len());
    assert(input.subrange(pos, pos + head.len()) =~= head) by {
        assert forall|k: int| 0 <= k < head.len() implies input.subrange(
            pos,
            pos + head.len(),
        )[k] == head[k] by {
            assert(input[pos + k] == tail[k]);
            assert(tail[k] == (head + rest)[k]);
        }
    }
    assert(input.subrange(pos + head.len(), input.len() as int) =~= rest) by {
        assert forall|k: int| 0 <= k < rest.len() implies input.subrange(
            pos + head.len(),
            input.len() as int,
        )[k] == rest[k] by {
            assert(input[pos + head.len() + k] == tail[head.len() + k]);
            assert(tail[head.len() + k] == (head + rest)[head.len() + k]);
        }
    }
}

/// The tail of `input` from `pos` on.
pub open spec fn tail_from(input: Seq<u8>, pos: int) -> Seq<u8> {
    input.subrange(pos, input.len() as int)
}

fn read_u8(input: &[u8], pos: usize) -> (r: Option<(u8, usize)>)
    ensures
        pos < input@.len() ==> (r matches Some(p) && p.0 == input@[pos as int] && p.1 == pos + 1),
        pos >= input@.len() ==> r is None,
{
    if pos < input.len() {
        Some((*slice_index_get(input, pos), pos + 1))
    } else {
        None
    }
}

fn read_u32_le(input: &[u8], pos: usize) -> (r: Option<(u32, usize)>)
    ensures
        pos <= input@.len() && input@.len() - pos >= 4 ==> (r matches Some(p) && p.0
            == vstd::bytes::spec_u32_from_le_bytes(input@.subrange(pos as int, pos + 4)) && p.1
            == pos + 4),
        !(pos <= input@.len() && input@.len() - pos >= 4) ==> r is None,
{
    if pos <= input.len() && input.len() - pos >= 4 {
        let b = slice_subrange(input, pos, pos + 4);
        let x = vstd::bytes::u32_from_le_bytes(b);
        Some((x, pos + 4))
    } else {
        None
    }
}

fn read_u64_le(input: &[u8], pos: usize) -> (r: Option<(u64, usize)>)
    ensures
        pos <= input@.len() && input@.len() - pos >= 8 ==> (r matches Some(p) && p.0
            == vstd::bytes::spec_u64_from_le_bytes(input@.subrange(pos as int, pos + 8)) && p.1
            == pos + 8),
        !(pos <= input@.len() && input@.len() - pos >= 8) ==> r is None,
{
    if pos <= input.len() && input.len() - pos >= 8 {
        let b = slice_subrange(input, pos, pos + 8);
        let x = vstd::bytes::u64_from_le_bytes(b);
        Some((x, pos + 8))
    } else {
        None
    }
}

/// Completeness of the 64-bit reader against the 64-bit writer.
proof fn lemma_read_u64_encoding(input: Seq<u8>, pos: int, x: u64, rest: Seq<u8>)
    requires
        0 <= pos <= input.len(),
        tail_from(input, pos) == spec_u64_to_le_bytes(x) + rest,
    ensures
        pos + 8 + rest.len() == input.len(),
        vstd::bytes::spec_u64_from_le_bytes(input.subrange(pos, pos + 8)) == x,
        tail_from(input, pos + 8) == rest,
{
    vstd::bytes::lemma_auto_spec_u64_to_from_le_bytes();
    lemma_prefix_split(input, pos, spec_u64_to_le_bytes(x), rest);
}

/// Completeness of the 32-bit reader against the 32-bit writer.
proof fn lemma_read_u32_encoding(input: Seq<u8>, pos: int, x: u32, rest: Seq<u8>)
    requires
        0 <= pos <= input.len(),
        tail_from(input, pos) == spec_u32_to_le_bytes(x) + rest,
    ensures
        pos + 4 + rest.len() == input.len(),
        vstd::bytes::spec_u32_from_le_bytes(input.subrange(pos, pos + 4)) == x,
        tail_from(input, pos + 4) == rest,
{
    vstd::bytes::lemma_auto_spec_u32_to_from_le_bytes();
    lemma_prefix_split(input, pos, spec_u32_to_le_bytes(x), rest);
}

/// The hypothesis of the 128-bit reader.
spec fn u128_hyp(input: Seq<u8>, pos: int, x: u128, rest: Seq<u8>) -> bool {
    &&& 0 <= pos <= input.len()
    &&& tail_from(input, pos) == spec_encode_u128(x) + rest
}

fn read_u128_le(input: &[u8], pos: usize) -> (r: Option<(u128, usize)>)
    ensures
        forall|x: u128, rest: Seq<u8>|
            #[trigger] u128_hyp(input@, pos as int, x, rest) ==> (r matches Some(p) && p.0 == x
                && p.1 == pos + 16 && p.1 <= input@.len() && tail_from(input@, p.1 as int) == rest),
{
    let r1 = read_u64_le(input, pos);
    match r1 {
        None => {
            proof {
                assert forall|x: u128, rest: Seq<u8>|
                    u128_hyp(input@, pos as int, x, rest) implies false by {
                    assert(spec_encode_u128(x) + rest =~= spec_u64_to_le_bytes(u128_low(x)) + (
                    spec_u64_to_le_bytes(u128_high(x)) + rest));
                    lemma_read_u64_encoding(
                        input@,
                        pos as int,
                        u128_low(x),
                        spec_u64_to_le_bytes(u128_high(x)) + rest,
                    );
                }
            }
            None
        },
        Some((low, pos1)) => {
            let r2 = read_u64_le(input, pos1);
            match r2 {
                None => {
                    proof {
                        assert forall|x: u128, rest: Seq<u8>|
                            u128_hyp(input@, pos as int, x, rest) implies false by {
                            assert(spec_encode_u128(x) + rest =~= spec_u64_to_le_bytes(u128_low(x))
                                + (spec_u64_to_le_bytes(u128_high(x)) + rest));
                            lemma_read_u64_encoding(
                                input@,
                                pos as int,
                                u128_low(x),
                                spec_u64_to_le_bytes(u128_high(x)) + rest,
                            );
                            lemma_read_u64_encoding(
                                input@,
                                pos as int + 8,
                                u128_high(x),
                                rest,
                            );
                        }
                    }
                    None
                },
                Some((high, pos2)) => {
                    let value: u128 = (low as u128) | ((high as u128) << 64);
                    proof {
                        assert forall|x: u128, rest: Seq<u8>|
                            u128_hyp(input@, pos as int, x, rest) implies (low == u128_low(x) && high
                                == u128_high(x) && pos2 == pos + 16 && pos2 <= input@.len()
                                && tail_from(input@, pos2 as int) == rest) by {
                            assert(spec_encode_u128(x) + rest =~= spec_u64_to_le_bytes(u128_low(x))
                                + (spec_u64_to_le_bytes(u128_high(x)) + rest));
                            lemma_read_u64_encoding(
                                input@,
                                pos as int,
                                u128_low(x),
                                spec_u64_to_le_bytes(u128_high(x)) + rest,
                            );
                            lemma_read_u64_encoding(
                                input@,
                                pos as int + 8,
                                u128_high(x),
                                rest,
                            );
                        }
                        assert forall|x: u128|
                            low == u128_low(x) && high == u128_high(x) implies value == x by {
                            lemma_u128_parts(x);
                        }
                    }
                    Some((value, pos2))
                },
            }
        },
    }
}

/// A 128-bit value is its low and high 64-bit halves put back together.
proof fn lemma_u128_parts(x: u128)
    ensures
        (((x & 0xffff_ffff_ffff_ffff) as u64) as u128) | ((((x >> 64) as u64) as u128) << 64) == x,
{
    assert((((x & 0xffff_ffff_ffff_ffff) as u64) as u128) | ((((x >> 64) as u64) as u128) << 64)
        == x) by (bit_vector);
}


/// Relies on String::from_utf8: bytes below 128 are ASCII, valid UTF-8, and
/// decode to one character per byte.
#[verifier::external_body]
pub(crate) fn string_from_ascii_bytes(b: Vec<u8>) -> (r: String)
    requires
        forall|i: int| 0 <= i < b@.len() ==> b@[i] < 128,
    ensures
        r@ == b@.map_values(|x: u8| x as char),
{
    String::from_utf8(b).unwrap_or_default()
}

fn bytes_all_ascii(b: &Vec<u8>) -> (r: bool)
    ensures
        r == forall|i: int| 0 <= i < b@.len() ==> #[trigger] b@[i] < 128,
{
    let n = b.len();
    let mut i: usize = 0;
    while i < n
        invariant
            i <= n,
            n == b@.len(),
            forall|j: int| 0 <= j < i ==> #[trigger] b@[j] < 128,
        decreases n - i,
    {
        if b[i] >= 128 {
            return false;
        }
        i += 1;
    }
    true
}

fn read_fixed(input: &[u8], pos: usize, n: usize) -> (r: Option<(Vec<u8>, usize)>)
    ensures
        pos <= input@.len() && input@.len() - pos >= n ==> (r matches Some(p) && p.0@
            == input@.subrange(pos as int, pos + n) && p.1 == pos + n),
        !(pos <= input@.len() && input@.len() - pos >= n) ==> r is None,
{
    if pos <= input.len() && input.len() - pos >= n {
        let b = slice_to_vec(slice_subrange(input, pos, pos + n));
        Some((b, pos + n))
    } else {
        None
    }
}

/// The hypothesis of the byte-string reader.
spec fn bytes_hyp(input: Seq<u8>, pos: int, b: Seq<u8>, rest: Seq<u8>) -> bool {
    &&& 0 <= pos <= input.len()
    &&& encodable_bytes(b)
    &&& tail_from(input, pos) == spec_encode_bytes(b) + rest
}

/// The hypothesis of the string reader.
spec fn str_hyp(input: Seq<u8>, pos: int, sv: Seq<char>, rest: Seq<u8>) -> bool {
    &&& 0 <= pos <= input.len()
    &&& encodable_string(sv)
    &&& tail_from(input, pos) == spec_encode_string(sv) + rest
}

/// The hypothesis of the account-ID reader.
spec fn aid_hyp(input: Seq<u8>, pos: int, sv: Seq<char>, rest: Seq<u8>) -> bool {
    &&& 0 <= pos <= input.len()
    &&& valid_account_id(sv)
    &&& tail_from(input, pos) == spec_encode_string(sv) + rest
}

fn read_bytes(input: &[u8], pos: usize) -> (r: Option<(Vec<u8>, usize)>)
    ensures
        forall|b: Seq<u8>, rest: Seq<u8>|
            #[trigger] bytes_hyp(input@, pos as int, b, rest) ==> (r matches Some(p) && p.0@ == b
                && p.1 == pos + 4 + b.len() && p.1 <= input@.len() && tail_from(input@, p.1 as int)
                == rest),
{
    match read_u32_le(input, pos) {
        None => {
            proof {
                assert forall|b: Seq<u8>, rest: Seq<u8>|
                    bytes_hyp(input@, pos as int, b, rest) implies false by {
                    assert(spec_encode_bytes(b) + rest =~= spec_u32_to_le_bytes(b.len() as u32) + (b
                        + rest));
                    lemma_read_u32_encoding(input@, pos as int, b.len() as u32, b + rest);
                }
            }
            None
        },
        Some((n, pos1)) => {
            match read_fixed(input, pos1, n as usize) {
                None => {
                    proof {
                        assert forall|b: Seq<u8>, rest: Seq<u8>|
                            bytes_hyp(input@, pos as int, b, rest) implies false by {
                            assert(spec_encode_bytes(b) + rest =~= spec_u32_to_le_bytes(
                                b.len() as u32,
                            ) + (b + rest));
                            lemma_read_u32_encoding(input@, pos as int, b.len() as u32, b + rest);
                            lemma_prefix_split(input@, pos1 as int, b, rest);
                        }
                    }
                    None
                },
                Some((out, pos2)) => {
                    proof {
                        assert forall|b: Seq<u8>, rest: Seq<u8>|
                            bytes_hyp(input@, pos as int, b, rest) implies (out@ == b && pos2 == pos
                                + 4 + b.len() && pos2 <= input@.len() && tail_from(
                                input@,
                                pos2 as int,
                            ) == rest) by {
                            assert(spec_encode_bytes(b) + rest =~= spec_u32_to_le_bytes(
                                b.len() as u32,
                            ) + (b + rest));
                            lemma_read_u32_encoding(input@, pos as int, b.len() as u32, b + rest);
                            lemma_prefix_split(input@, pos1 as int, b, rest);
                        }
                    }
                    Some((out, pos2))
                },
            }
        },
    }
}

fn read_string(input: &[u8], pos: usize) -> (r: Option<(String, usize)>)
    ensures
        forall|sv: Seq<char>, rest: Seq<u8>|
            #[trigger] str_hyp(input@, pos as int, sv, rest) ==> (r matches Some(p) && p.0@ == sv
                && p.1 == pos + 4 + sv.len() && p.1 <= input@.len() && tail_from(
                input@,
                p.1 as int,
            ) == rest),
{
    match read_bytes(input, pos) {
        None => {
            proof {
                assert forall|sv: Seq<char>, rest: Seq<u8>|
                    str_hyp(input@, pos as int, sv, rest) implies false by {
                    assert(encodable_bytes(spec_ascii_bytes(sv)));
                    assert(bytes_hyp(input@, pos as int, spec_ascii_bytes(sv), rest));
                }
            }
            None
        },
        Some((b, pos1)) => {
            if bytes_all_ascii(&b) {
                let ghost bv = b@;
                let s = string_from_ascii_bytes(b);
                proof {
                    assert forall|sv: Seq<char>, rest: Seq<u8>|
                        str_hyp(input@, pos as int, sv, rest) implies (s@ == sv && pos1 == pos + 4
                            + sv.len() && pos1 <= input@.len() && tail_from(input@, pos1 as int)
                            == rest) by {
                        assert(encodable_bytes(spec_ascii_bytes(sv)));
                        assert(bytes_hyp(input@, pos as int, spec_ascii_bytes(sv), rest));
                        assert(bv == spec_ascii_bytes(sv));
                        assert(s@ =~= sv) by {
                            assert forall|i: int| 0 <= i < sv.len() implies s@[i] == sv[i] by {
                                assert(bv[i] == sv[i] as u8);
                                assert('\0' <= sv[i] <= '\u{7f}');
                            }
                        }
                    }
                }
                Some((s, pos1))
            } else {
                proof {
                    assert forall|sv: Seq<char>, rest: Seq<u8>|
                        str_hyp(input@, pos as int, sv, rest) implies false by {
                        assert(encodable_bytes(spec_ascii_bytes(sv)));
                        assert(bytes_hyp(input@, pos as int, spec_ascii_bytes(sv), rest));
                        assert(b@ == spec_ascii_bytes(sv));
                        let ghost w = choose|i: int| 0 <= i < b@.len() && !(#[trigger] b@[i] < 128);
                        assert(b@[w] == sv[w] as u8);
                        assert('\0' <= sv[w] <= '\u{7f}');
                    }
                }
                None
            }
        },
    }
}

fn read_account_id(input: &[u8], pos: usize) -> (r: Option<(AccountId, usize)>)
    ensures
        forall|sv: Seq<char>, rest: Seq<u8>|
            #[trigger] aid_hyp(input@, pos as int, sv, rest) ==> (r matches Some(p) && p.0@ == sv
                && p.1 == pos + 4 + sv.len() && p.1 <= input@.len() && tail_from(
                input@,
                p.1 as int,
            ) == rest),
{
    match read_string(input, pos) {
        None => {
            proof {
                assert forall|sv: Seq<char>, rest: Seq<u8>|
                    aid_hyp(input@, pos as int, sv, rest) implies false by {
                    lemma_valid_account_id_encodable(sv);
                    assert(str_hyp(input@, pos as int, sv, rest));
                }
            }
            None
        },
        Some((s, pos1)) => {
            let ghost s_view = s@;
            match AccountId::new(s) {
                None => {
                    proof {
                        assert forall|sv: Seq<char>, rest: Seq<u8>|
                            aid_hyp(input@, pos as int, sv, rest) implies false by {
                            lemma_valid_account_id_encodable(sv);
                            assert(str_hyp(input@, pos as int, sv, rest));
                            assert(s_view == sv);
                        }
                    }
                    None
                },
                Some(a) => {
                    proof {
                        assert forall|sv: Seq<char>, rest: Seq<u8>|
                            aid_hyp(input@, pos as int, sv, rest) implies (a@ == sv && pos1 == pos
                                + 4 + sv.len() && pos1 <= input@.len() && tail_from(
                                input@,
                                pos1 as int,
                            ) == rest) by {
                            lemma_valid_account_id_encodable(sv);
                            assert(str_hyp(input@, pos as int, sv, rest));
                        }
                    }
                    Some((a, pos1))
                },
            }
        },
    }
}


/// Splitting the leading tag byte off an encoding.
proof fn lemma_tag_split(input: Seq<u8>, pos: int, e: Seq<u8>, rest: Seq<u8>)
    requires
        0 <= pos <= input.len(),
        e.len() >= 1,
        tail_from(input, pos) == e + rest,
    ensures
        pos < input.len(),
        input[pos] == e[0],
        pos + 1 <= input.len(),
        tail_from(input, pos + 1) == e.skip(1) + rest,
        pos + e.len() + rest.len() == input.len(),
{
    assert(e + rest =~= seq![e[0]] + (e.skip(1) + rest));
    lemma_prefix_split(input, pos, seq![e[0]], e.skip(1) + rest);
    assert(input.subrange(pos, pos + 1)[0] == input[pos]);
}

fn read_public_key(input: &[u8], pos: usize) -> (r: Option<(PublicKey, usize)>)
    ensures
        forall|k: PublicKeyView, rest: Seq<u8>|
            #[trigger] pk_hyp(input@, pos as int, k, rest) ==> (r matches Some(p) && p.0@ == k
                && p.1 == pos + 1 + k.data.len() && p.1 <= input@.len() && tail_from(
                input@,
                p.1 as int,
            ) == rest),
{
    let tag = read_u8(input, pos);
    let (t, pos1) = match tag {
        None => {
            proof {
                assert forall|k: PublicKeyView, rest: Seq<u8>|
                    pk_hyp(input@, pos as int, k, rest) implies false by {
                    pk_ground(input@, pos as int, k, rest);
                }
            }
            return None;
        },
        Some(p) => p,
    };
    if t == 0 {
        let got = read_fixed(input, pos1, 32);
        match got {
            None => {
                proof {
                    assert forall|k: PublicKeyView, rest: Seq<u8>|
                        pk_hyp(input@, pos as int, k, rest) implies false by {
                        pk_ground(input@, pos as int, k, rest);
                    }
                }
                None
            },
            Some((b, pos2)) => {
                let ghost bv = b@;
                match PublicKey::ed25519_from_bytes(b) {
                    None => None,
                    Some(pk) => {
                        proof {
                            assert forall|k: PublicKeyView, rest: Seq<u8>|
                                pk_hyp(input@, pos as int, k, rest) implies (pk@ == k && pos2 == pos
                                + 1 + k.data.len() && pos2 <= input@.len() && tail_from(
                                input@,
                                pos2 as int,
                            ) == rest) by {
                                pk_ground(input@, pos as int, k, rest);
                            }
                        }
                        Some((pk, pos2))
                    },
                }
            },
        }
    } else if t == 1 {
        let got = read_fixed(input, pos1, 64);
        match got {
            None => {
                proof {
                    assert forall|k: PublicKeyView, rest: Seq<u8>|
                        pk_hyp(input@, pos as int, k, rest) implies false by {
                        pk_ground(input@, pos as int, k, rest);
                    }
                }
                None
            },
            Some((b, pos2)) => {
                let ghost bv = b@;
                match PublicKey::secp256k1_from_bytes(b) {
                    None => None,
                    Some(pk) => {
                        proof {
                            assert forall|k: PublicKeyView, rest: Seq<u8>|
                                pk_hyp(input@, pos as int, k, rest) implies (pk@ == k && pos2 == pos
                                + 1 + k.data.len() && pos2 <= input@.len() && tail_from(
                                input@,
                                pos2 as int,
                            ) == rest) by {
                                pk_ground(input@, pos as int, k, rest);
                            }
                        }
                        Some((pk, pos2))
                    },
                }
            },
        }
    } else {
        proof {
            assert forall|k: PublicKeyView, rest: Seq<u8>|
                pk_hyp(input@, pos as int, k, rest) implies false by {
                pk_ground(input@, pos as int, k, rest);
            }
        }
        None
    }
}

/// The hypothesis of the public-key reader: the tail is a well-formed key's
/// encoding and then `rest`.
spec fn pk_hyp(input: Seq<u8>, pos: int, k: PublicKeyView, rest: Seq<u8>) -> bool {
    &&& 0 <= pos <= input.len()
    &&& crate::crypto::public_key_wf(k)
    &&& tail_from(input, pos) == spec_encode_public_key(k) + rest
}

/// Grounds the hypothesis: the tag byte, the raw key bytes and the tail
/// after them.
proof fn pk_ground(input: Seq<u8>, pos: int, k: PublicKeyView, rest: Seq<u8>)
    requires
        pk_hyp(input, pos, k, rest),
    ensures
        pos < input.len(),
        input[pos] == (if k.key_type is ED25519 { 0u8 } else { 1u8 }),
        pos + 1 + k.data.len() + rest.len() == input.len(),
        input.subrange(pos + 1, pos + 1 + k.data.len()) == k.data,
        tail_from(input, pos + 1 + k.data.len()) == rest,
{
    let e = spec_encode_public_key(k);
    lemma_tag_split(input, pos, e, rest);
    assert(e.skip(1) =~= k.data);
    lemma_prefix_split(input, pos + 1, k.data, rest);
}


fn read_option_u128(input: &[u8], pos: usize) -> (r: Option<(Option<u128>, usize)>)
    ensures
        forall|o: Option<u128>, rest: Seq<u8>|
            #[trigger] opt_hyp(input@, pos as int, o, rest) ==> (r matches Some(p) && p.0 == o
                && p.1 == pos + spec_encode_option_u128(o).len() && p.1 <= input@.len()
                && tail_from(input@, p.1 as int) == rest),
{
    let tag = read_u8(input, pos);
    let (t, pos1) = match tag {
        None => {
            proof {
                assert forall|o: Option<u128>, rest: Seq<u8>|
                    opt_hyp(input@, pos as int, o, rest) implies false by {
                    opt_ground(input@, pos as int, o, rest);
                }
            }
            return None;
        },
        Some(p) => p,
    };
    if t == 0 {
        proof {
            assert forall|o: Option<u128>, rest: Seq<u8>|
                opt_hyp(input@, pos as int, o, rest) implies (o is None && pos1 == pos
                + spec_encode_option_u128(o).len() && pos1 <= input@.len() && tail_from(
                input@,
                pos1 as int,
            ) == rest) by {
                opt_ground(input@, pos as int, o, rest);
            }
        }
        Some((None, pos1))
    } else if t == 1 {
        match read_u128_le(input, pos1) {
            None => {
                proof {
                    assert forall|o: Option<u128>, rest: Seq<u8>|
                        opt_hyp(input@, pos as int, o, rest) implies false by {
                        opt_ground(input@, pos as int, o, rest);
                        match o {
                            Option::Some(y) => {
                                assert(u128_hyp(input@, pos1 as int, y, rest));
                            },
                            Option::None => {},
                        }
                    }
                }
                None
            },
            Some((x, pos2)) => {
                proof {
                    assert forall|o: Option<u128>, rest: Seq<u8>|
                        opt_hyp(input@, pos as int, o, rest) implies (o == Some(x) && pos2 == pos
                            + spec_encode_option_u128(o).len() && pos2 <= input@.len() && tail_from(
                            input@,
                            pos2 as int,
                        ) == rest) by {
                        opt_ground(input@, pos as int, o, rest);
                        match o {
                            Option::Some(y) => {
                                assert(u128_hyp(input@, pos1 as int, y, rest));
                            },
                            Option::None => {},
                        }
                        vstd::bytes::lemma_auto_spec_u64_to_from_le_bytes();
                        assert(spec_encode_option_u128(o).len() == 17);
                    }
                }
                Some((Some(x), pos2))
            },
        }
    } else {
        proof {
            assert forall|o: Option<u128>, rest: Seq<u8>|
                opt_hyp(input@, pos as int, o, rest) implies false by {
                opt_ground(input@, pos as int, o, rest);
            }
        }
        None
    }
}

/// The hypothesis of the optional-amount reader.
spec fn opt_hyp(input: Seq<u8>, pos: int, o: Option<u128>, rest: Seq<u8>) -> bool {
    &&& 0 <= pos <= input.len()
    &&& tail_from(input, pos) == spec_encode_option_u128(o) + rest
}

/// Grounds the hypothesis: the tag byte and, for a present amount, what the
/// two 64-bit readers return.
proof fn opt_ground(input: Seq<u8>, pos: int, o: Option<u128>, rest: Seq<u8>)
    requires
        opt_hyp(input, pos, o, rest),
    ensures
        pos < input.len(),
        input[pos] == (if o is Some { 1u8 } else { 0u8 }),
        pos + spec_encode_option_u128(o).len() + rest.len() == input.len(),
        tail_from(input, pos + spec_encode_option_u128(o).len()) == rest,
        o matches Some(y) ==> {
            &&& pos + 1 <= input.len()
            &&& tail_from(input, pos + 1) == spec_encode_u128(y) + rest
        },
{
    let e = spec_encode_option_u128(o);
    lemma_tag_split(input, pos, e, rest);
    match o {
        Option::None => {
            assert(e.skip(1) =~= Seq::<u8>::empty());
            assert(e.skip(1) + rest =~= rest);
        },
        Option::Some(y) => {
            assert(e.skip(1) =~= spec_encode_u128(y));
            assert(e.skip(1) + rest =~= spec_u64_to_le_bytes(u128_low(y)) + (spec_u64_to_le_bytes(
                u128_high(y),
            ) + rest));
            lemma_read_u64_encoding(
                input,
                pos + 1,
                u128_low(y),
                spec_u64_to_le_bytes(u128_high(y)) + rest,
            );
            lemma_read_u64_encoding(input, pos + 9, u128_high(y), rest);
            lemma_u128_parts(y);
        },
    }
}


/// The hypothesis of the string-vector reader.
spec fn sv_hyp(input: Seq<u8>, pos: int, mv: Seq<Seq<char>>, rest: Seq<u8>) -> bool {
    &&& 0 <= pos <= input.len()
    &&& mv.len() < 0x1_0000_0000
    &&& forall|i: int| 0 <= i < mv.len() ==> encodable_string(#[trigger] mv[i])
    &&& tail_from(input, pos) == spec_encode_string_vec(mv) + rest
}

/// Grounds the hypothesis: the count and the tail after it.
proof fn sv_ground(input: Seq<u8>, pos: int, mv: Seq<Seq<char>>, rest: Seq<u8>)
    requires
        sv_hyp(input, pos, mv, rest),
    ensures
        pos + 4 <= input.len(),
        vstd::bytes::spec_u32_from_le_bytes(input.subrange(pos, pos + 4)) == mv.len() as u32,
        tail_from(input, pos + 4) == spec_encode_strings_from(mv, 0) + rest,
{
    assert(spec_encode_string_vec(mv) + rest =~= spec_u32_to_le_bytes(mv.len() as u32) + (
    spec_encode_strings_from(mv, 0) + rest));
    lemma_read_u32_encoding(input, pos, mv.len() as u32, spec_encode_strings_from(mv, 0) + rest);
}

fn read_string_vec(input: &[u8], pos: usize) -> (r: Option<(Vec<String>, usize)>)
    ensures
        forall|mv: Seq<Seq<char>>, rest: Seq<u8>|
            #[trigger] sv_hyp(input@, pos as int, mv, rest) ==> (r matches Some(p)
                && p.0.deep_view() == mv && p.1 <= input@.len() && tail_from(input@, p.1 as int)
                == rest),
{
    let counted = read_u32_le(input, pos);
    let (m, start) = match counted {
        None => {
            proof {
                assert forall|mv: Seq<Seq<char>>, rest: Seq<u8>|
                    sv_hyp(input@, pos as int, mv, rest) implies false by {
                    sv_ground(input@, pos as int, mv, rest);
                }
            }
            return None;
        },
        Some(p) => p,
    };
    let mut out: Vec<String> = Vec::new();
    let mut cur: usize = start;
    let mut i: u32 = 0;
    proof {
        assert(out.deep_view() =~= Seq::<Seq<char>>::empty());
        assert forall|mv: Seq<Seq<char>>, rest: Seq<u8>|
            sv_hyp(input@, pos as int, mv, rest) implies (m == mv.len() && out.deep_view()
                == mv.subrange(0, 0) && cur <= input@.len() && tail_from(input@, cur as int)
                == spec_encode_strings_from(mv, 0) + rest) by {
            sv_ground(input@, pos as int, mv, rest);
            assert(out.deep_view() =~= mv.subrange(0, 0));
        }
    }
    while i < m
        invariant
            i <= m,
            out@.len() == i,
            forall|mv: Seq<Seq<char>>, rest: Seq<u8>|
                #[trigger] sv_hyp(input@, pos as int, mv, rest) ==> (m == mv.len() && i <= mv.len()
                    && out.deep_view() == mv.subrange(0, i as int) && cur <= input@.len()
                    && tail_from(input@, cur as int) == spec_encode_strings_from(mv, i as int)
                    + rest),
        decreases m - i,
    {
        let got = read_string(input, cur);
        match got {
            None => {
                proof {
                    assert forall|mv: Seq<Seq<char>>, rest: Seq<u8>|
                        sv_hyp(input@, pos as int, mv, rest) implies false by {
                        assert(spec_encode_strings_from(mv, i as int) + rest =~= spec_encode_string(
                            mv[i as int],
                        ) + (spec_encode_strings_from(mv, i + 1 as int) + rest));
                        assert(str_hyp(
                            input@,
                            cur as int,
                            mv[i as int],
                            spec_encode_strings_from(mv, i + 1 as int) + rest,
                        ));
                    }
                }
                return None;
            },
            Some((sdec, cur2)) => {
                let ghost prev_deep = out.deep_view();
                let ghost prev = out@;
                let ghost sv_dec = sdec@;
                out.push(sdec);
                proof {
                    assert forall|mv: Seq<Seq<char>>, rest: Seq<u8>|
                        sv_hyp(input@, pos as int, mv, rest) implies (m == mv.len() && i + 1
                            <= mv.len() && out.deep_view() == mv.subrange(0, i + 1 as int)
                            && cur2 <= input@.len() && tail_from(input@, cur2 as int)
                            == spec_encode_strings_from(mv, i + 1 as int) + rest) by {
                        assert(spec_encode_strings_from(mv, i as int) + rest =~= spec_encode_string(
                            mv[i as int],
                        ) + (spec_encode_strings_from(mv, i + 1 as int) + rest));
                        assert(str_hyp(
                            input@,
                            cur as int,
                            mv[i as int],
                            spec_encode_strings_from(mv, i + 1 as int) + rest,
                        ));
                        assert(sv_dec == mv[i as int]);
                        assert forall|j: int| 0 <= j < out.deep_view().len() implies
                            out.deep_view()[j] == mv.subrange(0, i + 1 as int)[j] by {
                            assert(out@ == prev.push(sdec));
                            if j < prev.len() {
                                assert((prev.push(sdec))[j] == prev[j]);
                                assert(prev_deep[j] == prev[j].deep_view());
                            } else {
                                assert((prev.push(sdec))[j] == sdec);
                            }
                        }
                        assert(out.deep_view() =~= mv.subrange(0, i + 1 as int));
                    }
                }
                cur = cur2;
                i = i + 1;
            },
        }
    }
    proof {
        assert forall|mv: Seq<Seq<char>>, rest: Seq<u8>|
            sv_hyp(input@, pos as int, mv, rest) implies (out.deep_view() == mv && cur
                <= input@.len() && tail_from(input@, cur as int) == rest) by {
            assert(mv.subrange(0, mv.len() as int) =~= mv);
            assert(spec_encode_strings_from(mv, mv.len() as int) =~= Seq::<u8>::empty());
            assert(Seq::<u8>::empty() + rest =~= rest);
        }
    }
    Some((out, cur))
}

/// The hypothesis of the permission reader.
spec fn perm_hyp(input: Seq<u8>, pos: int, pv: AccessKeyPermissionView, rest: Seq<u8>) -> bool {
    &&& 0 <= pos <= input.len()
    &&& permission_wf(pv)
    &&& tail_from(input, pos) == spec_encode_permission(pv) + rest
}

/// Grounds the hypothesis: the tag byte and the component encodings after it.
proof fn perm_ground(input: Seq<u8>, pos: int, pv: AccessKeyPermissionView, rest: Seq<u8>)
    requires
        perm_hyp(input, pos, pv, rest),
    ensures
        pos < input.len(),
        input[pos] == (if pv is FunctionCall { 0u8 } else { 1u8 }),
        pos + 1 <= input.len(),
        pv matches AccessKeyPermissionView::FunctionCall(f) ==> tail_from(input, pos + 1)
            == spec_encode_option_u128(f.allowance) + (spec_encode_string(f.receiver_id) + (
        spec_encode_string_vec(f.method_names) + rest)),
        pv is FullAccess ==> tail_from(input, pos + 1) == rest,
{
    let e = spec_encode_permission(pv);
    lemma_tag_split(input, pos, e, rest);
    match pv {
        AccessKeyPermissionView::FunctionCall(f) => {
            assert(e.skip(1) + rest =~= spec_encode_option_u128(f.allowance) + (spec_encode_string(
                f.receiver_id,
            ) + (spec_encode_string_vec(f.method_names) + rest)));
        },
        AccessKeyPermissionView::FullAccess => {
            assert(e.skip(1) + rest =~= rest);
        },
    }
}

fn read_permission(input: &[u8], pos: usize) -> (r: Option<(AccessKeyPermission, usize)>)
    ensures
        forall|pv: AccessKeyPermissionView, rest: Seq<u8>|
            #[trigger] perm_hyp(input@, pos as int, pv, rest) ==> (r matches Some(p)
                && crate::actions::spec_permission_view(p.0) == pv && p.1 <= input@.len()
                && tail_from(input@, p.1 as int) == rest),
{
    let tag = read_u8(input, pos);
    let (t, pos1) = match tag {
        None => {
            proof {
                assert forall|pv: AccessKeyPermissionView, rest: Seq<u8>|
                    perm_hyp(input@, pos as int, pv, rest) implies false by {
                    perm_ground(input@, pos as int, pv, rest);
                }
            }
            return None;
        },
        Some(p) => p,
    };
    if t == 1 {
        proof {
            assert forall|pv: AccessKeyPermissionView, rest: Seq<u8>|
                perm_hyp(input@, pos as int, pv, rest) implies (pv is FullAccess && pos1
                <= input@.len() && tail_from(input@, pos1 as int) == rest) by {
                perm_ground(input@, pos as int, pv, rest);
            }
        }
        Some((AccessKeyPermission::FullAccess, pos1))
    } else if t == 0 {
        let allowance = match read_option_u128(input, pos1) {
            None => {
                proof {
                    assert forall|pv: AccessKeyPermissionView, rest: Seq<u8>|
                        perm_hyp(input@, pos as int, pv, rest) implies false by {
                        perm_ground(input@, pos as int, pv, rest);
                        match pv {
                            AccessKeyPermissionView::FunctionCall(f) => {
                                assert(opt_hyp(
                                    input@,
                                    pos1 as int,
                                    f.allowance,
                                    spec_encode_string(f.receiver_id) + (spec_encode_string_vec(
                                        f.method_names,
                                    ) + rest),
                                ));
                            },
                            AccessKeyPermissionView::FullAccess => {},
                        }
                    }
                }
                return None;
            },
            Some(p) => p,
        };
        let receiver = match read_string(input, allowance.1) {
            None => {
                proof {
                    assert forall|pv: AccessKeyPermissionView, rest: Seq<u8>|
                        perm_hyp(input@, pos as int, pv, rest) implies false by {
                        perm_ground(input@, pos as int, pv, rest);
                        match pv {
                            AccessKeyPermissionView::FunctionCall(f) => {
                                assert(opt_hyp(
                                    input@,
                                    pos1 as int,
                                    f.allowance,
                                    spec_encode_string(f.receiver_id) + (spec_encode_string_vec(
                                        f.method_names,
                                    ) + rest),
                                ));
                                assert(str_hyp(
                                    input@,
                                    allowance.1 as int,
                                    f.receiver_id,
                                    spec_encode_string_vec(f.method_names) + rest,
                                ));
                            },
                            AccessKeyPermissionView::FullAccess => {},
                        }
                    }
                }
                return None;
            },
            Some(p) => p,
        };
        let names = match read_string_vec(input, receiver.1) {
            None => {
                proof {
                    assert forall|pv: AccessKeyPermissionView, rest: Seq<u8>|
                        perm_hyp(input@, pos as int, pv, rest) implies false by {
                        perm_ground(input@, pos as int, pv, rest);
                        match pv {
                            AccessKeyPermissionView::FunctionCall(f) => {
                                assert(opt_hyp(
                                    input@,
                                    pos1 as int,
                                    f.allowance,
                                    spec_encode_string(f.receiver_id) + (spec_encode_string_vec(
                                        f.method_names,
                                    ) + rest),
                                ));
                                assert(str_hyp(
                                    input@,
                                    allowance.1 as int,
                                    f.receiver_id,
                                    spec_encode_string_vec(f.method_names) + rest,
                                ));
                                assert(sv_hyp(input@, receiver.1 as int, f.method_names, rest));
                            },
                            AccessKeyPermissionView::FullAccess => {},
                        }
                    }
                }
                return None;
            },
            Some(p) => p,
        };
        let (mnames, pos4) = names;
        let fc = FunctionCallPermission {
            allowance: allowance.0,
            receiver_id: receiver.0,
            method_names: mnames,
        };
        proof {
            assert forall|pv: AccessKeyPermissionView, rest: Seq<u8>|
                perm_hyp(input@, pos as int, pv, rest) implies (crate::actions::spec_permission_view(
                AccessKeyPermission::FunctionCall(fc),
            ) == pv && pos4 <= input@.len() && tail_from(input@, pos4 as int) == rest) by {
                perm_ground(input@, pos as int, pv, rest);
                match pv {
                    AccessKeyPermissionView::FunctionCall(f) => {
                        assert(opt_hyp(
                            input@,
                            pos1 as int,
                            f.allowance,
                            spec_encode_string(f.receiver_id) + (spec_encode_string_vec(
                                f.method_names,
                            ) + rest),
                        ));
                        assert(str_hyp(
                            input@,
                            allowance.1 as int,
                            f.receiver_id,
                            spec_encode_string_vec(f.method_names) + rest,
                        ));
                        assert(sv_hyp(input@, receiver.1 as int, f.method_names, rest));
                    },
                    AccessKeyPermissionView::FullAccess => {},
                }
            }
        }
        Some((AccessKeyPermission::FunctionCall(fc), pos4))
    } else {
        proof {
            assert forall|pv: AccessKeyPermissionView, rest: Seq<u8>|
                perm_hyp(input@, pos as int, pv, rest) implies false by {
                perm_ground(input@, pos as int, pv, rest);
            }
        }
        None
    }
}

/// The hypothesis of the access-key reader.
spec fn ak_hyp(input: Seq<u8>, pos: int, kv: AccessKeyModel, rest: Seq<u8>) -> bool {
    &&& 0 <= pos <= input.len()
    &&& permission_wf(kv.permission)
    &&& tail_from(input, pos) == spec_encode_access_key(kv) + rest
}

proof fn ak_ground(input: Seq<u8>, pos: int, kv: AccessKeyModel, rest: Seq<u8>)
    requires
        ak_hyp(input, pos, kv, rest),
    ensures
        pos + 8 <= input.len(),
        vstd::bytes::spec_u64_from_le_bytes(input.subrange(pos, pos + 8)) == kv.nonce,
        tail_from(input, pos + 8) == spec_encode_permission(kv.permission) + rest,
{
    assert(spec_encode_access_key(kv) + rest =~= spec_u64_to_le_bytes(kv.nonce) + (
    spec_encode_permission(kv.permission) + rest));
    lemma_read_u64_encoding(input, pos, kv.nonce, spec_encode_permission(kv.permission) + rest);
}

fn read_access_key(input: &[u8], pos: usize) -> (r: Option<(AccessKey, usize)>)
    ensures
        forall|kv: AccessKeyModel, rest: Seq<u8>|
            #[trigger] ak_hyp(input@, pos as int, kv, rest) ==> (r matches Some(p) && p.0@ == kv
                && p.1 <= input@.len() && tail_from(input@, p.1 as int) == rest),
{
    let got = read_u64_le(input, pos);
    let (nonce, pos1) = match got {
        None => {
            proof {
                assert forall|kv: AccessKeyModel, rest: Seq<u8>|
                    ak_hyp(input@, pos as int, kv, rest) implies false by {
                    ak_ground(input@, pos as int, kv, rest);
                }
            }
            return None;
        },
        Some(p) => p,
    };
    match read_permission(input, pos1) {
        None => {
            proof {
                assert forall|kv: AccessKeyModel, rest: Seq<u8>|
                    ak_hyp(input@, pos as int, kv, rest) implies false by {
                    ak_ground(input@, pos as int, kv, rest);
                    assert(perm_hyp(input@, pos1 as int, kv.permission, rest));
                }
            }
            None
        },
        Some((perm, pos2)) => {
            let k = AccessKey { nonce, permission: perm };
            proof {
                assert forall|kv: AccessKeyModel, rest: Seq<u8>|
                    ak_hyp(input@, pos as int, kv, rest) implies (k@ == kv && pos2 <= input@.len()
                    && tail_from(input@, pos2 as int) == rest) by {
                    ak_ground(input@, pos as int, kv, rest);
                    assert(perm_hyp(input@, pos1 as int, kv.permission, rest));
                }
            }
            Some((k, pos2))
        },
    }
}


/// The hypothesis of the action reader: the tail holds the encoding of a
/// well-formed, non-delegating action.
spec fn act_hyp(input: Seq<u8>, pos: int, v: ActionView, rest: Seq<u8>) -> bool {
    &&& 0 <= pos <= input.len()
    &&& action_wf(v)
    &&& !(v is Delegate)
    &&& tail_from(input, pos) == spec_encode_action(v) + rest
}

/// The tag byte of an action's encoding.
pub open spec fn spec_action_tag(v: ActionView) -> u8 {
    match v {
        ActionView::CreateAccount => 0u8,
        ActionView::DeployContract { .. } => 1u8,
        ActionView::FunctionCall { .. } => 2u8,
        ActionView::Transfer { .. } => 3u8,
        ActionView::Stake { .. } => 4u8,
        ActionView::AddKey { .. } => 5u8,
        ActionView::DeleteKey { .. } => 6u8,
        ActionView::DeleteAccount { .. } => 7u8,
        ActionView::Delegate(_) => 8u8,
    }
}

/// Grounds the hypothesis: the tag byte and the component readers' own
/// hypotheses at their positions.
proof fn act_ground(input: Seq<u8>, pos: int, v: ActionView, rest: Seq<u8>)
    requires
        act_hyp(input, pos, v, rest),
    ensures
        pos < input.len(),
        input[pos] == spec_action_tag(v),
        pos + spec_encode_action(v).len() + rest.len() == input.len(),
        tail_from(input, pos + spec_encode_action(v).len()) == rest,
        v is CreateAccount ==> tail_from(input, pos + 1) == rest,
        v matches ActionView::DeployContract { code } ==> bytes_hyp(input, pos + 1, code, rest),
        v matches ActionView::FunctionCall { method_name, args, gas, deposit } ==> {
            &&& str_hyp(input, pos + 1, method_name, spec_encode_bytes(args) + (
            spec_u64_to_le_bytes(gas) + (spec_encode_u128(deposit) + rest)))
            &&& bytes_hyp(input, pos + 5 + method_name.len(), args, spec_u64_to_le_bytes(gas) + (
            spec_encode_u128(deposit) + rest))
            &&& vstd::bytes::spec_u64_from_le_bytes(
                input.subrange(
                    pos + 9 + method_name.len() + args.len(),
                    pos + 17 + method_name.len() + args.len(),
                ),
            ) == gas
            &&& pos + 17 + method_name.len() + args.len() <= input.len()
            &&& u128_hyp(input, pos + 17 + method_name.len() + args.len(), deposit, rest)
        },
        v matches ActionView::Transfer { deposit } ==> u128_hyp(input, pos + 1, deposit, rest),
        v matches ActionView::Stake { stake, public_key } ==> {
            &&& u128_hyp(input, pos + 1, stake, spec_encode_public_key(public_key) + rest)
            &&& pk_hyp(input, pos + 17, public_key, rest)
        },
        v matches ActionView::AddKey { public_key, access_key } ==> {
            &&& pk_hyp(input, pos + 1, public_key, spec_encode_access_key(access_key) + rest)
            &&& ak_hyp(input, pos + 2 + public_key.data.len(), access_key, rest)
        },
        v matches ActionView::DeleteKey { public_key } ==> pk_hyp(input, pos + 1, public_key, rest),
        v matches ActionView::DeleteAccount { beneficiary_id } ==> aid_hyp(
            input,
            pos + 1,
            beneficiary_id,
            rest,
        ),
{
    let e = spec_encode_action(v);
    lemma_tag_split(input, pos, e, rest);
    lemma_prefix_split(input, pos, e, rest);
    match v {
        ActionView::CreateAccount => {
            assert(e.skip(1) + rest =~= rest);
        },
        ActionView::DeployContract { code } => {
            assert(e.skip(1) + rest =~= spec_encode_bytes(code) + rest);
        },
        ActionView::FunctionCall { method_name, args, gas, deposit } => {
            vstd::bytes::lemma_auto_spec_u32_to_from_le_bytes();
            vstd::bytes::lemma_auto_spec_u64_to_from_le_bytes();
            let rest3 = spec_encode_u128(deposit) + rest;
            let rest2 = spec_u64_to_le_bytes(gas) + rest3;
            let rest1 = spec_encode_bytes(args) + rest2;
            assert(e.skip(1) + rest =~= spec_encode_string(method_name) + rest1);
            assert(str_hyp(input, pos + 1, method_name, rest1));
            lemma_prefix_split(input, pos + 1, spec_encode_string(method_name), rest1);
            assert(spec_encode_string(method_name).len() == 4 + method_name.len());
            assert(bytes_hyp(input, pos + 5 + method_name.len(), args, rest2));
            lemma_prefix_split(input, pos + 5 + method_name.len(), spec_encode_bytes(args), rest2);
            lemma_read_u64_encoding(input, pos + 9 + method_name.len() + args.len(), gas, rest3);
            assert(u128_hyp(input, pos + 17 + method_name.len() + args.len(), deposit, rest));
        },
        ActionView::Transfer { deposit } => {
            assert(e.skip(1) + rest =~= spec_encode_u128(deposit) + rest);
        },
        ActionView::Stake { stake, public_key } => {
            let rest1 = spec_encode_public_key(public_key) + rest;
            assert(e.skip(1) + rest =~= spec_encode_u128(stake) + rest1);
            assert(u128_hyp(input, pos + 1, stake, rest1));
            vstd::bytes::lemma_auto_spec_u64_to_from_le_bytes();
            lemma_prefix_split(input, pos + 1, spec_encode_u128(stake), rest1);
            assert(pk_hyp(input, pos + 17, public_key, rest));
        },
        ActionView::AddKey { public_key, access_key } => {
            let rest1 = spec_encode_access_key(access_key) + rest;
            assert(e.skip(1) + rest =~= spec_encode_public_key(public_key) + rest1);
            assert(pk_hyp(input, pos + 1, public_key, rest1));
            lemma_prefix_split(input, pos + 1, spec_encode_public_key(public_key), rest1);
            assert(spec_encode_public_key(public_key).len() == 1 + public_key.data.len());
            assert(ak_hyp(input, pos + 2 + public_key.data.len(), access_key, rest));
        },
        ActionView::DeleteKey { public_key } => {
            assert(e.skip(1) + rest =~= spec_encode_public_key(public_key) + rest);
        },
        ActionView::DeleteAccount { beneficiary_id } => {
            assert(e.skip(1) + rest =~= spec_encode_string(beneficiary_id) + rest);
        },
        ActionView::Delegate(_) => {},
    }
}

fn read_action(input: &[u8], pos: usize) -> (r: Option<(Action, usize)>)
    ensures
        forall|v: ActionView, rest: Seq<u8>|
            #[trigger] act_hyp(input@, pos as int, v, rest) ==> (r matches Some(p) && p.0@ == v
                && p.1 <= input@.len() && tail_from(input@, p.1 as int) == rest),
{
    let tag = read_u8(input, pos);
    let (t, pos1) = match tag {
        None => {
            proof {
                assert forall|v: ActionView, rest: Seq<u8>|
                    act_hyp(input@, pos as int, v, rest) implies false by {
                    act_ground(input@, pos as int, v, rest);
                }
            }
            return None;
        },
        Some(p) => p,
    };
    if t == 0 {
        proof {
            assert forall|v: ActionView, rest: Seq<u8>|
                act_hyp(input@, pos as int, v, rest) implies (Action::CreateAccount(
                CreateAccountAction {},
            )@ == v && pos1 <= input@.len() && tail_from(input@, pos1 as int) == rest) by {
                act_ground(input@, pos as int, v, rest);
            }
        }
        Some((Action::CreateAccount(CreateAccountAction {}), pos1))
    } else if t == 1 {
        match read_bytes(input, pos1) {
            None => {
                proof {
                    assert forall|v: ActionView, rest: Seq<u8>|
                        act_hyp(input@, pos as int, v, rest) implies false by {
                        act_ground(input@, pos as int, v, rest);
                    }
                }
                None
            },
            Some((code, pos2)) => {
                let a = Action::DeployContract(DeployContractAction { code });
                proof {
                    assert forall|v: ActionView, rest: Seq<u8>|
                        act_hyp(input@, pos as int, v, rest) implies (a@ == v && pos2
                        <= input@.len() && tail_from(input@, pos2 as int) == rest) by {
                        act_ground(input@, pos as int, v, rest);
                    }
                }
                Some((a, pos2))
            },
        }
    } else if t == 2 {
        let mname = match read_string(input, pos1) {
            None => {
                proof {
                    assert forall|v: ActionView, rest: Seq<u8>|
                        act_hyp(input@, pos as int, v, rest) implies false by {
                        act_ground(input@, pos as int, v, rest);
                    }
                }
                return None;
            },
            Some(p) => p,
        };
        let args = match read_bytes(input, mname.1) {
            None => {
                proof {
                    assert forall|v: ActionView, rest: Seq<u8>|
                        act_hyp(input@, pos as int, v, rest) implies false by {
                        act_ground(input@, pos as int, v, rest);
                    }
                }
                return None;
            },
            Some(p) => p,
        };
        let gas = match read_u64_le(input, args.1) {
            None => {
                proof {
                    assert forall|v: ActionView, rest: Seq<u8>|
                        act_hyp(input@, pos as int, v, rest) implies false by {
                        act_ground(input@, pos as int, v, rest);
                    }
                }
                return None;
            },
            Some(p) => p,
        };
        let deposit = match read_u128_le(input, gas.1) {
            None => {
                proof {
                    assert forall|v: ActionView, rest: Seq<u8>|
                        act_hyp(input@, pos as int, v, rest) implies false by {
                        act_ground(input@, pos as int, v, rest);
                    }
                }
                return None;
            },
            Some(p) => p,
        };
        let a = Action::FunctionCall(FunctionCallAction {
            method_name: mname.0,
            args: args.0,
            gas: gas.0,
            deposit: deposit.0,
        });
        proof {
            assert forall|v: ActionView, rest: Seq<u8>|
                act_hyp(input@, pos as int, v, rest) implies (a@ == v && deposit.1 <= input@.len()
                && tail_from(input@, deposit.1 as int) == rest) by {
                act_ground(input@, pos as int, v, rest);
            }
        }
        Some((a, deposit.1))
    } else if t == 3 {
        match read_u128_le(input, pos1) {
            None => {
                proof {
                    assert forall|v: ActionView, rest: Seq<u8>|
                        act_hyp(input@, pos as int, v, rest) implies false by {
                        act_ground(input@, pos as int, v, rest);
                    }
                }
                None
            },
            Some((dep, pos2)) => {
                let a = Action::Transfer(TransferAction { deposit: dep });
                proof {
                    assert forall|v: ActionView, rest: Seq<u8>|
                        act_hyp(input@, pos as int, v, rest) implies (a@ == v && pos2
                        <= input@.len() && tail_from(input@, pos2 as int) == rest) by {
                        act_ground(input@, pos as int, v, rest);
                    }
                }
                Some((a, pos2))
            },
        }
    } else if t == 4 {
        let stake = match read_u128_le(input, pos1) {
            None => {
                proof {
                    assert forall|v: ActionView, rest: Seq<u8>|
                        act_hyp(input@, pos as int, v, rest) implies false by {
                        act_ground(input@, pos as int, v, rest);
                    }
                }
                return None;
            },
            Some(p) => p,
        };
        let key = match read_public_key(input, stake.1) {
            None => {
                proof {
                    assert forall|v: ActionView, rest: Seq<u8>|
                        act_hyp(input@, pos as int, v, rest) implies false by {
                        act_ground(input@, pos as int, v, rest);
                    }
                }
                return None;
            },
            Some(p) => p,
        };
        let a = Action::Stake(StakeAction { stake: stake.0, public_key: key.0 });
        proof {
            assert forall|v: ActionView, rest: Seq<u8>|
                act_hyp(input@, pos as int, v, rest) implies (a@ == v && key.1 <= input@.len()
                && tail_from(input@, key.1 as int) == rest) by {
                act_ground(input@, pos as int, v, rest);
            }
        }
        Some((a, key.1))
    } else if t == 5 {
        let key = match read_public_key(input, pos1) {
            None => {
                proof {
                    assert forall|v: ActionView, rest: Seq<u8>|
                        act_hyp(input@, pos as int, v, rest) implies false by {
                        act_ground(input@, pos as int, v, rest);
                    }
                }
                return None;
            },
            Some(p) => p,
        };
        let ak = match read_access_key(input, key.1) {
            None => {
                proof {
                    assert forall|v: ActionView, rest: Seq<u8>|
                        act_hyp(input@, pos as int, v, rest) implies false by {
                        act_ground(input@, pos as int, v, rest);
                    }
                }
                return None;
            },
            Some(p) => p,
        };
        let a = Action::AddKey(AddKeyAction { public_key: key.0, access_key: ak.0 });
        proof {
            assert forall|v: ActionView, rest: Seq<u8>|
                act_hyp(input@, pos as int, v, rest) implies (a@ == v && ak.1 <= input@.len()
                && tail_from(input@, ak.1 as int) == rest) by {
                act_ground(input@, pos as int, v, rest);
            }
        }
        Some((a, ak.1))
    } else if t == 6 {
        match read_public_key(input, pos1) {
            None => {
                proof {
                    assert forall|v: ActionView, rest: Seq<u8>|
                        act_hyp(input@, pos as int, v, rest) implies false by {
                        act_ground(input@, pos as int, v, rest);
                    }
                }
                None
            },
            Some((key, pos2)) => {
                let a = Action::DeleteKey(DeleteKeyAction { public_key: key });
                proof {
                    assert forall|v: ActionView, rest: Seq<u8>|
                        act_hyp(input@, pos as int, v, rest) implies (a@ == v && pos2
                        <= input@.len() && tail_from(input@, pos2 as int) == rest) by {
                        act_ground(input@, pos as int, v, rest);
                    }
                }
                Some((a, pos2))
            },
        }
    } else if t == 7 {
        match read_account_id(input, pos1) {
            None => {
                proof {
                    assert forall|v: ActionView, rest: Seq<u8>|
                        act_hyp(input@, pos as int, v, rest) implies false by {
                        act_ground(input@, pos as int, v, rest);
                    }
                }
                None
            },
            Some((aid, pos2)) => {
                let a = Action::DeleteAccount(DeleteAccountAction { beneficiary_id: aid });
                proof {
                    assert forall|v: ActionView, rest: Seq<u8>|
                        act_hyp(input@, pos as int, v, rest) implies (a@ == v && pos2
                        <= input@.len() && tail_from(input@, pos2 as int) == rest) by {
                        act_ground(input@, pos as int, v, rest);
                    }
                }
                Some((a, pos2))
            },
        }
    } else {
        proof {
            assert forall|v: ActionView, rest: Seq<u8>|
                act_hyp(input@, pos as int, v, rest) implies false by {
                act_ground(input@, pos as int, v, rest);
            }
        }
        None
    }
}

/// Decodes one action from its exact wire form.
///
/// Law: the wire form is lossless. For every well-formed, non-delegating
/// action `v`, decoding `spec_encode_action(v)` yields exactly the action
/// whose model is `v` — together with `encode_action` this is the proved
/// round trip of the action codec.
pub fn decode_action(input: &[u8]) -> (r: Option<Action>)
    ensures
        forall|v: ActionView|
            action_wf(v) && !(v is Delegate) && input@ == #[trigger] spec_encode_action(v) ==> (
            r matches Some(a) && a@ == v),
{
    match read_action(input, 0) {
        None => {
            proof {
                assert forall|v: ActionView|
                    action_wf(v) && !(v is Delegate) && input@ == spec_encode_action(v)
                        implies false by {
                    assert(input@.subrange(0, input@.len() as int) =~= input@);
                    assert(spec_encode_action(v) + Seq::<u8>::empty() =~= spec_encode_action(v));
                    assert(act_hyp(input@, 0, v, Seq::<u8>::empty()));
                }
            }
            None
        },
        Some((a, p)) => {
            if p == input.len() {
                proof {
                    assert forall|v: ActionView|
                        action_wf(v) && !(v is Delegate) && input@ == spec_encode_action(v)
                            implies a@ == v by {
                        assert(input@.subrange(0, input@.len() as int) =~= input@);
                        assert(spec_encode_action(v) + Seq::<u8>::empty() =~= spec_encode_action(
                            v,
                        ));
                        assert(act_hyp(input@, 0, v, Seq::<u8>::empty()));
                    }
                }
                Some(a)
            } else {
                proof {
                    assert forall|v: ActionView|
                        action_wf(v) && !(v is Delegate) && input@ == spec_encode_action(v)
                            implies false by {
                        assert(input@.subrange(0, input@.len() as int) =~= input@);
                        assert(spec_encode_action(v) + Seq::<u8>::empty() =~= spec_encode_action(
                            v,
                        ));
                        assert(act_hyp(input@, 0, v, Seq::<u8>::empty()));
                        assert(tail_from(input@, p as int) =~= Seq::<u8>::empty());
                    }
                }
                None
            }
        },
    }
}

} // verus!
