use vstd::prelude::*;
use vstd::string::{StrSliceExecFns, StringExecFns, StringSliceAdditionalSpecFns};
use vstd::utf8::encode_utf8;
use crate::account_id::AccountId;
use crate::actions::{Action, FunctionCallAction, TransferAction};
use crate::errors::{BuilderError, FTValidatorError, ValidationError};
use crate::numbers::{spec_decimal_digits, u128_to_decimal_string};
use crate::query::{MultiQueryBuilder, QueryBuilder, QueryRequest};
use crate::reference::Reference;
use crate::transactions::{ConstructTransaction, PrepopulateTransaction};

verus! {

/// An amount of the network's native token, in its smallest unit.
#[derive(Debug, Clone, Copy, PartialEq, Eq, Structural)]
pub struct NearToken {
    pub yoctonear: u128,
}

impl NearToken {
    pub fn from_yoctonear(yoctonear: u128) -> (r: NearToken)
        ensures
            r.yoctonear == yoctonear,
    {
        NearToken { yoctonear }
    }

    /// A thousandth of one whole token.
    pub fn from_millinear(millinear: u128) -> (r: NearToken)
        requires
            millinear <= u128::MAX / 0x3635c9adc5dea00000,
        ensures
            r.yoctonear == millinear * 1000000000000000000000,
    {
        NearToken { yoctonear: millinear * 1000000000000000000000 }
    }

    pub fn as_yoctonear(&self) -> (r: u128)
        ensures
            r == self.yoctonear,
    {
        self.yoctonear
    }
}

/// A fungible-token amount together with the token's decimal scale.
#[derive(Debug, Clone, Copy, PartialEq, Eq, Structural)]
pub struct FTBalance {
    pub amount: u128,
    pub decimals: u8,
}

impl FTBalance {
    /// A zero balance at the given scale.
    pub fn with_decimals(decimals: u8) -> (r: FTBalance)
        ensures
            r.amount() == 0,
            r.decimals() == decimals,
    {
        FTBalance { amount: 0, decimals }
    }

    /// The same scale with the given raw amount.
    pub fn with_amount(&self, amount: u128) -> (r: FTBalance)
        ensures
            r.amount() == amount,
            r.decimals() == self.decimals(),
    {
        FTBalance { amount, decimals: self.decimals }
    }

    pub open spec fn spec_amount(&self) -> u128 {
        self.amount
    }

    pub open spec fn spec_decimals(&self) -> u8 {
        self.decimals
    }

    #[verifier::when_used_as_spec(spec_amount)]
    pub fn amount(&self) -> (r: u128)
        ensures
            r == self.amount,
    {
        self.amount
    }

    #[verifier::when_used_as_spec(spec_decimals)]
    pub fn decimals(&self) -> (r: u8)
        ensures
            r == self.decimals,
    {
        self.decimals
    }
}

/// An account's native-token position.
#[derive(Debug, Clone, Copy, PartialEq, Eq, Structural)]
pub struct UserBalance {
    pub liquid: NearToken,
    pub locked: NearToken,
    pub storage_usage: u64,
}

/// What a fungible-token contract reports about itself; the decimals field
/// is what validation reads.
#[derive(Debug, PartialEq, Eq)]
pub struct FungibleTokenMetadata {
    pub spec: String,
    pub name: String,
    pub symbol: String,
    pub decimals: u8,
}

/// A receiver's storage balance on a token contract.
#[derive(Debug, Clone, Copy, PartialEq, Eq, Structural)]
pub struct StorageBalance {
    pub available: u128,
    pub total: u128,
}

/// Turns an account view into the caller-facing balance; the postprocess
/// step of the native-balance query.
pub fn near_balance_from_account(account: &crate::query::AccountData) -> (r: UserBalance)
    ensures
        r.liquid.yoctonear == account.amount,
        r.locked.yoctonear == account.locked,
        r.storage_usage == account.storage_usage,
{
    UserBalance {
        liquid: NearToken::from_yoctonear(account.amount),
        locked: NearToken::from_yoctonear(account.locked),
        storage_usage: account.storage_usage,
    }
}

/// Merges the two decoded sub-query results — the token's decimals and the
/// raw balance — into one caller-facing value; the postprocess step of the
/// token-balance group, run exactly once, after both sub-queries succeed.
pub fn ft_balance_postprocess(decimals: u8, amount: u128) -> (r: FTBalance)
    ensures
        r.amount() == amount,
        r.decimals() == decimals,
{
    FTBalance::with_decimals(decimals).with_amount(amount)
}

// ---------------------------------------------------------------------------
// Argument objects for the contract calls the token flows make.
// ---------------------------------------------------------------------------

/// The characters of `{"account_id":"<id>"}`.
pub open spec fn spec_account_id_args(id: Seq<char>) -> Seq<char> {
    "{\"account_id\":\""@ + id + "\"}"@
}

fn account_id_args(id: &AccountId) -> (r: Vec<u8>)
    ensures
        r@ == encode_utf8(spec_account_id_args(id@)),
{
    let mut s = String::from_str("{\"account_id\":\"");
    s.append(id.as_str());
    s.append("\"}");
    s.as_str().as_bytes_vec()
}

/// The characters of `{"receiver_id":"<id>","amount":<digits>}`; the
/// amount travels as a bare JSON number, as the transfer call emits it.
pub open spec fn spec_ft_transfer_args(receiver: Seq<char>, amount: u128) -> Seq<char> {
    "{\"receiver_id\":\""@ + receiver + "\",\"amount\":"@ + spec_decimal_digits(amount) + "}"@
}

fn ft_transfer_args(receiver: &AccountId, amount: u128) -> (r: Vec<u8>)
    ensures
        r@ == encode_utf8(spec_ft_transfer_args(receiver@, amount)),
{
    let mut s = String::from_str("{\"receiver_id\":\"");
    s.append(receiver.as_str());
    s.append("\",\"amount\":");
    let digits = u128_to_decimal_string(amount);
    s.append(digits.as_str());
    s.append("}");
    s.as_str().as_bytes_vec()
}

/// The hexadecimal digit of a value below 16, lowercase.
pub open spec fn spec_hex_digit(n: u8) -> u8 {
    if n < 10 {
        (48 + n) as u8
    } else {
        (87 + n) as u8
    }
}

/// A byte string escaped for the inside of a JSON string: quotes and
/// backslashes gain a backslash, control bytes become their `\u00XX` form,
/// and everything else — multi-byte sequences included — passes through.
pub open spec fn spec_json_escaped_bytes(b: Seq<u8>) -> Seq<u8>
    decreases b.len(),
{
    if b.len() == 0 {
        Seq::empty()
    } else {
        let head = if b[0] == 34 {
            seq![92u8, 34u8]
        } else if b[0] == 92 {
            seq![92u8, 92u8]
        } else if b[0] < 32 {
            seq![92u8, 117u8, 48u8, 48u8, spec_hex_digit(b[0] / 16), spec_hex_digit(b[0] % 16)]
        } else {
            seq![b[0]]
        };
        head + spec_json_escaped_bytes(b.drop_first())
    }
}

/// Escapes a byte string for the inside of a JSON string.
fn json_escape_bytes(b: &Vec<u8>) -> (r: Vec<u8>)
    ensures
        r@ == spec_json_escaped_bytes(b@),
{
    let n = b.len();
    let mut out: Vec<u8> = Vec::new();
    let mut i: usize = 0;
    proof {
        assert(b@.skip(0) =~= b@);
    }
    while i < n
        invariant
            i <= n,
            n == b@.len(),
            out@ + spec_json_escaped_bytes(b@.skip(i as int)) == spec_json_escaped_bytes(b@),
        decreases n - i,
    {
        let ghost prev = out@;
        let c = b[i];
        if c == 34 {
            out.push(92);
            out.push(34);
        } else if c == 92 {
            out.push(92);
            out.push(92);
        } else if c < 32 {
            out.push(92);
            out.push(117);
            out.push(48);
            out.push(48);
            let hi = c / 16;
            let lo = c % 16;
            out.push(if hi < 10 { 48 + hi } else { 87 + hi });
            out.push(if lo < 10 { 48 + lo } else { 87 + lo });
        } else {
            out.push(c);
        }
        proof {
            let tail = b@.skip(i as int);
            assert(tail[0] == b@[i as int]);
            assert(tail.drop_first() =~= b@.skip(i + 1 as int));
            let head = if c == 34 {
                seq![92u8, 34u8]
            } else if c == 92 {
                seq![92u8, 92u8]
            } else if c < 32 {
                seq![92u8, 117u8, 48u8, 48u8, spec_hex_digit((c / 16) as u8), spec_hex_digit(
                    (c % 16) as u8,
                )]
            } else {
                seq![c]
            };
            assert(out@ =~= prev + head);
            assert(spec_json_escaped_bytes(tail) == head + spec_json_escaped_bytes(
                b@.skip(i + 1 as int),
            ));
            assert(prev + (head + spec_json_escaped_bytes(b@.skip(i + 1 as int))) =~= (prev + head)
                + spec_json_escaped_bytes(b@.skip(i + 1 as int)));
        }
        i += 1;
    }
    proof {
        assert(b@.skip(n as int) =~= Seq::<u8>::empty());
        assert(out@ + Seq::<u8>::empty() =~= out@);
    }
    out
}

/// The bytes of `{"receiver_id":"<id>","token_id":"<escaped token>"}`.
pub open spec fn spec_nft_transfer_args(receiver: Seq<char>, token_bytes: Seq<u8>) -> Seq<u8> {
    encode_utf8("{\"receiver_id\":\""@ + receiver + "\",\"token_id\":\""@)
        + spec_json_escaped_bytes(token_bytes) + encode_utf8("\"}"@)
}

/// The empty argument object of parameterless view calls.
pub open spec fn spec_no_args() -> Seq<char> {
    "null"@
}

fn no_args() -> (r: Vec<u8>)
    ensures
        r@ == encode_utf8(spec_no_args()),
{
    let s = String::from_str("null");
    s.as_str().as_bytes_vec()
}

// ---------------------------------------------------------------------------
// The token query and transfer flows.
// ---------------------------------------------------------------------------

/// The token operations of one account.
#[derive(Debug, PartialEq, Eq)]
pub struct Tokens {
    pub account_id: AccountId,
}

impl Tokens {
    pub fn of(account_id: AccountId) -> (r: Tokens)
        ensures
            r.account_id@ == account_id@,
    {
        Tokens { account_id }
    }

    /// The native balance: one account view, postprocessed by
    /// `near_balance_from_account`.
    pub fn near_balance(&self) -> (r: QueryBuilder)
        ensures
            r.request matches QueryRequest::ViewAccount { account_id } && account_id@
                == self.account_id@,
            r.reference == Reference::Optimistic,
    {
        QueryBuilder::new(QueryRequest::ViewAccount { account_id: self.account_id.clone() })
    }

    /// The token's self-description, a parameterless view call.
    pub fn ft_metadata(contract_id: AccountId) -> (r: Result<QueryBuilder, BuilderError>)
        ensures
            r matches Ok(q) && q.reference == Reference::Optimistic && (q.request matches
                QueryRequest::CallFunction { account_id, method_name, args } && account_id@
                == contract_id@ && method_name@ == "ft_metadata"@ && args@ == encode_utf8(
                spec_no_args(),
            )),
    {
        Ok(
            QueryBuilder::new(
                QueryRequest::CallFunction {
                    account_id: contract_id,
                    method_name: String::from_str("ft_metadata"),
                    args: no_args(),
                },
            ),
        )
    }

    /// The token balance: metadata and raw balance fetched independently
    /// against one state view, merged by `ft_balance_postprocess` once both
    /// succeed.
    pub fn ft_balance(&self, ft_contract: AccountId) -> (r: Result<MultiQueryBuilder, BuilderError>)
        ensures
            r matches Ok(m) && m.queries@.len() == 2 && m.reference == Reference::Optimistic && (
            m.queries@[0].request matches QueryRequest::CallFunction {
                account_id: c0,
                method_name: n0,
                args: a0,
            } && c0@ == ft_contract@ && n0@ == "ft_metadata"@) && (m.queries@[1].request matches
            QueryRequest::CallFunction { account_id: c1, method_name: n1, args: a1 } && c1@
                == ft_contract@ && n1@ == "ft_balance_of"@ && a1@ == encode_utf8(
                spec_account_id_args(self.account_id@),
            )),
    {
        let metadata = match Self::ft_metadata(ft_contract.clone()) {
            Ok(q) => q,
            Err(e) => {
                return Err(e);
            },
        };
        let balance = QueryBuilder::new(
            QueryRequest::CallFunction {
                account_id: ft_contract,
                method_name: String::from_str("ft_balance_of"),
                args: account_id_args(&self.account_id),
            },
        );
        let m = MultiQueryBuilder::new(Reference::Optimistic).add_query_builder(
            metadata,
        ).add_query_builder(balance);
        Ok(m)
    }

    /// The collection's self-description, a parameterless view call.
    pub fn nft_metadata(contract_id: AccountId) -> (r: Result<QueryBuilder, BuilderError>)
        ensures
            r matches Ok(q) && q.reference == Reference::Optimistic && (q.request matches
                QueryRequest::CallFunction { account_id, method_name, args } && account_id@
                == contract_id@ && method_name@ == "nft_metadata"@ && args@ == encode_utf8(
                spec_no_args(),
            )),
    {
        Ok(
            QueryBuilder::new(
                QueryRequest::CallFunction {
                    account_id: contract_id,
                    method_name: String::from_str("nft_metadata"),
                    args: no_args(),
                },
            ),
        )
    }

    /// The tokens this account owns on a collection.
    pub fn nft_assets(&self, nft_contract: AccountId) -> (r: Result<QueryBuilder, BuilderError>)
        ensures
            r matches Ok(q) && q.reference == Reference::Optimistic && (q.request matches
                QueryRequest::CallFunction { account_id, method_name, args } && account_id@
                == nft_contract@ && method_name@ == "nft_tokens_for_owner"@ && args@ == encode_utf8(
                spec_account_id_args(self.account_id@),
            )),
    {
        Ok(
            QueryBuilder::new(
                QueryRequest::CallFunction {
                    account_id: nft_contract,
                    method_name: String::from_str("nft_tokens_for_owner"),
                    args: account_id_args(&self.account_id),
                },
            ),
        )
    }

    /// Starts a transfer from this account.
    pub fn send_to(&self, receiver_id: AccountId) -> (r: SendTo)
        ensures
            r.from@ == self.account_id@,
            r.receiver_id@ == receiver_id@,
    {
        SendTo { from: self.account_id.clone(), receiver_id }
    }
}

/// A transfer under construction: who sends and who receives.
#[derive(Debug, PartialEq, Eq)]
pub struct SendTo {
    pub from: AccountId,
    pub receiver_id: AccountId,
}

/// The deposit of one yocto that token-transfer calls attach, proving the
/// caller signed the transaction.
pub const ONE_YOCTO: u128 = 1;

/// The gas budget attached to the token-transfer calls built here.
pub const DEFAULT_CALL_GAS: u64 = 100000000000000;

impl SendTo {
    /// A native transfer: one transfer action for the full amount.
    pub fn near(self, amount: NearToken) -> (r: ConstructTransaction)
        ensures
            r.tr@.signer_id == self.from@,
            r.tr@.receiver_id == self.receiver_id@,
            r.tr@.actions.len() == 1,
            r.tr@.actions[0] == (crate::actions::ActionView::Transfer {
                deposit: amount.yoctonear,
            }),
    {
        ConstructTransaction::new(self.from, self.receiver_id).add_action(
            Action::Transfer(TransferAction { deposit: amount.yoctonear }),
        )
    }

    /// A fungible-token transfer: one `ft_transfer` call on the token
    /// contract, carrying the receiver and amount and the one-yocto
    /// deposit, wrapped with its network validation.
    pub fn ft(self, ft_contract: AccountId, amount: FTBalance) -> (r: Result<
        TransactionWithSign,
        BuilderError,
    >)
        ensures
            r matches Ok(t) && {
                &&& t.tx.prepopulated@.signer_id == self.from@
                &&& t.tx.prepopulated@.receiver_id == ft_contract@
                &&& t.tx.prepopulated@.actions.len() == 1
                &&& t.tx.prepopulated@.actions[0] == (crate::actions::ActionView::FunctionCall {
                    method_name: "ft_transfer"@,
                    args: encode_utf8(spec_ft_transfer_args(self.receiver_id@, amount.amount())),
                    gas: DEFAULT_CALL_GAS,
                    deposit: ONE_YOCTO as u128,
                })
                &&& t.tx.receiver@ == self.receiver_id@
                &&& t.tx.decimals == amount.decimals()
            },
    {
        let args = ft_transfer_args(&self.receiver_id, amount.amount());
        let call = Action::FunctionCall(
            FunctionCallAction {
                method_name: String::from_str("ft_transfer"),
                args,
                gas: DEFAULT_CALL_GAS,
                deposit: ONE_YOCTO,
            },
        );
        let tr = ConstructTransaction::new(self.from, ft_contract).add_action(call);
        Ok(
            TransactionWithSign {
                tx: FTTransactionable {
                    prepopulated: tr.tr,
                    receiver: self.receiver_id,
                    decimals: amount.decimals(),
                },
            },
        )
    }

    /// A non-fungible-token transfer: one `nft_transfer` call. The token ID
    /// is escaped into the argument object, so any ID travels intact.
    pub fn nft(self, nft_contract: AccountId, token_id: String) -> (r: Result<
        ConstructTransaction,
        BuilderError,
    >)
        ensures
            r matches Ok(c) && {
                &&& c.tr@.signer_id == self.from@
                &&& c.tr@.receiver_id == nft_contract@
                &&& c.tr@.actions.len() == 1
                &&& c.tr@.actions[0] == (crate::actions::ActionView::FunctionCall {
                    method_name: "nft_transfer"@,
                    args: spec_nft_transfer_args(self.receiver_id@, encode_utf8(token_id@)),
                    gas: DEFAULT_CALL_GAS,
                    deposit: ONE_YOCTO as u128,
                })
            },
    {
        let mut head = String::from_str("{\"receiver_id\":\"");
        head.append(self.receiver_id.as_str());
        head.append("\",\"token_id\":\"");
        let mut args = head.as_str().as_bytes_vec();
        let token_bytes = token_id.as_str().as_bytes_vec();
        let mut escaped = json_escape_bytes(&token_bytes);
        args.append(&mut escaped);
        let tail = String::from_str("\"}");
        let mut tail_bytes = tail.as_str().as_bytes_vec();
        args.append(&mut tail_bytes);
        proof {
            assert(args@ =~= spec_nft_transfer_args(self.receiver_id@, encode_utf8(token_id@)));
        }
        let call = Action::FunctionCall(
            FunctionCallAction {
                method_name: String::from_str("nft_transfer"),
                args,
                gas: DEFAULT_CALL_GAS,
                deposit: ONE_YOCTO,
            },
        );
        Ok(ConstructTransaction::new(self.from, nft_contract).add_action(call))
    }
}

/// A transaction paired with the validation its kind demands.
#[derive(Debug, PartialEq, Eq)]
pub struct TransactionWithSign {
    pub tx: FTTransactionable,
}

// ---------------------------------------------------------------------------
// Validation of a fungible-token transfer against network state.
// ---------------------------------------------------------------------------

/// The characters of the decimals-mismatch message, carrying both values.
pub open spec fn spec_decimals_mismatch_message(expected: u8, got: u8) -> Seq<char> {
    "Decimals mismatch: expected "@ + spec_decimal_digits(expected as u128) + ", got "@
        + spec_decimal_digits(got as u128)
}

/// The message each validation condition carries; the validation error
/// itself stays one opaque string-carrying kind across all rules, but no
/// context is dropped from it.
pub fn ft_validator_message(e: &FTValidatorError) -> (r: String)
    ensures
        e is NoMetadata ==> r@ == "Metadata is not provided"@,
        e matches FTValidatorError::DecimalsMismatch { expected, got } ==> r@
            == spec_decimals_mismatch_message(*expected, *got),
        e is StorageDepositNeeded ==> r@ == "Storage deposit is needed"@,
{
    match e {
        FTValidatorError::NoMetadata => String::from_str("Metadata is not provided"),
        FTValidatorError::DecimalsMismatch { expected, got } => {
            let mut m = String::from_str("Decimals mismatch: expected ");
            let e_digits = u128_to_decimal_string(*expected as u128);
            m.append(e_digits.as_str());
            m.append(", got ");
            let g_digits = u128_to_decimal_string(*got as u128);
            m.append(g_digits.as_str());
            m
        },
        FTValidatorError::StorageDepositNeeded => String::from_str("Storage deposit is needed"),
    }
}

/// Whether an action sequence already leads with the storage deposit for
/// this receiver, so that editing has nothing left to add.
pub open spec fn spec_has_leading_storage_deposit(
    actions: Seq<crate::actions::ActionView>,
    receiver: Seq<char>,
) -> bool {
    actions.len() > 0 && actions[0] == spec_storage_deposit_action(receiver)
}

/// A fungible-token transfer and what it assumes of the network: the
/// token's decimals, and a storage deposit existing for the receiver.
#[derive(Debug, PartialEq, Eq)]
pub struct FTTransactionable {
    pub prepopulated: PrepopulateTransaction,
    pub receiver: AccountId,
    pub decimals: u8,
}

/// The deposit that `edit_with_network` prepends when the receiver has no
/// storage on the token contract yet.
pub open spec fn spec_storage_deposit_action(receiver: Seq<char>) -> crate::actions::ActionView {
    crate::actions::ActionView::FunctionCall {
        method_name: "storage_deposit"@,
        args: encode_utf8(spec_account_id_args(receiver)),
        gas: DEFAULT_CALL_GAS,
        deposit: 100000000000000000000000,
    }
}

impl FTTransactionable {
    /// The read-only snapshot of the transaction as currently populated.
    pub fn prepopulated(&self) -> (r: PrepopulateTransaction)
        ensures
            r@ == self.prepopulated@,
    {
        self.prepopulated.clone()
    }

    /// Checks the caller's decimal assumption against the fetched
    /// metadata: absent metadata and mismatched decimals each fail with
    /// their own condition.
    pub fn check_decimals(&self, metadata_decimals: Option<u8>) -> (r: Result<(), ValidationError>)
        ensures
            metadata_decimals is None ==> (r matches Err(
                ValidationError::TransactionValidationError(m),
            ) && m@ == "Metadata is not provided"@),
            metadata_decimals matches Some(d) ==> (d != self.decimals ==> (r matches Err(
                ValidationError::TransactionValidationError(m),
            ) && m@ == spec_decimals_mismatch_message(d, self.decimals))),
            metadata_decimals == Some(self.decimals) ==> r is Ok,
    {
        match metadata_decimals {
            None => Err(
                ValidationError::TransactionValidationError(
                    ft_validator_message(&FTValidatorError::NoMetadata),
                ),
            ),
            Some(d) => {
                if d != self.decimals {
                    Err(
                        ValidationError::TransactionValidationError(
                            ft_validator_message(
                                &FTValidatorError::DecimalsMismatch {
                                    expected: d,
                                    got: self.decimals,
                                },
                            ),
                        ),
                    )
                } else {
                    Ok(())
                }
            },
        }
    }

    /// The read-only precondition check, against already fetched state.
    ///
    /// Law: under network state with matching metadata but no storage
    /// deposit for the receiver, validation fails with the
    /// storage-deposit-needed condition; with a deposit present it
    /// succeeds.
    pub fn validate_with_network(
        &self,
        metadata_decimals: Option<u8>,
        storage_balance: Option<StorageBalance>,
    ) -> (r: Result<(), ValidationError>)
        ensures
            metadata_decimals is None ==> (r matches Err(
                ValidationError::TransactionValidationError(m),
            ) && m@ == "Metadata is not provided"@),
            metadata_decimals matches Some(d) ==> (d != self.decimals ==> (r matches Err(
                ValidationError::TransactionValidationError(m),
            ) && m@ == spec_decimals_mismatch_message(d, self.decimals))),
            (metadata_decimals == Some(self.decimals) && storage_balance is None) ==> (r matches
                Err(ValidationError::TransactionValidationError(m)) && m@
                == "Storage deposit is needed"@),
            (metadata_decimals == Some(self.decimals) && storage_balance is Some) ==> r is Ok,
    {
        match self.check_decimals(metadata_decimals) {
            Err(e) => {
                return Err(e);
            },
            Ok(_) => {},
        }
        if storage_balance.is_none() {
            return Err(
                ValidationError::TransactionValidationError(
                    ft_validator_message(&FTValidatorError::StorageDepositNeeded),
                ),
            );
        }
        Ok(())
    }

    /// Whether the transaction already leads with this transfer's storage
    /// deposit.
    pub fn has_leading_storage_deposit(&self) -> (r: bool)
        ensures
            r == spec_has_leading_storage_deposit(self.prepopulated@.actions, self.receiver@),
    {
        if self.prepopulated.actions.len() == 0 {
            return false;
        }
        match &self.prepopulated.actions[0] {
            Action::FunctionCall(f) => {
                let target = String::from_str("storage_deposit");
                let expected_args = account_id_args(&self.receiver);
                let r = f.method_name == target && crate::crypto::bytes_equal(
                    f.args.as_slice(),
                    expected_args.as_slice(),
                ) && f.gas == DEFAULT_CALL_GAS && f.deposit == 100000000000000000000000;
                proof {
                    let got = self.prepopulated@.actions[0];
                    assert(got == self.prepopulated.actions@[0]@);
                    if r {
                        assert(got == spec_storage_deposit_action(self.receiver@));
                    } else {
                        assert(got != spec_storage_deposit_action(self.receiver@));
                    }
                }
                r
            },
            _ => {
                proof {
                    assert(self.prepopulated@.actions[0] == self.prepopulated.actions@[0]@);
                    assert(!(self.prepopulated@.actions[0] is FunctionCall));
                }
                false
            },
        }
    }

    /// The mutating variant, against the same fetched state.
    ///
    /// Law: under the identical network state in which validation reports
    /// the storage-deposit-needed condition, editing instead makes the
    /// transaction lead with one storage-deposit action and succeeds —
    /// prepending it where it is missing and changing nothing where a
    /// previous edit already put it there, so a second run under the same
    /// network state is idempotent. On rejection nothing is mutated.
    pub fn edit_with_network(
        &mut self,
        metadata_decimals: Option<u8>,
        storage_balance: Option<StorageBalance>,
    ) -> (r: Result<(), ValidationError>)
        ensures
            final(self).receiver@ == old(self).receiver@,
            final(self).decimals == old(self).decimals,
            final(self).prepopulated@.signer_id == old(self).prepopulated@.signer_id,
            final(self).prepopulated@.receiver_id == old(self).prepopulated@.receiver_id,
            r is Err ==> final(self).prepopulated@ == old(self).prepopulated@,
            metadata_decimals is None ==> (r matches Err(
                ValidationError::TransactionValidationError(m),
            ) && m@ == "Metadata is not provided"@),
            metadata_decimals matches Some(d) ==> (d != old(self).decimals ==> (r matches Err(
                ValidationError::TransactionValidationError(m),
            ) && m@ == spec_decimals_mismatch_message(d, old(self).decimals))),
            (metadata_decimals == Some(old(self).decimals) && storage_balance is Some) ==> (r is Ok
                && final(self).prepopulated@ == old(self).prepopulated@),
            (metadata_decimals == Some(old(self).decimals) && storage_balance is None) ==> (r is Ok
                && (if spec_has_leading_storage_deposit(
                old(self).prepopulated@.actions,
                old(self).receiver@,
            ) {
                final(self).prepopulated@ == old(self).prepopulated@
            } else {
                final(self).prepopulated@.actions == seq![
                    spec_storage_deposit_action(old(self).receiver@),
                ] + old(self).prepopulated@.actions
            }) && spec_has_leading_storage_deposit(
                final(self).prepopulated@.actions,
                final(self).receiver@,
            )),
    {
        match self.check_decimals(metadata_decimals) {
            Err(e) => {
                return Err(e);
            },
            Ok(_) => {},
        }
        if storage_balance.is_none() && !self.has_leading_storage_deposit() {
            let deposit_call = Action::FunctionCall(
                FunctionCallAction {
                    method_name: String::from_str("storage_deposit"),
                    args: account_id_args(&self.receiver),
                    gas: DEFAULT_CALL_GAS,
                    deposit: 100000000000000000000000,
                },
            );
            let ghost old_actions = self.prepopulated.actions.deep_view();
            let mut rebuilt: Vec<Action> = Vec::new();
            rebuilt.push(deposit_call);
            let ghost one = rebuilt.deep_view();
            rebuilt.append(&mut self.prepopulated.actions);
            proof {
                assert(one.len() == 1);
                assert forall|j: int| 0 <= j < rebuilt.deep_view().len() implies
                    rebuilt.deep_view()[j] == (seq![
                    spec_storage_deposit_action(old(self).receiver@),
                ] + old_actions)[j] by {
                    if j == 0 {
                        assert(rebuilt@[0].deep_view() == one[0]);
                    }
                }
                assert(rebuilt.deep_view() =~= seq![
                    spec_storage_deposit_action(old(self).receiver@),
                ] + old_actions);
            }
            self.prepopulated.actions = rebuilt;
        }
        Ok(())
    }
}

} // verus!
