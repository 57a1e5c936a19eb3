use vstd::prelude::*;
use crate::account_id::AccountId;
use crate::actions::AccessKey;
use crate::crypto::{CryptoHash, PublicKey};
use crate::errors::{QueryError, ResponseKind};
use crate::reference::Reference;

verus! {

/// One read-only request a node can answer.
#[derive(Debug, PartialEq, Eq)]
pub enum QueryRequest {
    ViewAccount { account_id: AccountId },
    ViewAccessKey { account_id: AccountId, public_key: PublicKey },
    ViewAccessKeyList { account_id: AccountId },
    /// A read-only contract call; the arguments are already serialized.
    CallFunction { account_id: AccountId, method_name: String, args: Vec<u8> },
}

/// What a node reports about an account.
#[derive(Debug, Clone, PartialEq, Eq, Structural)]
pub struct AccountData {
    /// The liquid balance, in the smallest unit.
    pub amount: u128,
    /// The balance locked for staking, in the smallest unit.
    pub locked: u128,
    /// The storage the account occupies, in bytes.
    pub storage_usage: u64,
}

/// One entry of an account's key list.
#[derive(Debug, PartialEq, Eq)]
pub struct AccessKeyInfo {
    pub public_key: PublicKey,
    pub access_key: AccessKey,
}

/// The typed payloads the transport hands back.
#[derive(Debug, PartialEq, Eq)]
pub enum QueryResponse {
    AccountView(AccountData),
    AccessKey { access_key: AccessKey, block_hash: CryptoHash },
    AccessKeyList(Vec<AccessKeyInfo>),
    CallResult(Vec<u8>),
}

/// The shape of a response payload.
pub open spec fn spec_response_kind(r: QueryResponse) -> ResponseKind {
    match r {
        QueryResponse::AccountView(_) => ResponseKind::AccountView,
        QueryResponse::AccessKey { .. } => ResponseKind::AccessKey,
        QueryResponse::AccessKeyList(_) => ResponseKind::AccessKeyList,
        QueryResponse::CallResult(_) => ResponseKind::CallResult,
    }
}

pub fn response_kind(r: &QueryResponse) -> (k: ResponseKind)
    ensures
        k == spec_response_kind(*r),
{
    match r {
        QueryResponse::AccountView(_) => ResponseKind::AccountView,
        QueryResponse::AccessKey { .. } => ResponseKind::AccessKey,
        QueryResponse::AccessKeyList(_) => ResponseKind::AccessKeyList,
        QueryResponse::CallResult(_) => ResponseKind::CallResult,
    }
}

/// The response shape each request expects.
pub open spec fn spec_expected_kind(q: QueryRequest) -> ResponseKind {
    match q {
        QueryRequest::ViewAccount { .. } => ResponseKind::AccountView,
        QueryRequest::ViewAccessKey { .. } => ResponseKind::AccessKey,
        QueryRequest::ViewAccessKeyList { .. } => ResponseKind::AccessKeyList,
        QueryRequest::CallFunction { .. } => ResponseKind::CallResult,
    }
}

pub fn expected_kind(q: &QueryRequest) -> (k: ResponseKind)
    ensures
        k == spec_expected_kind(*q),
{
    match q {
        QueryRequest::ViewAccount { .. } => ResponseKind::AccountView,
        QueryRequest::ViewAccessKey { .. } => ResponseKind::AccessKey,
        QueryRequest::ViewAccessKeyList { .. } => ResponseKind::AccessKeyList,
        QueryRequest::CallFunction { .. } => ResponseKind::CallResult,
    }
}

/// One request paired with the state view it reads against. The typed
/// `process_*` functions below play the decoder's part.
#[derive(Debug, PartialEq, Eq)]
pub struct QueryBuilder {
    pub request: QueryRequest,
    pub reference: Reference,
}

impl QueryBuilder {
    /// A query against the most recent state.
    pub fn new(request: QueryRequest) -> (r: QueryBuilder)
        ensures
            r.request == request,
            r.reference == Reference::Optimistic,
    {
        QueryBuilder { request, reference: Reference::Optimistic }
    }

    /// The same query pinned to another state view.
    pub fn at_reference(self, reference: Reference) -> (r: QueryBuilder)
        ensures
            r.request == self.request,
            r.reference == reference,
    {
        QueryBuilder { request: self.request, reference }
    }
}

/// Several queries sharing one state view, answered together.
#[derive(Debug, PartialEq, Eq)]
pub struct MultiQueryBuilder {
    pub queries: Vec<QueryBuilder>,
    pub reference: Reference,
}

impl MultiQueryBuilder {
    pub fn new(reference: Reference) -> (r: MultiQueryBuilder)
        ensures
            r.queries@.len() == 0,
            r.reference == reference,
    {
        MultiQueryBuilder { queries: Vec::new(), reference }
    }

    pub fn add_query_builder(self, q: QueryBuilder) -> (r: MultiQueryBuilder)
        ensures
            r.queries@ == self.queries@.push(q),
            r.reference == self.reference,
    {
        let MultiQueryBuilder { mut queries, reference } = self;
        queries.push(q);
        MultiQueryBuilder { queries, reference }
    }
}

// ---------------------------------------------------------------------------
// Decoding a response against the shape its request expects.
// ---------------------------------------------------------------------------

/// Accepts exactly an account view.
pub fn process_account_view(resp: QueryResponse) -> (r: Result<AccountData, QueryError>)
    ensures
        resp matches QueryResponse::AccountView(a) ==> r == Ok::<AccountData, QueryError>(a),
        !(resp is AccountView) ==> r == Err::<AccountData, QueryError>(
            QueryError::UnexpectedResponse {
                expected: ResponseKind::AccountView,
                got: spec_response_kind(resp),
            },
        ),
{
    let got = response_kind(&resp);
    match resp {
        QueryResponse::AccountView(a) => Ok(a),
        _ => Err(QueryError::UnexpectedResponse { expected: ResponseKind::AccountView, got }),
    }
}

/// Accepts exactly an access-key record, keeping the block hash it came
/// with.
pub fn process_access_key(resp: QueryResponse) -> (r: Result<
    (AccessKey, CryptoHash),
    QueryError,
>)
    ensures
        resp matches QueryResponse::AccessKey { access_key, block_hash } ==> (r matches Ok(p)
            && p.0 == access_key && p.1 == block_hash),
        !(resp is AccessKey) ==> r == Err::<(AccessKey, CryptoHash), QueryError>(
            QueryError::UnexpectedResponse {
                expected: ResponseKind::AccessKey,
                got: spec_response_kind(resp),
            },
        ),
{
    let got = response_kind(&resp);
    match resp {
        QueryResponse::AccessKey { access_key, block_hash } => Ok((access_key, block_hash)),
        _ => Err(QueryError::UnexpectedResponse { expected: ResponseKind::AccessKey, got }),
    }
}

/// Accepts exactly a key list.
pub fn process_access_key_list(resp: QueryResponse) -> (r: Result<Vec<AccessKeyInfo>, QueryError>)
    ensures
        resp matches QueryResponse::AccessKeyList(l) ==> r == Ok::<Vec<AccessKeyInfo>, QueryError>(
            l,
        ),
        !(resp is AccessKeyList) ==> r == Err::<Vec<AccessKeyInfo>, QueryError>(
            QueryError::UnexpectedResponse {
                expected: ResponseKind::AccessKeyList,
                got: spec_response_kind(resp),
            },
        ),
{
    let got = response_kind(&resp);
    match resp {
        QueryResponse::AccessKeyList(l) => Ok(l),
        _ => Err(QueryError::UnexpectedResponse { expected: ResponseKind::AccessKeyList, got }),
    }
}

/// Accepts exactly a contract call result: the raw bytes the contract
/// returned.
pub fn process_call_result(resp: QueryResponse) -> (r: Result<Vec<u8>, QueryError>)
    ensures
        resp matches QueryResponse::CallResult(b) ==> r == Ok::<Vec<u8>, QueryError>(b),
        !(resp is CallResult) ==> r == Err::<Vec<u8>, QueryError>(
            QueryError::UnexpectedResponse {
                expected: ResponseKind::CallResult,
                got: spec_response_kind(resp),
            },
        ),
{
    let got = response_kind(&resp);
    match resp {
        QueryResponse::CallResult(b) => Ok(b),
        _ => Err(QueryError::UnexpectedResponse { expected: ResponseKind::CallResult, got }),
    }
}

/// Joins the decoded results of a query group.
///
/// Law: the group's postprocess step runs on all N results together, and
/// only if every sub-query succeeded; any single failure short-circuits the
/// group and surfaces the first failure unmodified.
#[verifier::loop_isolation(false)]
pub fn join_results<T>(results: Vec<Result<T, QueryError>>) -> (r: Result<Vec<T>, QueryError>)
    ensures
        (r is Ok) <==> (forall|i: int| 0 <= i < results@.len() ==> #[trigger] results@[i] is Ok),
        r matches Ok(v) ==> v@.len() == results@.len() && (forall|i: int|
            0 <= i < results@.len() ==> #[trigger] v@[i] == results@[i]->Ok_0),
        r matches Err(e) ==> (exists|j: int|
            0 <= j < results@.len() && (#[trigger] results@[j]) == Err::<T, QueryError>(e) && (
            forall|k: int| 0 <= k < j ==> #[trigger] results@[k] is Ok)),
{
    let ghost orig = results@;
    let mut rest = results;
    let mut out: Vec<T> = Vec::new();
    while rest.len() > 0
        invariant
            out@.len() + rest@.len() == orig.len(),
            rest@ == orig.skip(out@.len() as int),
            forall|j: int|
                0 <= j < out@.len() ==> ((#[trigger] orig[j]) matches Ok(x) && out@[j] == x),
        decreases rest@.len(),
    {
        let ghost done = out@.len();
        let head = rest.remove(0);
        proof {
            assert(orig.skip(done as int)[0] == orig[done as int]);
            assert(rest@ =~= orig.skip(done as int + 1));
        }
        match head {
            Ok(x) => {
                out.push(x);
            },
            Err(e) => {
                proof {
                    assert(orig[done as int] == Err::<T, QueryError>(e));
                    assert forall|k: int| 0 <= k < done implies #[trigger] orig[k] is Ok by {
                    }
                    assert(exists|j: int|
                        0 <= j < orig.len() && (#[trigger] orig[j]) == Err::<T, QueryError>(e) && (
                        forall|k: int| 0 <= k < j ==> #[trigger] orig[k] is Ok));
                }
                return Err(e);
            },
        }
    }
    proof {
        assert(out@.len() == orig.len());
    }
    Ok(out)
}

} // verus!
