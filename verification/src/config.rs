use vstd::prelude::*;
use crate::account_id::AccountId;

verus! {

/// What the library needs to know about a network. Loading and parsing this
/// is the caller's business; the library only reads the fields and checks
/// which optional services are present.
#[derive(Debug, Clone)]
pub struct NetworkConfig {
    /// The name the network goes by, e.g. in credential-store service names.
    pub network_name: String,
    /// The node's RPC endpoint.
    pub rpc_url: String,
    /// The endpoint of a fee-sponsoring relayer, where one is configured.
    pub meta_transaction_relayer_url: Option<String>,
    /// The account that sponsors top-level account creation, where one exists.
    pub linkdrop_account_id: Option<AccountId>,
}

impl NetworkConfig {
    /// Whether a relayer is configured, so a meta-transaction has somewhere
    /// to go.
    pub fn has_relayer(&self) -> (r: bool)
        ensures
            r == self.meta_transaction_relayer_url is Some,
    {
        self.meta_transaction_relayer_url.is_some()
    }
}

} // verus!
