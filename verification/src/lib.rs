pub mod account;
pub mod account_id;
pub mod actions;
pub mod chain;
pub mod config;
pub mod crypto;
pub mod encoding;
pub mod errors;
pub mod execution;
pub mod meta;
pub mod numbers;
pub mod query;
pub mod reference;
pub mod retry;
pub mod signer;
pub mod tokens;
pub mod transactions;
