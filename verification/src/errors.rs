use vstd::prelude::*;

verus! {

/// The shapes of payload a node can answer a request with. A query names the
/// shape it expects; the transport reports the shape it got.
#[derive(Debug, Clone, Copy, PartialEq, Eq, Structural)]
pub enum ResponseKind {
    AccountView,
    AccessKey,
    AccessKeyList,
    CallResult,
    Block,
}

/// Why a query could not even be constructed.
#[derive(Debug, Clone, PartialEq, Eq, Structural)]
pub enum QueryCreationError {
    StakingPoolFactoryNotDefined,
}

/// What can go wrong between sending a query and decoding its answer.
#[derive(Debug, Clone, PartialEq, Eq)]
pub enum QueryError {
    QueryCreationError(QueryCreationError),
    /// The transport answered with a payload of the wrong shape for the method.
    UnexpectedResponse { expected: ResponseKind, got: ResponseKind },
    /// The payload had the right shape but could not be decoded into the
    /// expected value.
    DeserializeError(String),
    /// The transport itself failed; the message is the transport's own.
    JsonRpcError(String),
    /// A response was expected and none was recorded.
    InternalErrorNoResponse,
}

/// A failure of one of the base-58 decoders.
#[derive(Debug, Clone, PartialEq, Eq)]
pub enum Base58Error {
    InvalidCharacter { character: char, index: usize },
    NonAsciiCharacter { index: usize },
    Other,
}

/// Why a string could not be read as a 32-byte hash.
#[derive(Debug, Clone, PartialEq, Eq)]
pub enum CryptoHashError {
    Base58DecodeError(Base58Error),
    IncorrectHashLength(usize),
}

/// Why a human-entered decimal amount could not be read.
#[derive(Debug, Clone, PartialEq, Eq)]
pub enum DecimalNumberParsingError {
    InvalidNumber(String),
    LongWhole(String),
    LongFractional(String),
}

/// A failure while resolving keys through the OS credential store.
#[derive(Debug, Clone, PartialEq, Eq)]
pub enum KeyStoreError {
    Keystore(String),
    QueryError(QueryError),
    ParseError(String),
}

/// A failure reported by, or around, a hardware signing device.
#[derive(Debug, Clone, PartialEq, Eq)]
pub enum LedgerError {
    /// The device refused the payload as too large for signature.
    BufferOverflow,
    LedgerError(String),
    IO(String),
    TaskExecutionError(String),
    SignatureDeserializationError(String),
}

/// Why a signer could not produce a signature.
#[derive(Debug, Clone, PartialEq, Eq)]
pub enum SignerError {
    PublicKeyIsNotAvailable,
    SecretKeyIsNotAvailable,
    FetchNonceError(QueryError),
    LedgerError(LedgerError),
}

/// Why a delegate action could not be built and signed.
#[derive(Debug, Clone, PartialEq, Eq)]
pub enum MetaSignError {
    /// The transaction to wrap already carries a delegate action.
    DelegateActionIsNotSupported,
    SignerError(SignerError),
}

/// A network-dependent precondition of a transaction did not hold.
#[derive(Debug, Clone, PartialEq, Eq)]
pub enum ValidationError {
    TransactionValidationError(String),
}

/// Why a fungible-token transfer did not pass validation.
#[derive(Debug, Clone, PartialEq, Eq, Structural)]
pub enum FTValidatorError {
    NoMetadata,
    DecimalsMismatch { expected: u8, got: u8 },
    StorageDepositNeeded,
}

/// Why a query argument object could not be built.
#[derive(Debug, Clone, PartialEq, Eq)]
pub enum BuilderError {
    IncorrectArguments(String),
}

/// The terminal failures of a transaction submission.
#[derive(Debug, Clone, PartialEq, Eq)]
pub enum ExecuteTransactionError {
    ValidationError(ValidationError),
    SignerError(SignerError),
    MetaSignError(MetaSignError),
    PreQueryError(QueryError),
    /// The retry budget ran out; carries the last transport error seen.
    RetriesExhausted(String),
}

/// The terminal failures of a meta-transaction submission.
#[derive(Debug, Clone, PartialEq, Eq)]
pub enum ExecuteMetaTransactionsError {
    ValidationError(ValidationError),
    SignError(MetaSignError),
    PreQueryError(QueryError),
    /// The active network names no relayer to forward delegate actions to.
    RelayerIsNotDefined,
    SendError(String),
}

} // verus!
