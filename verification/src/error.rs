//! The layered error taxonomy: validation, signature, provider, transport
//! and internal kinds, each projected to a stable human-readable message.

use vstd::prelude::*;
use vstd::string::StringExecFns;

verus! {

/// A value could not be converted between two internal representations.
#[derive(Debug, Clone, PartialEq, Eq)]
pub struct ConversionError(pub &'static str);

/// A numbered internal invariant was broken; always fatal to the enclosing
/// transaction.
#[derive(Debug, Clone, Copy, PartialEq, Eq, Structural)]
pub struct InternalError(pub i32);

impl From<i32> for InternalError {
    fn from(num: i32) -> (r: Self) {
        InternalError(num)
    }
}

impl vstd::std_specs::convert::FromSpecImpl<i32> for InternalError {
    open spec fn obeys_from_spec() -> bool {
        true
    }

    open spec fn from_spec(num: i32) -> Self {
        InternalError(num)
    }
}

/// An invocation could not be issued or dispatched.
#[derive(Debug, Clone, PartialEq, Eq)]
pub struct InvocationError(pub String);

/// Static validation failures; these abort network start-up.
#[derive(Debug, Clone, PartialEq, Eq)]
pub enum ValidationError {
    SchematicNotFound(String),
    InstanceNotFound(String),
    ConnectionEndpointMissing(String),
    InvalidModel(u32),
}

/// Pre-dispatch signature failures; these abort a single transaction.
#[derive(Debug, Clone, PartialEq, Eq)]
pub enum SignatureError {
    TypeMismatch(String),
    MissingRequiredInput(String),
}

/// Failures of a provider invocation.
#[derive(Debug, Clone, PartialEq, Eq)]
pub enum ProviderError {
    Uninitialized,
    RpcUpstream(String),
    WasmTrap(String),
    Timeout,
}

/// Runtime transport failures within a transaction.
#[derive(Debug, Clone, PartialEq, Eq)]
pub enum TransportError {
    ChannelClosedEarly,
    BracketImbalance,
    DoubleClose(String),
    InvalidTransaction(u32),
}

/// Failures surfaced while driving a schematic's transaction.
#[derive(Debug, Clone, PartialEq, Eq)]
pub enum SchematicError {
    ModelNotInitialized,
    TransactionNotFound(String),
    InstanceNotFound(String),
    SchematicClosedEarly,
    InvalidModel(u32),
}

/// Failures surfaced by the network service.
#[derive(Debug, Clone, PartialEq, Eq)]
pub enum NetworkError {
    NotStarted,
    SchematicNotFound(String),
    InitializationError(Vec<ValidationError>),
    ExecutionError(String),
    TransportError(TransportError),
}

/// Failures shared by several layers.
#[derive(Debug, Clone, PartialEq, Eq)]
pub enum CommonError {
    NoSeed,
    KeyPairFailed,
    CodecError(String),
}

/// Failures of a single transaction's bookkeeping.
#[derive(Debug, Clone, PartialEq, Eq)]
pub enum TransactionError {
    CommonError(CommonError),
    InternalError(InternalError),
    UpstreamNotFound(String),
}

/// The top-level error kind: every layer's failures, one variant each.
#[derive(Debug, Clone, PartialEq, Eq)]
pub enum RuntimeError {
    InvocationError(InvocationError),
    InternalError(InternalError),
    CommonError(CommonError),
    TransactionError(TransactionError),
    ProviderError(ProviderError),
    NetworkError(NetworkError),
    SchematicError(SchematicError),
    TransportError(TransportError),
    ValidationError(ValidationError),
    SignatureError(SignatureError),
}

impl TransportError {
    /// The stable human-readable projection of the error.
    pub fn message(&self) -> (r: String)
        ensures
            self matches TransportError::DoubleClose(p) ==> r@ == "port already closed: "@ + p@,
            *self == TransportError::ChannelClosedEarly ==> r@ == "channel closed while data still available"@,
            *self == TransportError::BracketImbalance ==> r@ == "unbalanced brackets in port stream"@,
            self matches TransportError::InvalidTransaction(_) ==> r@ == "no live transaction under the frame's id"@,
    {
        match self {
            TransportError::ChannelClosedEarly => String::from_str(
                "channel closed while data still available",
            ),
            TransportError::BracketImbalance => String::from_str(
                "unbalanced brackets in port stream",
            ),
            TransportError::DoubleClose(p) => {
                let mut s = String::from_str("port already closed: ");
                s.append(p.as_str());
                s
            },
            TransportError::InvalidTransaction(_) => String::from_str(
                "no live transaction under the frame's id",
            ),
        }
    }
}

} // verus!
