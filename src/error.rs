//! Errors of transaction application.
use vstd::prelude::*;
use crate::address::{Address, Digest, InternalAddress};

verus! {

/// Why fees could not be charged.
#[derive(Clone, Copy, Debug, PartialEq, Eq, Structural)]
pub enum FeeFailure {
    /// The fee (price per gas unit times gas limit) overflows.
    FeeOverflow,
    /// The payer's balance was below the fee; what it held was moved.
    InsufficientBalance,
    /// A transfer's source held less than the amount.
    InsufficientSourceBalance,
    /// A transfer would overflow the destination's balance.
    DestinationOverflow,
}

/// Why a protocol transaction could not be applied.
#[derive(Clone, Copy, Debug, PartialEq, Eq, Structural)]
pub enum ProtocolFailure {
    /// The transaction carries no data.
    MissingData,
    /// The data does not decode as the kind the header names.
    KindMismatch,
    /// The signing validator is not in the validator set.
    UnknownValidator,
}

/// Why the wrapper pass of a transaction failed.
#[derive(Clone, Copy, Debug, PartialEq, Eq, Structural)]
pub enum WrapperFailure {
    /// The wrapper's header hash is already in the replay-protection index.
    Replay(Digest),
    Gas,
    Fee(FeeFailure),
}

/// What the sandboxed runner reports of a failed run.
#[derive(Clone, Copy, Debug, PartialEq, Eq, Structural)]
pub enum RunnerError {
    Gas,
    MissingSection,
    InvalidSectionSignature,
    Other,
}

#[derive(Clone, Copy, Debug, PartialEq, Eq, Structural)]
pub enum Error {
    MissingSection,
    WrapperRunnerError(WrapperFailure),
    TxRunnerError,
    ProtocolTxError(ProtocolFailure),
    GasError,
    FeeError(FeeFailure),
    InvalidSectionSignature,
    /// The inner transaction has already been applied in this block.
    ReplayAttempt(Digest),
    VpRunnerError,
    /// No validity predicate is bound to the address.
    MissingAddress(Address),
    /// A built-in validity predicate rejected the transaction.
    NativeVpError(InternalAddress),
    /// A sentinel internal address was named as a verifier.
    AccessForbidden(InternalAddress),
}

impl Error {
    /// Whether the error comes from an invalid section signature.
    pub fn invalid_section_signature_flag(&self) -> (r: bool)
        ensures
            r == (*self == Error::InvalidSectionSignature),
    {
        match self {
            Error::InvalidSectionSignature => true,
            _ => false,
        }
    }
}

/// The error a payload run's failure becomes.
pub open spec fn tx_runner_error(e: RunnerError) -> Error {
    match e {
        RunnerError::Gas => Error::GasError,
        RunnerError::MissingSection => Error::MissingSection,
        _ => Error::TxRunnerError,
    }
}

/// The error a sandboxed validity predicate's failure becomes.
pub open spec fn vp_runner_error(e: RunnerError) -> Error {
    match e {
        RunnerError::Gas => Error::GasError,
        RunnerError::InvalidSectionSignature => Error::InvalidSectionSignature,
        _ => Error::VpRunnerError,
    }
}

/// The error that the failure of the wrapper pass is reported as.
pub open spec fn wrapper_error(e: Error) -> Error {
    match e {
        Error::FeeError(f) => Error::WrapperRunnerError(WrapperFailure::Fee(f)),
        _ => Error::WrapperRunnerError(WrapperFailure::Gas),
    }
}

pub fn map_tx_runner_error(e: RunnerError) -> (r: Error)
    ensures
        r == tx_runner_error(e),
{
    match e {
        RunnerError::Gas => Error::GasError,
        RunnerError::MissingSection => Error::MissingSection,
        _ => Error::TxRunnerError,
    }
}

pub fn map_vp_runner_error(e: RunnerError) -> (r: Error)
    ensures
        r == vp_runner_error(e),
{
    match e {
        RunnerError::Gas => Error::GasError,
        RunnerError::InvalidSectionSignature => Error::InvalidSectionSignature,
        _ => Error::VpRunnerError,
    }
}

pub fn map_wrapper_error(e: Error) -> (r: Error)
    ensures
        r == wrapper_error(e),
{
    match e {
        Error::FeeError(f) => Error::WrapperRunnerError(WrapperFailure::Fee(f)),
        _ => Error::WrapperRunnerError(WrapperFailure::Gas),
    }
}

} // verus!
