use vstd::prelude::*;

use crate::types::FnIdent;
use crate::types::RENodeId;
use crate::types::SubstateId;

verus! {

/// Why the tracked store refused a request.
#[derive(Debug, PartialEq, Eq)]
pub enum TrackError {
    /// The substate is not in the store.
    NotFound(SubstateId),
    /// The substate is locked in a way that excludes the request.
    SubstateLocked(SubstateId),
    /// The substate is not locked.
    NotLocked(SubstateId),
}

/// A failure of the kernel.
#[derive(Debug, PartialEq, Eq)]
pub enum KernelError {
    SubstateError(TrackError),
    StoredNodeRemoved(RENodeId),
    RENodeNotFound(RENodeId),
    /// The called method is not in its blueprint's interface.
    FnIdentNotFound(FnIdent),
    /// The input does not match what the called method takes.
    InvalidFnInput2(FnIdent),
}

/// A failure while running a transaction.
#[derive(Debug, PartialEq, Eq)]
pub enum RuntimeError {
    KernelError(KernelError),
    CantMoveLockedBucket,
    CantMoveRestrictedProof,
    ValueNotAllowed,
}

/// Why a node could not be dropped.
#[derive(Debug, PartialEq, Eq, Structural)]
pub enum DropFailure {
    System,
    Resource,
    Component,
    Bucket,
    Worktop,
    AuthZone,
    Vault,
    Package,
    KeyValueStore,
}

/// Why a heap node could not be turned into substates.
#[derive(Debug, PartialEq, Eq, Structural)]
pub enum NodeToSubstateFailure {
    VaultPartiallyLocked,
}

} // verus!
