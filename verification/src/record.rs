//! The record, the operation contexts, the transition notifications and the
//! error taxonomy.

use crate::identity::Identity;
use vstd::prelude::*;

verus! {

/// The persistent per-authority state: a non-negative counter and the one
/// identity allowed to mutate it. The authority is set at creation and never
/// changes afterwards.
#[derive(Clone, Copy, Debug, PartialEq, Eq, Structural)]
pub struct Counter {
    pub count: u64,
    pub authority: Identity,
}

/// What `initialize` sees: the record slot at the address derived from the
/// caller, holding `Some` record when one already exists there, and the
/// authenticated caller identity. The host loads the slot and verifies the
/// caller before handing this over.
#[derive(Clone, Copy, Debug)]
pub struct Initialize {
    pub counter: Option<Counter>,
    pub authority: Identity,
}

/// What `increment` and `decrement` see: the existing record and the
/// authenticated caller identity, both supplied by the host.
#[derive(Clone, Copy, Debug)]
pub struct UpdateCounter {
    pub counter: Counter,
    pub authority: Identity,
}

/// Notification of a record's creation.
#[derive(Clone, Copy, Debug, PartialEq, Eq, Structural)]
pub struct CounterInitialized {
    pub authority: Identity,
    pub count: u64,
}

/// Notification of a committed increment: the authority, the count before
/// and after, and the commit timestamp from the host clock.
#[derive(Clone, Copy, Debug, PartialEq, Eq, Structural)]
pub struct CounterIncremented {
    pub authority: Identity,
    pub old_count: u64,
    pub new_count: u64,
    pub timestamp: i64,
}

/// Notification of a committed decrement: the authority, the count before
/// and after, and the commit timestamp from the host clock.
#[derive(Clone, Copy, Debug, PartialEq, Eq, Structural)]
pub struct CounterDecremented {
    pub authority: Identity,
    pub old_count: u64,
    pub new_count: u64,
    pub timestamp: i64,
}

/// The terminal per-operation failures. Each operation either commits in
/// full or fails with one of these and leaves the record untouched.
#[derive(Clone, Copy, Debug, PartialEq, Eq, Structural)]
pub enum CounterError {
    /// The caller identity does not match the record's authority.
    AuthorizationError,
    /// A decrement was attempted while the count is zero.
    UnderflowError,
    /// An increment was attempted while the count is at the maximum
    /// representable value.
    OverflowError,
    /// An initialize was attempted at an address that already holds a record.
    AlreadyInitializedError,
}

} // verus!
