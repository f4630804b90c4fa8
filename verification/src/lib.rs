//! An authenticated counter state machine.
//!
//! One persistent record per owning identity: creation, authority-gated
//! increment and authority-gated decrement, with overflow and underflow
//! protection. Every committed transition is described by a notification
//! value that the host appends to its durable log. The host environment
//! (storage, signature verification, clock, transport) stays outside this
//! crate: each operation is a pure decision function over the record state,
//! the authenticated caller identity and, where a transition is timestamped,
//! a clock reading supplied by the host.

pub mod codec;
pub mod identity;
pub mod ops;
pub mod record;

pub use codec::{decode_record, derive_address, encode_record};
pub use identity::Identity;
pub use ops::{decrement, increment, initialize};
pub use record::{
    Counter, CounterDecremented, CounterError, CounterIncremented, CounterInitialized, Initialize,
    UpdateCounter,
};
