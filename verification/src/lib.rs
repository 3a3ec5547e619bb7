//! Core state machines of a digital-inheritance platform.
//!
//! Four independent durable stores cooperate through caller-supplied
//! identifiers: a vault ledger (custody and lifecycle status), a liveness
//! oracle (proof-of-life scoring), a beneficiary registry (percentage
//! allocations and at-most-once claims), and a document vault (metadata,
//! encrypted key material, and access grants).  Caller identity is an
//! explicit attested value; every authorization-sensitive operation
//! compares identities for equality and never verifies signatures itself.

pub mod beneficiary;
pub mod document;
pub mod gateway;
pub mod liveness;
pub mod session;
pub mod stellar;
pub mod vault;
