//! Transactional core of a gamified security-training backend.
//!
//! The library models the authoritative relational store (users, bank
//! accounts, ledger entries, training tasks and their per-user state) and
//! implements the multi-table operations over it: atomic account
//! provisioning, balance mutation with an append-only audit log, and the
//! idempotent task-completion state machine that must issue a reward at most
//! once per (user, task) pair.  Every operation either applies completely or
//! leaves the store unchanged, and every operation preserves the store
//! invariant: unique keys, referential consistency, and a never-negative
//! balance that always equals the signed sum of the user's ledger entries.

pub mod errors;
pub mod generators;
pub mod laws;
pub mod mail;
pub mod model;
pub mod records;
pub mod store;
pub mod task;
pub mod account;
pub mod auth;
pub mod bank;
