//! A verified schema migration engine for an embedded relational store.
//!
//! The crate models the store a desktop application keeps on disk — a small
//! set of named tables plus a ledger recording the highest schema version
//! applied so far — and proves that the migration runner brings any store to
//! the registry's newest version: steps run in strictly ascending version
//! order, each step is all-or-nothing, and a second run over an up-to-date
//! store applies nothing.

pub mod laws;
pub mod registry;
pub mod runner;
pub mod store;
