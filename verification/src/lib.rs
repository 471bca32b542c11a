//! Bridges a transactional relational catalog to a remote search engine.
//!
//! Two subsystems:
//!
//! * Deferred transactional reconciliation: when a governed index (or a
//!   table, schema, or the whole extension owning such indices) is dropped,
//!   a delete of the mirrored remote resource is registered with a
//!   commit-deferred action queue, so the remote index disappears if and
//!   only if the local transaction actually commits.
//! * Typed query compilation: a closed set of scalar kinds is compiled into
//!   one canonical term-predicate shape, with temporal values normalized to
//!   UTC and rendered as ISO-8601 text.

pub mod ascii;
pub mod catalog;
pub mod reconcile;
pub mod temporal;
pub mod term;
pub mod xact;
