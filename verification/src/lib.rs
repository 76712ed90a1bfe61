//! Core of a dynamic-DNS updater: address selection and provider-state
//! reconciliation, verified with Verus.
//!
//! The library determines which public address should be published for a
//! host, resolves configured zone and record names against provider
//! listings, and plans the patch requests that bring the provider's records
//! in line with the addresses resolved for the current run. All network and
//! file I/O lives outside the library; the functions here work on plain
//! values handed in by the caller.

pub mod api;
pub mod config;
pub mod errors;
pub mod ip;
pub mod reconcile;
