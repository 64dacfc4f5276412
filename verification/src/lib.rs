//! A reactive entity runtime: a single-owner registry of application
//! entities reached through typed handles, mutated only inside scoped
//! updates, observable through subscriptions and a global-state slot,
//! and driven by a deterministic virtual scheduler for tests.

pub mod context;
pub mod laws;
pub mod settings;
pub mod executor;
pub mod store;
