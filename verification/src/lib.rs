//! An authorization-gated registry of members, services and alerts.
//!
//! Four stores make up the registry. `RoleStore` holds the curator and
//! monitor capability sets. `MemberStore` and `ServiceStore` hold member and
//! service records together with their status state machines; every mutation
//! of them is gated on a role check. `AlertRegistry` holds alert records and
//! a derived uniqueness index over (member, service, alert type) that is kept
//! in lockstep with the records and can be rebuilt from them on demand.
//!
//! The host environment authenticates callers, dispatches calls, delivers the
//! notification each successful operation returns, and invokes the epoch hook
//! that triggers the index rebuild.

pub mod alert;
pub mod ids;
pub mod kv;
pub mod member;
pub mod roles;
pub mod service;
