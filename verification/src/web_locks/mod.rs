//! Web Locks: the registry of every origin's locks, and the client side that script talks to.

pub mod laws;
pub mod manager;
pub mod registry;
