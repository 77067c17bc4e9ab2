//! Web storage: local and session storage of every origin.

pub mod call_laws;
pub mod engine;
pub mod entry;
pub mod laws;
pub mod manager;
pub mod messages;
pub mod origins;
pub mod session_clone;
pub mod site_data;
pub mod slots;
pub mod sql_laws;
pub mod sqlite;
