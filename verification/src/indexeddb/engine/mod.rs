//! The SQL engine: which statements an operation runs, and what its answers mean.

pub mod answer_laws;
pub mod backfill;
pub mod command;
pub mod dispatch;
pub mod job;
pub mod laws;
pub mod model;
pub mod placement;
pub mod put;
pub mod query;
pub mod rollback;
pub mod schema;
pub mod schema_laws;
pub mod sql;
pub mod stores;
pub mod tables;
pub mod transaction_run;
pub mod undo_laws;
