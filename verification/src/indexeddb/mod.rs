//! IndexedDB: keys, cursors, requests, object stores and the SQL engine behind them.

pub mod cursor;
pub mod cursor_laws;
pub mod delivery;
pub mod engine;
pub mod get_all;
pub mod index;
pub mod index_walk;
pub mod key;
pub mod key_path;
pub mod laws;
pub mod object_store;
pub mod operation;
pub mod put_request;
pub mod read_back;
pub mod record;
pub mod request;
pub mod store_requests;
pub mod transaction;
