//! Storage, locking, interception and layout-snapshot logic of a web engine, proved with Verus.

pub mod cache_storage;
pub mod error;
pub mod ids;
pub mod indexeddb;
pub mod interception;
pub mod interception_laws;
pub mod layout;
pub mod names;
pub mod process_manager;
pub mod storage_thread;
pub mod text;
pub mod text_map;
pub mod web_locks;
pub mod webstorage;
