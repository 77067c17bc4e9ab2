//! Snapshots of a document's layout, and hit tests.

pub mod element;
pub mod element_laws;
pub mod handles;
pub mod hit_test;
pub mod laws;
pub mod paint;
pub mod projection;
pub mod rect;
pub mod snapshot;
