//! A multi-tenant file store: uploads get a digest-derived id, and reads and
//! deletes are gated by ownership and visibility. A separate registry keeps
//! what storage nodes advertise about themselves.
pub mod file_id;
pub mod types;
pub mod store;
pub mod registry;
pub mod stats;
pub mod laws;
