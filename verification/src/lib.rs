//! An append-only message store behind a state-transition interface.
//!
//! Clients submit messages tagged with a topic under their authenticated
//! identity; the system assigns a unique, monotonically increasing id and
//! persists the record; readers retrieve all records or filter by id,
//! owner, or topic. The allocator counter and the ordered store are held
//! in one [`state::State`] value that every entry point takes explicitly.

pub mod contract;
pub mod decimal;
pub mod error;
pub mod msg;
pub mod state;
