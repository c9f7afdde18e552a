//! The operations of the engine on a store.
pub mod course;
pub mod progress;
