//! Plain data carried across the engine's boundary.
pub mod course;
pub mod progress;
