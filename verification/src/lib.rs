//! A learning-management engine: course authoring, enrollment, completion
//! facts with their derived module and course completions, and progress
//! reports recomputed from those facts.
pub mod models;
pub mod rules;
pub mod tree;
pub mod derivation;
pub mod state;
pub mod invariants;
pub mod authoring;
pub mod selection;
pub mod report;
pub mod store;
pub mod error;
pub mod engine;
pub mod joined;
pub mod laws;
pub mod readback;
pub mod attestation;
