//! Expiry of old items from a freedesktop-style trash directory.
//!
//! The library decides; the caller performs the filesystem work. Paths are
//! handled lexically, descriptors are read through rust-ini, timestamps through
//! chrono, and every decision is stated as a contract.
pub mod engine;
pub mod keyvalue;
pub mod paths;
pub mod policy;
pub mod record;
pub mod timestamp;
