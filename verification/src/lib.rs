//! A registry for user-submitted records: applications, reviews of those
//! applications, and author profiles, kept in content-addressed stores with
//! bounded owner/relation indexes and overflow-checked counters. Every
//! operation validates its inputs, checks every capacity and counter, and only
//! then commits all of its writes, so a failed call leaves the registry
//! exactly as it was.

pub mod errors;
pub mod counter;
pub mod bounded;
pub mod encode;
pub mod hashing;
pub mod store;
pub mod types;
pub mod registry;
pub mod laws;

pub use errors::Error;
pub use counter::Counter;
pub use bounded::BoundedKeys;
pub use store::KeyMap;
pub use types::{App, AppV, Review, ReviewV, Reviewer, ReviewerV, Name, NAME_LIMIT};
pub use registry::{Config, Registry};
pub use encode::{le_bytes_u32, le_bytes_u64, compact_u32, enc_bytes, enc_opt_u32};
pub use hashing::{app_encoding, app_key, review_encoding, review_key, reviewer_key};
