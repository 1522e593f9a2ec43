//! The walker: options, the hashing of collected paths and the summary digest.

pub mod error;
pub mod hashing;
pub mod options;
pub mod progress;
pub mod strategy;
pub mod summary;
pub mod tracking;
pub mod walking;
pub mod worker;

pub use error::E;
pub use hashing::{Assignment, HashItem, Hashing};
pub use options::Options;
pub use progress::{Delivery, JobType, Progress, ProgressChannel, Tick, Tx};
pub use strategy::ReadingStrategy;
pub use walking::{Walker, WalkerIter};
pub use worker::{hash_file, Action, Worker};
