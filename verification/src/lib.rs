//! Deterministic digests of directory trees.
//!
//! The crate holds the rules by which a tree is walked, filtered and hashed:
//! which paths an [`Entry`] accepts, how context files scope their rules, how
//! paths are batched for hashing, and how per-file digests are combined into
//! one summary digest that does not depend on scheduling.
//!
//! Nothing here touches the filesystem or starts a thread. The coordinators
//! of [`collector`] and [`walker`] take decisions; whoever drives them lists
//! folders, reads files and runs the workers, and hands in what was found.

pub mod breaker;
pub mod collector;
pub mod entry;
pub mod error;
pub mod hasher;
pub mod io;
pub mod paths;
pub mod reader;
pub mod text;
pub mod walker;

pub use breaker::Breaker;
pub use collector::Tolerance;
pub use entry::{ContextFile, Entry, Filter, PatternFilter};
pub use hasher::Hasher;
pub use paths::PathKind;
pub use reader::Reader;
pub use walker::{JobType, Options, Progress, ReadingStrategy, Tick, Walker, E};
