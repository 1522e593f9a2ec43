//! Entries: a root directory and the filters that decide which paths under it
//! are accepted.

pub mod bundle;
pub mod context;
pub mod error;
pub mod filter;
pub mod globbing;
pub mod pattern;

pub use bundle::Entry;
pub use context::{ContextFile, ContextFileAccepted};
pub use error::E;
pub use filter::{Filter, FilterAccepted};
pub use globbing::Glob;
pub use pattern::{PatternFilter, PatternFilterAccepted};
