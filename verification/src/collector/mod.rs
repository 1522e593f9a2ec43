//! Collecting paths: the coordinator's decisions, the rules of context files
//! and what a worker makes of one folder's listing.

pub mod collecting;
pub mod context;
pub mod error;
pub mod format;
pub mod pool;
pub mod rules;
pub mod scope;
pub mod tolerance;
pub mod worker;

pub use collecting::{Action, Collecting, Dispatch};
pub use context::Context;
pub use error::E;
pub use pool::{Pool, WorkerLoad};
pub use rules::{ContextPatterns, Rule, RuleText};
pub use tolerance::Tolerance;
pub use worker::{Found, LinkTarget, Outcome, Worker};
