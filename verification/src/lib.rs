//! Orchestration engine for a local cluster of database-engine processes.
//!
//! The crate plans instances from a declarative topology, builds the
//! administrative statement sequence that installs plugins, and decides
//! shutdown, rollback and supervision actions. All decisions are verified;
//! process spawning and file handling live outside the crate and exchange
//! plain values with it.

pub mod text;
pub mod topology;
pub mod plan;
pub mod statements;
pub mod install;
pub mod lifecycle;
pub mod versions;
pub mod console;
pub mod shutdown;
pub mod tier_merge;
pub mod supervisor;
pub mod env;
pub mod config_apply;
pub mod build_params;
pub mod enter;
pub mod run;
pub mod builder;
