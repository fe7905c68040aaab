//! Grind: rotating prompt sessions over one repository.

pub mod budget;
pub mod discovery;
pub mod dry_run;
pub mod events;
pub mod hooks;
pub mod plan;
pub mod prompt;
pub mod run;
pub mod run_dir;
pub mod scheduler;
pub mod session;
pub mod state;
pub mod templates;
pub mod verify;
pub mod worktree;
