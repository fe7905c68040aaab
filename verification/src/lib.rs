//! Pitboss library.

pub mod agent;
pub mod config;
pub mod deferred;
pub mod git;
pub mod grind;
pub mod money;
pub mod paths;
pub mod plan;
pub mod prompts;
pub mod runner;
pub mod state;
pub mod style;
pub mod table;
pub mod test_runner;
pub mod text;
pub mod time;
