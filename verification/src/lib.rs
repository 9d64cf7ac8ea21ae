//! Verified decision logic of Hunkle's Herdr integration: the header picker,
//! the agent prompt, the Herdr session state, agent timing history, the agent
//! stash, the scheduler's task files and the GitHub issue catalog.

pub mod issues;
pub mod text;
pub mod agent;
pub mod table;
pub mod keyed;
pub mod timing;
pub mod pending;
pub mod input;
pub mod picker;
pub mod prompt;
pub mod layout;
pub mod stash;
pub mod client;
pub mod json;
pub mod scheduler;
pub mod task_file;
pub mod transcript;
pub mod transcript_rows;
pub mod session;
pub mod snapshot;
pub mod replies;
pub mod commands;

pub mod launch;
pub mod runs;
pub mod display;
pub mod github;
pub mod project_tasks;
pub mod store;
pub mod cards;
