//! Unattended runs of a coding agent, and the patch format that the agent writes.
pub mod automode;
pub mod cli;
pub mod duration;
pub mod duration_laws;
pub mod json;
pub mod patch;
pub mod paths;
pub mod session;
pub mod shell;
pub mod text;
pub mod update_action;
pub mod view_laws;
