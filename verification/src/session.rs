//! An unattended run inside of an interactive session: one turn after the other on the same
//! thread, until the run's time is over or it is stopped.
pub mod command;
pub mod command_laws;
pub mod controller;
pub mod controller_laws;
pub mod document;
pub mod goal;
pub mod goal_laws;
pub mod lines;
pub mod run_laws;
pub mod run_state;
pub mod word_laws;
