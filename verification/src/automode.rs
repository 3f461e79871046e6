//! An unattended run: a simulated operator and a worker take turns on one project until a
//! deadline.
//!
//! The operator reads a progress document and decides on the metrics and on the worker's next
//! task. Its decision is rendered into the next progress document. The modules hold what such a
//! run decides and writes: who sends the requests, keeps the files and waits is up to the caller.
pub mod decision;
pub mod decision_laws;
pub mod run_loop;
pub mod runtime;
pub mod runtime_laws;
pub mod state;
pub mod state_laws;
pub mod turn;
pub mod turn_laws;
pub mod types;
