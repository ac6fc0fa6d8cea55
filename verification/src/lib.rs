//! Supervision of latency probes: the rules by which probe output becomes
//! samples, probe commands are built, and sessions are started and stopped.

pub mod command;
pub mod event;
pub mod laws;
pub mod line;
pub mod model;
pub mod pattern;
pub mod registry;
pub mod text;
pub mod unicode;
