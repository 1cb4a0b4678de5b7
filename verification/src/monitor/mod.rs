//! Monitors: which are registered, which are due, and what their output says.
pub mod registry;
pub mod runner;
