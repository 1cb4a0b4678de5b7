//! Skills: their declarations, their files, and the conditions that wake an agent.
pub mod loader;
pub mod trigger;
pub mod types;
