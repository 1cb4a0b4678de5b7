//! Agents: the conversation loop, the model's protocol, and the worker around them.
pub mod agent;
pub mod provider;
pub mod tool;
pub mod types;
pub mod worker;
