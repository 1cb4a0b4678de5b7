pub mod agent;
pub mod channel;
pub mod controller;
pub mod crd;
pub mod json;
pub mod monitor;
pub mod path;
pub mod pipeline;
pub mod skill;
pub mod table;
pub mod text;
pub mod tools;
pub mod types;
