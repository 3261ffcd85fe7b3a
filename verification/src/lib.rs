//! Planning core of a local automation agent: a bounded semantic memory, a
//! catalog of task patterns with template synthesis, and the decision
//! procedure that turns a task description into validated code.

pub mod agent;
pub mod browser;
pub mod decimal;
pub mod executor;
pub mod memory;
pub mod pairs;
pub mod planner;
pub mod ranking;
pub mod regex_api;
pub mod split;
pub mod system;
pub mod text;
