//! The executor, as far as the core knows it: the first check of code, and
//! the sandbox's decisions.

pub mod config;
pub mod error;
pub mod parser;
pub mod sandbox;
pub mod symbols;
