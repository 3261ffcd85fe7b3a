//! The system interface, as far as the core decides and computes.

pub mod config;
pub mod error;
pub mod file;
pub mod sandbox;
pub mod shell;
