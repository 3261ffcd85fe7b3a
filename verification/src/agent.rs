//! The agent as a whole, as far as the core knows it: its errors.

pub mod error;
