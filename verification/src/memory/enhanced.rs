//! The semantic store: a vector index, episodic records and facts.

pub mod database;
pub mod facts;
pub mod memory;
pub mod vector_store;
