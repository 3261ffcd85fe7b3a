//! Errors of the memory.

use vstd::prelude::*;
use vstd::string::StringExecFns;

verus! {

/// What can go wrong in the memory.
#[derive(Debug)]
pub enum Error {
    /// The database could not be set up.
    DatabaseInitializationError(String),
    /// The database could not be reached.
    DatabaseConnectionError(String),
    /// A query failed.
    QueryExecutionError(String),
    /// No fact is stored under the key.
    KeyNotFoundError(String),
    /// The vector index failed.
    VectorStoreError(String),
    /// The semantic search failed.
    SemanticSearchError(String),
    /// A file could not be read or written.
    FileOperationError(String),
    /// A document could not be encoded or decoded.
    SerializationError(String),
    /// The memory does not offer the operation.
    UnsupportedOperationError(String),
}

impl Error {
    /// The text that every message of this variant begins with.
    pub open spec fn prefix(&self) -> Seq<char> {
        match self {
            Error::DatabaseInitializationError(_) => "Database initialization error: "@,
            Error::DatabaseConnectionError(_) => "Database connection error: "@,
            Error::QueryExecutionError(_) => "Query execution error: "@,
            Error::KeyNotFoundError(_) => "Key not found: "@,
            Error::VectorStoreError(_) => "Vector store error: "@,
            Error::SemanticSearchError(_) => "Semantic search error: "@,
            Error::FileOperationError(_) => "File operation error: "@,
            Error::SerializationError(_) => "Serialization error: "@,
            Error::UnsupportedOperationError(_) => "Unsupported operation: "@,
        }
    }

    /// The detail that the error carries.
    pub open spec fn detail(&self) -> Seq<char> {
        match self {
            Error::DatabaseInitializationError(m) => m@,
            Error::DatabaseConnectionError(m) => m@,
            Error::QueryExecutionError(m) => m@,
            Error::KeyNotFoundError(m) => m@,
            Error::VectorStoreError(m) => m@,
            Error::SemanticSearchError(m) => m@,
            Error::FileOperationError(m) => m@,
            Error::SerializationError(m) => m@,
            Error::UnsupportedOperationError(m) => m@,
        }
    }

    /// The message of the error: the variant's prefix, then the detail.
    pub fn message(&self) -> (r: String)
        ensures
            r@ == self.prefix() + self.detail(),
    {
        match self {
            Error::DatabaseInitializationError(m) => String::from_str(
                "Database initialization error: ",
            ).concat(m.as_str()),
            Error::DatabaseConnectionError(m) => String::from_str(
                "Database connection error: ",
            ).concat(m.as_str()),
            Error::QueryExecutionError(m) => String::from_str("Query execution error: ").concat(
                m.as_str(),
            ),
            Error::KeyNotFoundError(m) => String::from_str("Key not found: ").concat(m.as_str()),
            Error::VectorStoreError(m) => String::from_str("Vector store error: ").concat(
                m.as_str(),
            ),
            Error::SemanticSearchError(m) => String::from_str("Semantic search error: ").concat(
                m.as_str(),
            ),
            Error::FileOperationError(m) => String::from_str("File operation error: ").concat(
                m.as_str(),
            ),
            Error::SerializationError(m) => String::from_str("Serialization error: ").concat(
                m.as_str(),
            ),
            Error::UnsupportedOperationError(m) => String::from_str(
                "Unsupported operation: ",
            ).concat(m.as_str()),
        }
    }
}

} // verus!
