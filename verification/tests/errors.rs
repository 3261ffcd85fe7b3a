use anarchy_agent::agent::error::Error as AgentError;
use anarchy_agent::browser::error::Error as BrowserError;
use anarchy_agent::executor::error::Error as ExecutorError;
use anarchy_agent::memory::error::Error as MemoryError;
use anarchy_agent::planner::error::Error as PlannerError;
use anarchy_agent::system::error::Error as SystemError;

fn d() -> String {
    "detail".to_string()
}

#[test]
fn every_memory_error_has_its_message() {
    assert_eq!(MemoryError::DatabaseInitializationError(d()).message(), "Database initialization error: detail");
    assert_eq!(MemoryError::DatabaseConnectionError(d()).message(), "Database connection error: detail");
    assert_eq!(MemoryError::QueryExecutionError(d()).message(), "Query execution error: detail");
    assert_eq!(MemoryError::KeyNotFoundError(d()).message(), "Key not found: detail");
    assert_eq!(MemoryError::VectorStoreError(d()).message(), "Vector store error: detail");
    assert_eq!(MemoryError::SemanticSearchError(d()).message(), "Semantic search error: detail");
    assert_eq!(MemoryError::FileOperationError(d()).message(), "File operation error: detail");
    assert_eq!(MemoryError::SerializationError(d()).message(), "Serialization error: detail");
    assert_eq!(MemoryError::UnsupportedOperationError(d()).message(), "Unsupported operation: detail");
}

#[test]
fn every_planner_error_has_its_message() {
    assert_eq!(PlannerError::LlmInitializationError(d()).message(), "LLM initialization error: detail");
    assert_eq!(PlannerError::ModelLoadingError(d()).message(), "Model loading error: detail");
    assert_eq!(PlannerError::GenerationError(d()).message(), "Generation error: detail");
    assert_eq!(PlannerError::ValidationError(d()).message(), "Validation error: detail");
    assert_eq!(PlannerError::MemoryError(d()).message(), "Memory access error: detail");
    assert_eq!(PlannerError::InvalidPattern(d()).message(), "Invalid pattern: detail");
    assert_eq!(PlannerError::Unknown(d()).message(), "Unknown error: detail");
}

#[test]
fn every_executor_error_has_its_message() {
    assert_eq!(ExecutorError::SandboxInitializationError(d()).message(), "Sandbox initialization error: detail");
    assert_eq!(ExecutorError::CodeExecutionError(d()).message(), "Code execution error: detail");
    assert_eq!(ExecutorError::SymbolRegistrationError(d()).message(), "Symbol registration error: detail");
    assert_eq!(ExecutorError::CodeParsingError(d()).message(), "Code parsing error: detail");
    assert_eq!(ExecutorError::SandboxShutdownError(d()).message(), "Sandbox shutdown error: detail");
    assert_eq!(ExecutorError::InputError(d()).message(), "Input error: detail");
    assert_eq!(ExecutorError::OutputError(d()).message(), "Output error: detail");
    assert_eq!(ExecutorError::FileWaitError(d()).message(), "File wait error: detail");
}

#[test]
fn every_system_error_has_its_message() {
    assert_eq!(SystemError::SandboxInitializationError(d()).message(), "Sandbox initialization error: detail");
    assert_eq!(SystemError::FileSystemError(d()).message(), "File system error: detail");
    assert_eq!(SystemError::ShellExecutionError(d()).message(), "Shell execution error: detail");
    assert_eq!(SystemError::PermissionDenied(d()).message(), "Permission denied: detail");
    assert_eq!(SystemError::PathNotAllowed(d()).message(), "Path not allowed: detail");
    assert_eq!(SystemError::CommandNotAllowed(d()).message(), "Command not allowed: detail");
    assert_eq!(SystemError::TimeoutError(d()).message(), "Timeout error: detail");
    assert_eq!(SystemError::Unknown(d()).message(), "Unknown error: detail");
}

#[test]
fn every_browser_error_has_its_message() {
    assert_eq!(BrowserError::BrowserInitializationError(d()).message(), "Browser initialization error: detail");
    assert_eq!(BrowserError::NavigationError(d()).message(), "Navigation error: detail");
    assert_eq!(BrowserError::ElementInteractionError(d()).message(), "Element interaction error: detail");
    assert_eq!(BrowserError::JavaScriptError(d()).message(), "JavaScript execution error: detail");
    assert_eq!(BrowserError::TimeoutError(d()).message(), "Timeout error: detail");
    assert_eq!(BrowserError::Unknown(d()).message(), "Unknown error: detail");
}

#[test]
fn every_agent_error_has_its_message() {
    assert_eq!(AgentError::InitializationError(d()).message(), "Initialization error: detail");
    assert_eq!(AgentError::PlannerError(d()).message(), "Planner error: detail");
    assert_eq!(AgentError::ExecutorError(d()).message(), "Executor error: detail");
    assert_eq!(AgentError::MemoryError(d()).message(), "Memory error: detail");
    assert_eq!(AgentError::BrowserError(d()).message(), "Browser error: detail");
    assert_eq!(AgentError::SystemError(d()).message(), "System error: detail");
    assert_eq!(AgentError::ConfigError(d()).message(), "Configuration error: detail");
    assert_eq!(AgentError::Unknown(d()).message(), "Unknown error: detail");
}
