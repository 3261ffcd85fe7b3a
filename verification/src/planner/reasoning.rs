//! Pattern matching, template synthesis and the reasoning trace.

pub mod pattern_matcher;
pub mod reasoning_system;
pub mod template_engine;
