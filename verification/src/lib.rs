//! A minimal logging facility: an ordered severity-level model, a build-time
//! marker filter that decides which log call sites are enabled at all, and a
//! write-once dispatcher that fans accepted records out to registered sinks.

pub mod filter;
pub mod level;
pub mod loggers;
pub mod manager;
pub mod registry;
pub mod sink;
pub mod text;

pub use level::LogError;
pub use level::LogLevel;
pub use manager::LoggerManager;
