//! Verified core of the Nicy Luau runtime: error records and their rendering,
//! source directives, module path resolution and the cooperative task scheduler.
//! The Lua state, the file system and the process edge live in the host program.

pub mod text;
pub mod error;
pub mod scheduler;
pub mod resolver;
pub mod directives;
pub mod host;
pub mod cli;

pub use error::{NicyError, RequireChain};
pub use error::report::ErrorReporter;
