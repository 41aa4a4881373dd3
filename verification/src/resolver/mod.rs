//! Module resolution for `require` and `runtime.loadlib`: specifiers to base paths,
//! candidate files, `.luaurc` aliases, and the per-runtime module registry.
pub mod paths;
pub mod aliases;
pub mod registry;
