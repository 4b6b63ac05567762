//! Verified core of a stacked-commit testing tool.
//!
//! The crate runs an arbitrary command against every commit in a stack,
//! caches results by tree content, and can rewrite history with the fixes
//! the command produced. The modules here hold the logic that is worth
//! proving: the content-addressed result cache, the request validation
//! rules, the scheduler state machine, the transcript formatting, and the
//! fix planning. Process spawning and repository I/O live outside the
//! verified library and hand plain values in and out.
//!
//! The `record` module holds the data types for the interactive change
//! selector: files, sections, changed lines, and the selection logic that
//! splits a file into its selected and unselected contents.

pub mod cache;
pub mod fix;
pub mod record;
pub mod report;
pub mod request;
pub mod scheduler;
pub mod session;
pub mod text;
