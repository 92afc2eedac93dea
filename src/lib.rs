//! Local file discovery and content search: directory-entry selection with
//! ignore/visibility rules, a short-TTL discovery cache, glob and fuzzy
//! matching, a line-oriented match collector with context and pagination,
//! the orchestration that merges per-file results, and descendant
//! enumeration over a process table.

pub mod cache;
pub mod cancel;
pub mod discovery;
pub mod error;
pub mod fuzzy;
pub mod globs;
pub mod grep;
pub mod order;
pub mod process;
pub mod scanner;
pub mod search;
pub mod text;
pub mod types;
