//! Line-oriented text search: a skip policy over paths, a line splitter and a
//! two-mode line matcher, each with a machine-checked contract.
//!
//! The library reads no file and prints nothing. A caller walks the file
//! tree, asks `should_skip_file` which files to leave alone, reads the
//! others and hands their bytes to `search_in_file`; `format_match` renders
//! each match as a report line.

pub mod cli;
pub mod directory;
pub mod fuzzy;
pub mod laws;
pub mod lines;
pub mod matcher;
pub mod report;
pub mod text;
pub mod walker;

pub use cli::{parse_args, parse_options, usage_line, SearchMode, SearchRequest, UsageError};
pub use directory::{search_entry, search_in_directory, WalkedEntry};
pub use lines::split_lines;
pub use matcher::{
    fold_lines, line_matches, lowered_line_matches, search_in_content, search_in_file,
    search_in_lines, FoldedLine,
};
pub use report::{format_match, MatchResult, SkipReason};
pub use walker::{should_prune_dir, should_skip_file};
