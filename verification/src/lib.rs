//! Quick search for symbol definitions in various programming languages.
//!
//! Currently this supports Rust, JS (or TypeScript), Python, PHP, and Ruby.
//!
//! This works like "Go to definition" in an IDE, except that instead of a language
//! server it finds the definition by text patterns: less accurate, but often faster
//! in projects with many files or where no language server runs.
//!
//! The library holds the logic of a search: the configuration made from [Args], the
//! file type of a path and the guess of a file type, the regular expression of a
//! query, the pre-scans that skip files without a match, the line-by-line match, the
//! limit on the number of results, and the output formats. Walking directories,
//! reading files and running threads are left to the program around it, which hands
//! the library what it read.
//!
//! ```text
//! $ grepdef --type js -n parseQuery ./src
//! ./src/queries.js:17:function parseQuery {
//! ```

pub mod compiled_regex;
pub mod file_type;
pub mod query_regex;
pub mod search;
pub mod text;

pub use file_type::{
    does_file_match_query, does_file_match_regexp, guess_file_type_from_file_path,
    path_matches_file_type, FileType, QueryPrescan,
};
pub use query_regex::{get_regex_for_query, try_get_regex_for_query, QueryRegex};
pub use search::{
    search_file_line_by_line, Args, ColorOption, Config, ResultLimiter, SearchEventType,
    SearchMethod, SearchResult, SearchResultFormat, Searcher,
};
