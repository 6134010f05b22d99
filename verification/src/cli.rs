//! The search configuration: what to look for, where, and how to report it.
//!
//! [`Cli`] carries the options one run is invoked with. Argument parsing
//! itself lives outside the library; callers fill the fields and hand the
//! value in.

use vstd::prelude::*;

use crate::pattern::{escape_pattern, regex_compiles, regex_escaped, Pattern};

verus! {

/// How matching rows are rendered.
#[derive(Clone, Copy, PartialEq, Eq, Structural, Debug)]
pub enum OutputFormat {
    /// One comma-joined line per matching row.
    Csv,
    /// A whole-file buffered table.
    Table,
}

/// The options of one search run.
pub struct Cli {
    /// Pattern to search for (a regular expression).
    pub pattern: String,
    /// File or directory to search.
    pub path: String,
    /// Search only in these columns; `None` means every column.
    pub columns: Option<Vec<String>>,
    /// Case-insensitive matching.
    pub ignore_case: bool,
    /// Invert the match: report rows that do not match.
    pub invert: bool,
    /// Show only matching column values, not full rows.
    pub only_matching: bool,
    /// Suppress filename headers in the output.
    pub no_filename: bool,
    /// Print column headers in the output.
    pub with_headers: bool,
    /// Count matching rows per file instead of printing them.
    pub count: bool,
    /// Treat the pattern as a literal string, not a regular expression.
    pub fixed_strings: bool,
    /// Report at most this many matching rows per file.
    pub max_count: Option<usize>,
    /// Disable color output.
    pub no_color: bool,
    /// How matching rows are rendered.
    pub format: OutputFormat,
}

impl Cli {
    /// The pattern text that is actually compiled: the pattern as given, or
    /// its escaped form when it is to be taken literally.
    pub open spec fn spec_effective_pattern(&self) -> Seq<char> {
        if self.fixed_strings {
            regex_escaped(self.pattern@)
        } else {
            self.pattern@
        }
    }

    /// Compiles the search pattern, escaping it first when it is to be taken
    /// literally. Fails exactly when the effective pattern is not a valid
    /// regular expression; an invalid pattern is detected here, before any
    /// file is scanned.
    pub fn build_regex(&self) -> (r: Result<Pattern, String>)
        ensures
            r is Ok <==> regex_compiles(self.spec_effective_pattern(), self.ignore_case),
            r matches Ok(p) ==> p.spec_source() == self.spec_effective_pattern()
                && p.spec_ci() == self.ignore_case,
    {
        if self.fixed_strings {
            let escaped = escape_pattern(self.pattern.as_str());
            Pattern::compile(escaped.as_str(), self.ignore_case)
        } else {
            Pattern::compile(self.pattern.as_str(), self.ignore_case)
        }
    }
}

} // verus!
