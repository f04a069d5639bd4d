//! Where the server writes its log.

use crate::midi::{contains_text, text_contains};
use std::path::PathBuf;
use vstd::prelude::*;
use vstd::string::StringExecFns;

verus! {

#[verifier::external_type_specification]
#[verifier::external_body]
pub struct ExPathBuf(PathBuf);

/// Whether to log to the console, and the files (if any) to log the
/// server's own records and those of its dependencies to.
#[derive(Debug)]
pub struct LogOptions {
    log_to_console: bool,
    log_to_file: Option<PathBuf>,
    log_dependencies_to_file: Option<PathBuf>,
}

impl Default for LogOptions {
    /// Console logging only.
    fn default() -> (r: Self)
        ensures
            r.console(),
            r.file() is None,
            r.dependencies_file() is None,
    {
        LogOptions { log_to_console: true, log_to_file: None, log_dependencies_to_file: None }
    }
}

impl LogOptions {
    pub closed spec fn console(&self) -> bool {
        self.log_to_console
    }

    pub closed spec fn file(&self) -> Option<PathBuf> {
        self.log_to_file
    }

    pub closed spec fn dependencies_file(&self) -> Option<PathBuf> {
        self.log_dependencies_to_file
    }

    pub fn log_to_console(self, log_to_console: bool) -> (r: Self)
        ensures
            r.console() == log_to_console,
            r.file() == self.file(),
            r.dependencies_file() == self.dependencies_file(),
    {
        let mut r = self;
        r.log_to_console = log_to_console;
        r
    }

    pub fn log_to_file(self, log_to_file: PathBuf) -> (r: Self)
        ensures
            r.console() == self.console(),
            r.file() == Some(log_to_file),
            r.dependencies_file() == self.dependencies_file(),
    {
        let mut r = self;
        r.log_to_file = Some(log_to_file);
        r
    }

    pub fn log_dependencies_to_file(self, log_dependencies_to_file: PathBuf) -> (r: Self)
        ensures
            r.console() == self.console(),
            r.file() == self.file(),
            r.dependencies_file() == Some(log_dependencies_to_file),
    {
        let mut r = self;
        r.log_dependencies_to_file = Some(log_dependencies_to_file);
        r
    }

    /// Whether to log to the console.
    pub fn console_enabled(&self) -> (r: bool)
        ensures
            r == self.console(),
    {
        self.log_to_console
    }

    /// The file for the server's own records, if any.
    pub fn file_path(&self) -> (r: &Option<PathBuf>)
        ensures
            *r == self.file(),
    {
        &self.log_to_file
    }

    /// The file for the records of dependencies, if any.
    pub fn dependencies_file_path(&self) -> (r: &Option<PathBuf>)
        ensures
            *r == self.dependencies_file(),
    {
        &self.log_dependencies_to_file
    }
}

/// A log line: `[time level target] message`.
pub open spec fn spec_log_line(timestamp: Seq<char>, level: Seq<char>, target: Seq<char>, message: Seq<char>) -> Seq<
    char,
> {
    "["@ + timestamp + " "@ + level + " "@ + target + "] "@ + message
}

/// Formats one log record.
pub fn log_line(timestamp: &str, level: &str, target: &str, message: &str) -> (r: String)
    ensures
        r@ == spec_log_line(timestamp@, level@, target@, message@),
{
    let mut line = String::from_str("[");
    line.append(timestamp);
    line.append(" ");
    line.append(level);
    line.append(" ");
    line.append(target);
    line.append("] ");
    line.append(message);
    line
}

/// Whether a record comes from the server itself (its target names `bloop`):
/// the console and the server's log file take only those.
pub fn is_own_record(target: &str) -> (r: bool)
    ensures
        r == contains_text(target@, "bloop"@),
{
    text_contains(target, "bloop")
}

} // verus!
