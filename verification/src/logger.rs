//! The lines of the log: how a line is made, when the log file is put
//! aside for a new one, and which lines are its last.

use vstd::prelude::*;
use vstd::string::*;
use crate::calendar::{clock_now, local_stamp};

verus! {

/// The size in bytes from which on the log file is put aside.
pub const MAX_LOG_SIZE: u64 = 1_048_576;

/// How much a log line matters.
#[derive(Clone, Copy, Debug, PartialEq, Eq, Structural)]
pub enum LogLevel {
    Debug,
    Info,
    Warn,
    Error,
}

impl LogLevel {
    /// The word that stands for the level in a log line.
    pub open spec fn spec_label(self) -> Seq<char> {
        match self {
            LogLevel::Debug => "DEBUG"@,
            LogLevel::Info => "INFO"@,
            LogLevel::Warn => "WARN"@,
            LogLevel::Error => "ERROR"@,
        }
    }

    /// The word that stands for the level in a log line.
    pub fn label(self) -> (word: &'static str)
        ensures
            word@ == self.spec_label(),
    {
        match self {
            LogLevel::Debug => "DEBUG",
            LogLevel::Info => "INFO",
            LogLevel::Warn => "WARN",
            LogLevel::Error => "ERROR",
        }
    }
}

/// The log line that says `message` at the level `level`, stamped `stamp`:
/// `[stamp] [LEVEL] message`.
pub open spec fn log_line(stamp: Seq<char>, level: LogLevel, message: Seq<char>) -> Seq<char> {
    "["@ + stamp + "] ["@ + level.spec_label() + "] "@ + message
}

/// Makes the log line that says `message` at the level `level`, stamped
/// `stamp`.
pub fn format_line(stamp: &str, level: LogLevel, message: &str) -> (line: String)
    ensures
        line@ == log_line(stamp@, level, message@),
{
    let mut line = String::from_str("[");
    line.append(stamp);
    line.append("] [");
    line.append(level.label());
    line.append("] ");
    line.append(message);
    line
}

/// The last `lines` of `all`, or all of them where there are no more.
pub open spec fn last_lines(all: Seq<String>, lines: int) -> Seq<String> {
    if all.len() > lines {
        all.subrange(all.len() - lines, all.len() as int)
    } else {
        all
    }
}

/// The log: the file that is written, and the file that an overgrown log
/// is put aside as.
#[derive(Clone, Debug)]
pub struct Logger {
    pub path: String,
    pub old_path: String,
}

impl Logger {
    /// The log that is written at `path` and put aside at `old_path`.
    pub fn new(path: String, old_path: String) -> (logger: Logger)
        ensures
            logger.path == path,
            logger.old_path == old_path,
    {
        Logger { path, old_path }
    }

    /// The line to add to the log for `message` at the level `level`,
    /// stamped with the present local time.
    pub fn log(&self, level: LogLevel, message: &str) -> (line: String)
        ensures
            exists|stamp: Seq<char>| line@ == log_line(stamp, level, message@),
    {
        let now = clock_now();
        let stamp = local_stamp(&now, "%Y-%m-%d %H:%M:%S%.3f");
        format_line(stamp.as_str(), level, message)
    }

    /// The line to add to the log for `message` as information.
    pub fn info(&self, message: &str) -> (line: String)
        ensures
            exists|stamp: Seq<char>| line@ == log_line(stamp, LogLevel::Info, message@),
    {
        self.log(LogLevel::Info, message)
    }

    /// The line to add to the log for `message` as a warning.
    pub fn warn(&self, message: &str) -> (line: String)
        ensures
            exists|stamp: Seq<char>| line@ == log_line(stamp, LogLevel::Warn, message@),
    {
        self.log(LogLevel::Warn, message)
    }

    /// The line to add to the log for `message` as an error.
    pub fn error(&self, message: &str) -> (line: String)
        ensures
            exists|stamp: Seq<char>| line@ == log_line(stamp, LogLevel::Error, message@),
    {
        self.log(LogLevel::Error, message)
    }

    /// The line to add to the log for `message` as a detail for debugging.
    pub fn debug(&self, message: &str) -> (line: String)
        ensures
            exists|stamp: Seq<char>| line@ == log_line(stamp, LogLevel::Debug, message@),
    {
        self.log(LogLevel::Debug, message)
    }

    /// Tells whether the log file, which has `size` bytes (`None` where
    /// there is no file), is to be put aside before the next line.
    pub fn rotate_if_needed(&self, size: Option<u64>) -> (rotate: bool)
        ensures
            rotate == (size matches Some(bytes) && bytes >= MAX_LOG_SIZE),
    {
        match size {
            Some(bytes) => bytes >= MAX_LOG_SIZE,
            None => false,
        }
    }

    /// The last `lines` of the lines `all` of the log.
    pub fn tail(&self, all: Vec<String>, lines: usize) -> (last: Vec<String>)
        ensures
            last@ == last_lines(all@, lines as int),
    {
        if all.len() > lines {
            let mut all = all;
            let from: usize = all.len() - lines;
            let last = all.split_off(from);
            last
        } else {
            all
        }
    }

    /// The path of the log file.
    pub fn path(&self) -> (path: &String)
        ensures
            *path == self.path,
    {
        &self.path
    }
}

} // verus!
