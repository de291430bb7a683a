//! The log files of the service: one file for each level and day. What a
//! file is called, when the files are rotated, how many old files go, and
//! what a line looks like. Clock and files are the caller's part.

use vstd::prelude::*;
use vstd::string::*;
use crate::text::{append_decimal, decimal};

verus! {

/// The level of a log record.
#[derive(Debug, Clone, Copy, PartialEq, Eq, Structural)]
pub enum Level {
    Trace,
    Debug,
    Info,
    Warn,
    Error,
}

impl Level {
    /// The name of the level in a file name.
    pub open spec fn file_word(self) -> Seq<char> {
        match self {
            Level::Trace => "trace"@,
            Level::Debug => "debug"@,
            Level::Info => "info"@,
            Level::Warn => "warn"@,
            Level::Error => "error"@,
        }
    }

    /// The name of the level in a log line.
    pub open spec fn line_word(self) -> Seq<char> {
        match self {
            Level::Trace => "TRACE"@,
            Level::Debug => "DEBUG"@,
            Level::Info => "INFO"@,
            Level::Warn => "WARN"@,
            Level::Error => "ERROR"@,
        }
    }

    /// The name of the level in a file name.
    pub fn file_prefix(&self) -> (word: &'static str)
        ensures
            word@ == self.file_word(),
    {
        match self {
            Level::Trace => "trace",
            Level::Debug => "debug",
            Level::Info => "info",
            Level::Warn => "warn",
            Level::Error => "error",
        }
    }

    /// The name of the level in a log line.
    pub fn as_str(&self) -> (word: &'static str)
        ensures
            word@ == self.line_word(),
    {
        match self {
            Level::Trace => "TRACE",
            Level::Debug => "DEBUG",
            Level::Info => "INFO",
            Level::Warn => "WARN",
            Level::Error => "ERROR",
        }
    }
}

/// The name of the file of a level on a day.
pub open spec fn file_name_of(level: Seq<char>, date: Seq<char>) -> Seq<char> {
    level + "_"@ + date + ".log"@
}

/// The place of a record in the source: the file, `unknown` where it is
/// not known, a colon, and the line, `?` where it is not known.
pub open spec fn place_of(file: Option<Seq<char>>, line: Option<u32>) -> Seq<char> {
    (match file {
        Some(f) => f,
        None => "unknown"@,
    }) + ":"@ + (match line {
        Some(n) => decimal(n as nat),
        None => "?"@,
    })
}

/// A log line: the time in brackets, the level, the place in brackets, an
/// arrow, the message and a line feed.
pub open spec fn line_of(
    time: Seq<char>,
    level: Level,
    file: Option<Seq<char>>,
    line: Option<u32>,
    message: Seq<char>,
) -> Seq<char> {
    "["@ + time + "] "@ + level.line_word() + " ["@ + place_of(file, line) + "] -> "@ + message
        + "\n"@
}

/// The state of the writer that rotates the log files.
#[derive(Debug, Clone)]
pub struct LevelBasedWriter {
    log_path: String,
    keep_files: usize,
    current_day: String,
}

impl LevelBasedWriter {
    /// The directory of the log files.
    pub closed spec fn spec_log_path(&self) -> Seq<char> {
        self.log_path@
    }

    /// The number of files that are kept for each level.
    pub closed spec fn spec_keep_files(&self) -> usize {
        self.keep_files
    }

    /// The day of the files that are written to.
    pub closed spec fn spec_current_day(&self) -> Seq<char> {
        self.current_day@
    }

    /// A writer for the files in `log_path` that starts on the day `today`
    /// and keeps `keep_files` files for each level.
    pub fn new(log_path: &str, keep_files: usize, today: &str) -> (writer: Self)
        ensures
            writer.spec_log_path() == log_path@,
            writer.spec_keep_files() == keep_files,
            writer.spec_current_day() == today@,
    {
        LevelBasedWriter {
            log_path: log_path.to_owned(),
            keep_files,
            current_day: today.to_owned(),
        }
    }

    /// The directory of the log files.
    pub fn log_path(&self) -> (path: &str)
        ensures
            path@ == self.spec_log_path(),
    {
        self.log_path.as_str()
    }

    /// The day of the files that are written to.
    pub fn current_day(&self) -> (day: &str)
        ensures
            day@ == self.spec_current_day(),
    {
        self.current_day.as_str()
    }

    /// The name of the file of `level` on the day `date`.
    pub fn open_file(level: &str, date: &str) -> (name: String)
        ensures
            name@ == file_name_of(level@, date@),
    {
        let mut name = String::new();
        name.append(level);
        name.append("_");
        name.append(date);
        name.append(".log");
        assert(name@ =~= file_name_of(level@, date@));
        name
    }

    /// Tells whether the files are to be rotated now that the day is
    /// `today`, and moves on to that day where they are.
    pub fn rotate_if_needed(&mut self, today: &str) -> (rotate: bool)
        ensures
            rotate == (old(self).spec_current_day() != today@),
            final(self).spec_current_day() == today@,
            final(self).spec_log_path() == old(self).spec_log_path(),
            final(self).spec_keep_files() == old(self).spec_keep_files(),
    {
        let day = today.to_owned();
        if self.current_day == day {
            false
        } else {
            self.current_day = day;
            true
        }
    }

    /// The number of files of a level that are to go, oldest first, where
    /// there are `count` of them: those beyond the number that is kept.
    pub fn cleanup_old_files(&self, count: usize) -> (surplus: usize)
        ensures
            count <= self.spec_keep_files() ==> surplus == 0,
            count > self.spec_keep_files() ==> surplus == count - self.spec_keep_files(),
    {
        if count > self.keep_files {
            count - self.keep_files
        } else {
            0
        }
    }

    /// The line for a record.
    pub fn write(time: &str, level: Level, file: Option<&str>, line: Option<u32>, message: &str) -> (text:
        String)
        ensures
            text@ == line_of(
                time@,
                level,
                match file {
                    Some(f) => Some(f@),
                    None => None,
                },
                line,
                message@,
            ),
    {
        let mut place = String::new();
        match file {
            Some(f) => place.append(f),
            None => place.append("unknown"),
        }
        place.append(":");
        match line {
            Some(n) => append_decimal(&mut place, n as u64),
            None => place.append("?"),
        }
        let ghost file_view = match file {
            Some(f) => Some(f@),
            None => None,
        };
        assert(place@ =~= place_of(file_view, line));
        let mut text = String::new();
        text.append("[");
        text.append(time);
        text.append("] ");
        text.append(level.as_str());
        text.append(" [");
        text.append(place.as_str());
        text.append("] -> ");
        text.append(message);
        text.append("\n");
        assert(text@ =~= line_of(time@, level, file_view, line, message@));
        text
    }
}

} // verus!
