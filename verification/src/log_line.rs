//! The layout of a log line.
use vstd::prelude::*;

use crate::shook::webhook::{decimal, decimal_text};

verus! {

/// The severity of a log event.
#[derive(Debug, Clone, Copy, PartialEq, Eq, Structural)]
pub enum LogLevel {
    Trace,
    Debug,
    Info,
    Warn,
    Error,
}

/// The name a level is shown by.
pub open spec fn level_name_spec(level: LogLevel) -> Seq<char> {
    match level {
        LogLevel::Trace => "TRACE"@,
        LogLevel::Debug => "DEBUG"@,
        LogLevel::Info => "INFO"@,
        LogLevel::Warn => "WARN"@,
        LogLevel::Error => "ERROR"@,
    }
}

impl LogLevel {
    /// The name the level is shown by, in capitals.
    pub fn name(&self) -> (r: &'static str)
        ensures
            r@ == level_name_spec(*self),
    {
        match self {
            LogLevel::Trace => "TRACE",
            LogLevel::Debug => "DEBUG",
            LogLevel::Info => "INFO",
            LogLevel::Warn => "WARN",
            LogLevel::Error => "ERROR",
        }
    }
}

/// The head of a log line: time stamp, level, target and source location,
/// each in brackets and followed by a space; an unknown file is shown as
/// `<file>` and an unknown line as `0`.
pub open spec fn log_prefix_spec(
    timestamp: Seq<char>,
    level: Seq<char>,
    target: Seq<char>,
    file: Option<Seq<char>>,
    line: Option<u32>,
) -> Seq<char> {
    let file_text = match file {
        Some(f) => f,
        None => "<file>"@,
    };
    let line_number: nat = match line {
        Some(l) => l as nat,
        None => 0,
    };
    "["@ + timestamp + "] ["@ + level + "] ["@ + target + "] ["@ + file_text + ":"@ + decimal(
        line_number,
    ) + "] "@
}

/// The head of a log line (see [`log_prefix_spec`]); the event's fields
/// follow it.
pub fn log_prefix(
    timestamp: &str,
    level: &str,
    target: &str,
    file: Option<&str>,
    line: Option<u32>,
) -> (r: String)
    ensures
        r@ == log_prefix_spec(
            timestamp@,
            level@,
            target@,
            match file {
                Some(f) => Some(f@),
                None => None,
            },
            line,
        ),
{
    let mut out = "[".to_owned();
    out.append(timestamp);
    out.append("] [");
    out.append(level);
    out.append("] [");
    out.append(target);
    out.append("] [");
    match file {
        Some(f) => out.append(f),
        None => out.append("<file>"),
    }
    out.append(":");
    let number: u32 = match line {
        Some(l) => l,
        None => 0,
    };
    out.append(decimal_text(number as usize).as_str());
    out.append("] ");
    out
}

} // verus!
