//! The native library's log levels.

use vstd::prelude::*;
use vstd::string::StrSliceExecFns;
use crate::error::RumpegError;
use crate::text::chars_of;

verus! {

#[derive(Debug, Clone, Copy, PartialEq, Eq, Structural)]
pub enum LogLevel {
    Quiet,
    Panic,
    Fatal,
    Error,
    Warning,
    Info,
    Verbose,
    Debug,
    Trace,
}

/// Whether `c` is `w`, or the upper-case ASCII letter of `w`.
pub open spec fn same_letter(c: char, w: char) -> bool {
    c == w || ('A' <= c && c <= 'Z' && c as u32 + 32 == w as u32)
}

/// Whether `s` spells `word` (lower-case ASCII) in any mix of cases.
pub open spec fn spells(s: Seq<char>, word: Seq<char>) -> bool {
    s.len() == word.len() && forall|i: int| 0 <= i < s.len() ==> same_letter(#[trigger] s[i], word[i])
}

/// The level that a name stands for. Names are matched without regard to
/// case; no character outside ASCII lowers to one of these letters.
pub open spec fn level_named(s: Seq<char>) -> Option<LogLevel> {
    if spells(s, "quiet"@) {
        Some(LogLevel::Quiet)
    } else if spells(s, "panic"@) {
        Some(LogLevel::Panic)
    } else if spells(s, "fatal"@) {
        Some(LogLevel::Fatal)
    } else if spells(s, "error"@) {
        Some(LogLevel::Error)
    } else if spells(s, "warning"@) {
        Some(LogLevel::Warning)
    } else if spells(s, "info"@) {
        Some(LogLevel::Info)
    } else if spells(s, "verbose"@) {
        Some(LogLevel::Verbose)
    } else if spells(s, "debug"@) {
        Some(LogLevel::Debug)
    } else if spells(s, "trace"@) {
        Some(LogLevel::Trace)
    } else {
        None
    }
}

fn same_letter_exec(c: char, w: char) -> (r: bool)
    ensures
        r == same_letter(c, w),
{
    c == w || ('A' <= c && c <= 'Z' && c as u32 + 32 == w as u32)
}

/// Whether `s` spells `word` in any mix of cases.
pub fn spells_exec(s: &Vec<char>, word: &str) -> (r: bool)
    ensures
        r == spells(s@, word@),
{
    let n = word.unicode_len();
    if s.len() != n {
        return false;
    }
    let mut i: usize = 0;
    while i < n
        invariant
            n == word@.len() == s@.len(),
            i <= n,
            forall|j: int| 0 <= j < i ==> same_letter(#[trigger] s@[j], word@[j]),
        decreases n - i,
    {
        if !same_letter_exec(s[i], word.get_char(i)) {
            return false;
        }
        i += 1;
    }
    true
}

impl LogLevel {
    /// The level's native number.
    pub open spec fn value_spec(self) -> i32 {
        match self {
            LogLevel::Quiet => -8i32,
            LogLevel::Panic => 0i32,
            LogLevel::Fatal => 8i32,
            LogLevel::Error => 16i32,
            LogLevel::Warning => 24i32,
            LogLevel::Info => 32i32,
            LogLevel::Verbose => 40i32,
            LogLevel::Debug => 48i32,
            LogLevel::Trace => 56i32,
        }
    }

    pub fn value(&self) -> (r: i32)
        ensures
            r == self.value_spec(),
    {
        match self {
            LogLevel::Quiet => -8,
            LogLevel::Panic => 0,
            LogLevel::Fatal => 8,
            LogLevel::Error => 16,
            LogLevel::Warning => 24,
            LogLevel::Info => 32,
            LogLevel::Verbose => 40,
            LogLevel::Debug => 48,
            LogLevel::Trace => 56,
        }
    }

    /// Reads a level from its name, in any case; an unknown name is an error.
    pub fn from_str(s: &str) -> (r: Result<LogLevel, RumpegError>)
        ensures
            r == (match level_named(s@) {
                Some(l) => Ok::<LogLevel, RumpegError>(l),
                None => Err(RumpegError::UnknownLogLevel),
            }),
    {
        let c = chars_of(s);
        if spells_exec(&c, "quiet") {
            Ok(LogLevel::Quiet)
        } else if spells_exec(&c, "panic") {
            Ok(LogLevel::Panic)
        } else if spells_exec(&c, "fatal") {
            Ok(LogLevel::Fatal)
        } else if spells_exec(&c, "error") {
            Ok(LogLevel::Error)
        } else if spells_exec(&c, "warning") {
            Ok(LogLevel::Warning)
        } else if spells_exec(&c, "info") {
            Ok(LogLevel::Info)
        } else if spells_exec(&c, "verbose") {
            Ok(LogLevel::Verbose)
        } else if spells_exec(&c, "debug") {
            Ok(LogLevel::Debug)
        } else if spells_exec(&c, "trace") {
            Ok(LogLevel::Trace)
        } else {
            Err(RumpegError::UnknownLogLevel)
        }
    }
}

impl Default for LogLevel {
    fn default() -> (r: LogLevel)
        ensures
            r == LogLevel::Warning,
    {
        LogLevel::Warning
    }
}

} // verus!
