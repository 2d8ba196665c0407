//! Command-line arguments: flags and `-name value` options.

use vstd::prelude::*;
use crate::loglevel::{LogLevel, level_named};
use crate::query::{i32_arg, position_arg, end_or_whole, step_or_one};
use crate::text::{chars_of, slice_is, parse_i64};
use crate::timespec::SeekPosition;

verus! {

#[derive(Debug, Clone, Copy, PartialEq, Eq, Structural)]
pub enum CLIError {
    /// No video file was named.
    FilepathMissing,
}

#[derive(Debug, Clone)]
pub struct CLIArgs {
    /// `-host`: serve frames over HTTP instead of writing files.
    pub host: bool,
    /// `-f`: also write a mosaic.
    pub film: bool,
    /// `-d`: print the video's details.
    pub debug: bool,
    /// The first argument after the program name.
    pub filepath: String,
    /// `-h`
    pub height: i32,
    /// `-s`
    pub seek_position: SeekPosition,
    /// `-w`
    pub width: i32,
    /// `-l`
    pub log_level: LogLevel,
    /// `-e`; tick 0 stands for the whole stream.
    pub end: SeekPosition,
    /// `-step`; tick 0 stands for one tick.
    pub step: SeekPosition,
}

/// The index of the first argument at or after `i` that is `name`.
pub open spec fn name_index(args: Seq<String>, name: Seq<char>, i: int) -> int
    decreases args.len() - i,
{
    if i >= args.len() || i < 0 {
        args.len() as int
    } else if args[i]@ == name {
        i
    } else {
        name_index(args, name, i + 1)
    }
}

/// The argument that follows the first `name`, if any.
pub open spec fn option_value(args: Seq<String>, name: Seq<char>) -> Option<Seq<char>> {
    let i = name_index(args, name, 0);
    if i + 1 < args.len() {
        Some(args[i + 1]@)
    } else {
        None
    }
}

/// A log level option: the level named, or the default where it is missing or unknown.
pub open spec fn level_arg(v: Option<Seq<char>>) -> LogLevel {
    match v {
        Some(s) => match level_named(s) {
            Some(l) => l,
            None => LogLevel::Warning,
        },
        None => LogLevel::Warning,
    }
}

fn is_name(a: &String, name: &str) -> (r: bool)
    ensures
        r == (a@ == name@),
{
    let c = chars_of(a.as_str());
    assert(c@.subrange(0, c@.len() as int) == c@);
    slice_is(&c, 0, c.len(), name)
}

impl CLIArgs {
    /// Whether `arg_name` is one of the arguments.
    pub fn find_flag(args: &Vec<String>, arg_name: &str) -> (r: bool)
        ensures
            r == exists|k: int| 0 <= k < args@.len() && #[trigger] args@[k]@ == arg_name@,
    {
        let mut i: usize = 0;
        while i < args.len()
            invariant
                i <= args@.len(),
                forall|k: int| 0 <= k < i ==> #[trigger] args@[k]@ != arg_name@,
            decreases args@.len() - i,
        {
            if is_name(&args[i], arg_name) {
                return true;
            }
            i += 1;
        }
        false
    }

    /// The argument after the first `arg_name`, if there is one.
    pub fn find_arg(args: &Vec<String>, arg_name: &str) -> (r: Option<String>)
        ensures
            match option_value(args@, arg_name@) {
                Some(v) => (r matches Some(s) && s@ == v),
                None => r is None,
            },
    {
        let mut i: usize = 0;
        while i < args.len()
            invariant
                i <= args@.len(),
                name_index(args@, arg_name@, 0) == name_index(args@, arg_name@, i as int),
            decreases args@.len() - i,
        {
            if is_name(&args[i], arg_name) {
                if i + 1 < args.len() {
                    return Some(args[i + 1].clone());
                }
                return None;
            }
            i += 1;
        }
        None
    }

    /// Reads the arguments of the program (`args[0]` is the program itself):
    /// the video file first, then flags and options in any order; a missing
    /// or unreadable option takes its default.
    pub fn from_args(args: &Vec<String>) -> (r: Result<CLIArgs, CLIError>)
        ensures
            args@.len() < 2 ==> r == Err::<CLIArgs, CLIError>(CLIError::FilepathMissing),
            args@.len() >= 2 ==> (r matches Ok(a) && {
                &&& a.filepath@ == args@[1]@
                &&& a.host == exists|k: int| 0 <= k < args@.len() && #[trigger] args@[k]@ == "-host"@
                &&& a.film == exists|k: int| 0 <= k < args@.len() && #[trigger] args@[k]@ == "-f"@
                &&& a.debug == exists|k: int| 0 <= k < args@.len() && #[trigger] args@[k]@ == "-d"@
                &&& a.height == i32_arg(option_value(args@, "-h"@))
                &&& a.width == i32_arg(option_value(args@, "-w"@))
                &&& a.seek_position == position_arg(option_value(args@, "-s"@))
                &&& a.log_level == level_arg(option_value(args@, "-l"@))
                &&& a.end == end_or_whole(position_arg(option_value(args@, "-e"@)))
                &&& a.step == step_or_one(position_arg(option_value(args@, "-step"@)))
            }),
    {
        if args.len() < 2 {
            return Err(CLIError::FilepathMissing);
        }
        let end = match position_option(args, "-e") {
            SeekPosition::TimeBase(0) => SeekPosition::Percentage(crate::timespec::Fraction { num: 1, den: 1 }),
            n => n,
        };
        let step = match position_option(args, "-step") {
            SeekPosition::TimeBase(0) => SeekPosition::TimeBase(1),
            n => n,
        };
        let log_level = match CLIArgs::find_arg(args, "-l") {
            Some(s) => match LogLevel::from_str(s.as_str()) {
                Ok(l) => l,
                Err(_) => LogLevel::Warning,
            },
            None => LogLevel::Warning,
        };
        Ok(CLIArgs {
            host: CLIArgs::find_flag(args, "-host"),
            film: CLIArgs::find_flag(args, "-f"),
            debug: CLIArgs::find_flag(args, "-d"),
            filepath: args[1].clone(),
            height: i32_option(args, "-h"),
            seek_position: position_option(args, "-s"),
            width: i32_option(args, "-w"),
            log_level,
            end,
            step,
        })
    }
}

fn i32_option(args: &Vec<String>, name: &str) -> (r: i32)
    ensures
        r == i32_arg(option_value(args@, name@)),
{
    match CLIArgs::find_arg(args, name) {
        Some(s) => {
            let c = chars_of(s.as_str());
            assert(c@.subrange(0, c@.len() as int) == c@);
            match parse_i64(&c, 0, c.len()) {
                Some(x) => if i32::MIN as i64 <= x && x <= i32::MAX as i64 {
                    x as i32
                } else {
                    0
                },
                None => 0,
            }
        },
        None => 0,
    }
}

fn position_option(args: &Vec<String>, name: &str) -> (r: SeekPosition)
    ensures
        r == position_arg(option_value(args@, name@)),
{
    match CLIArgs::find_arg(args, name) {
        Some(s) => match SeekPosition::parse(s.as_str()) {
            Ok(p) => p,
            Err(_) => SeekPosition::TimeBase(0),
        },
        None => SeekPosition::TimeBase(0),
    }
}

} // verus!
