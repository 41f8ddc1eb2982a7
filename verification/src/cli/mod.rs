//! The commands: what each is asked to do, and what it decides.

pub mod opts;
pub mod subs;

use vstd::prelude::*;
use vstd::string::*;

verus! {

/// The name of the log level that `level` repetitions of the verbosity flag
/// ask for.
pub open spec fn level_name(level: u64) -> Seq<char> {
    if level == 0 {
        "warn"@
    } else if level == 1 {
        "info"@
    } else if level == 2 {
        "debug"@
    } else {
        "trace"@
    }
}

/// Names the log level that `level` repetitions of the verbosity flag ask
/// for: warnings without the flag, then information, then debugging, and
/// tracing from the third repetition on.
pub fn init_log(level: u64) -> (name: String)
    ensures
        name@ == level_name(level),
{
    match level {
        0 => String::from_str("warn"),
        1 => String::from_str("info"),
        2 => String::from_str("debug"),
        _ => String::from_str("trace"),
    }
}

} // verus!
