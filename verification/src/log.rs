//! What is written to the log.

use vstd::prelude::*;

verus! {

/// The line that tells of `message` in the log.
pub fn log_event(message: &str) -> (line: String)
    ensures
        line@ == message@.push('\n'),
{
    let mut line: String = message.to_owned();
    line.push('\n');
    line
}

/// The line that tells of `message` in the log, where the debug log is on.
pub fn log_debug(enabled: bool, message: &str) -> (line: Option<String>)
    ensures
        match line {
            Some(line) => enabled && line@ == message@.push('\n'),
            None => !enabled,
        },
{
    if enabled {
        Some(log_event(message))
    } else {
        None
    }
}

} // verus!
