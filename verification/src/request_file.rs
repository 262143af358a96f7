//! How a request file is named and how its creation is tried again.

use crate::decimal::{all_digits, decimal_of, is_digit, lemma_decimal_of, push_decimal};
use vstd::prelude::*;

verus! {

/// How many names are tried for one request file.
pub const MAX_CREATE_ATTEMPTS: u32 = 16;

/// The error when every name that was tried is taken.
pub const NO_FREE_NAME_MESSAGE: &'static str = "unable to allocate a unique helper request file";

/// The name of the request file that the process `pid` makes at `timestamp` (in milliseconds), as
/// its file number `counter`.
pub open spec fn request_file_name_of(pid: nat, timestamp: nat, counter: nat) -> Seq<char> {
    "iobitunlocker-shell-bridge-"@ + decimal_of(pid).push('-') + decimal_of(timestamp).push('-')
        + decimal_of(counter) + ".req"@
}

/// The name of the request file that the process `pid` makes at `timestamp` (in milliseconds), as
/// its file number `counter`.
pub fn request_file_name(pid: u32, timestamp: u128, counter: u64) -> (name: String)
    ensures
        name@ == request_file_name_of(pid as nat, timestamp as nat, counter as nat),
{
    let mut name = String::new();
    name.append("iobitunlocker-shell-bridge-");
    push_decimal(&mut name, pid as u128);
    name.push('-');
    push_decimal(&mut name, timestamp);
    name.push('-');
    push_decimal(&mut name, counter as u128);
    name.append(".req");
    name
}

/// What came of an attempt to create a request file.
#[derive(Clone, Copy, Debug, Eq, PartialEq, Structural)]
pub enum CreateOutcome {
    Created,
    AlreadyExists,
    OtherError,
}

/// What to do after an attempt to create a request file.
#[derive(Clone, Copy, Debug, Eq, PartialEq, Structural)]
pub enum CreateStep {
    /// Write the request to the file that was created.
    WriteRequest,
    /// Try the next name.
    TryNextName,
    /// Give up, with `NO_FREE_NAME_MESSAGE`.
    GiveUp,
    /// Give up, with the error of the attempt.
    PassErrorOn,
}

/// What to do after the attempt number `attempt`, counted from zero.
pub open spec fn create_step_after(attempt: int, outcome: CreateOutcome) -> CreateStep {
    match outcome {
        CreateOutcome::Created => CreateStep::WriteRequest,
        CreateOutcome::AlreadyExists => if attempt + 1 < 16 {
            CreateStep::TryNextName
        } else {
            CreateStep::GiveUp
        },
        CreateOutcome::OtherError => CreateStep::PassErrorOn,
    }
}

/// What to do after the attempt number `attempt`, counted from zero.
pub fn next_create_step(attempt: u32, outcome: CreateOutcome) -> (step: CreateStep)
    ensures
        step == create_step_after(attempt as int, outcome),
{
    match outcome {
        CreateOutcome::Created => CreateStep::WriteRequest,
        CreateOutcome::AlreadyExists => {
            if attempt < MAX_CREATE_ATTEMPTS - 1 {
                CreateStep::TryNextName
            } else {
                CreateStep::GiveUp
            }
        },
        CreateOutcome::OtherError => CreateStep::PassErrorOn,
    }
}

/// Digits before a hyphen are told from what follows it.
proof fn lemma_hyphen_splits(a: Seq<char>, x: Seq<char>, b: Seq<char>, y: Seq<char>)
    requires
        all_digits(a),
        all_digits(b),
        a.push('-') + x == b.push('-') + y,
    ensures
        a == b,
        x == y,
{
    let s = a.push('-') + x;
    let t = b.push('-') + y;
    if a.len() < b.len() {
        assert(s[a.len() as int] == '-');
        assert(t[a.len() as int] == b[a.len() as int]);
        assert(is_digit(b[a.len() as int]));
    } else if b.len() < a.len() {
        assert(t[b.len() as int] == '-');
        assert(s[b.len() as int] == a[b.len() as int]);
        assert(is_digit(a[b.len() as int]));
    } else {
        assert forall|i: int| 0 <= i < a.len() implies a[i] == b[i] by {
            assert(a[i] == s[i]);
            assert(b[i] == t[i]);
        }
        assert(a == b);
        assert(x == s.skip(a.len() as int + 1));
        assert(y == t.skip(b.len() as int + 1));
    }
}

/// No two of process, time and file number give the same name.
pub proof fn request_file_names_are_unique(
    pid: nat,
    timestamp: nat,
    counter: nat,
    other_pid: nat,
    other_timestamp: nat,
    other_counter: nat,
)
    requires
        request_file_name_of(pid, timestamp, counter) == request_file_name_of(
            other_pid,
            other_timestamp,
            other_counter,
        ),
    ensures
        pid == other_pid,
        timestamp == other_timestamp,
        counter == other_counter,
{
    let prefix = "iobitunlocker-shell-bridge-"@;
    let suffix = ".req"@;
    let s = request_file_name_of(pid, timestamp, counter);
    let t = request_file_name_of(other_pid, other_timestamp, other_counter);
    let s_last = decimal_of(counter) + suffix;
    let t_last = decimal_of(other_counter) + suffix;
    let s_rest = decimal_of(timestamp).push('-') + s_last;
    let t_rest = decimal_of(other_timestamp).push('-') + t_last;
    assert(s == prefix + (decimal_of(pid).push('-') + s_rest));
    assert(t == prefix + (decimal_of(other_pid).push('-') + t_rest));
    assert(s.skip(prefix.len() as int) == decimal_of(pid).push('-') + s_rest);
    assert(t.skip(prefix.len() as int) == decimal_of(other_pid).push('-') + t_rest);
    lemma_decimal_of(pid);
    lemma_decimal_of(other_pid);
    lemma_hyphen_splits(decimal_of(pid), s_rest, decimal_of(other_pid), t_rest);
    lemma_decimal_of(timestamp);
    lemma_decimal_of(other_timestamp);
    lemma_hyphen_splits(decimal_of(timestamp), s_last, decimal_of(other_timestamp), t_last);
    lemma_decimal_of(counter);
    lemma_decimal_of(other_counter);
    assert(decimal_of(counter) == s_last.take(s_last.len() - suffix.len()));
    assert(decimal_of(other_counter) == t_last.take(t_last.len() - suffix.len()));
}

/// The name holds the three numbers in full, in decimal and with a hyphen before each, between a
/// beginning and an ending that are always the same.
pub proof fn request_file_names_hold_their_numbers(pid: nat, timestamp: nat, counter: nat)
    ensures
        request_file_name_of(pid, timestamp, counter) == "iobitunlocker-shell-bridge"@ + seq!['-']
            + decimal_of(pid) + seq!['-'] + decimal_of(timestamp) + seq!['-'] + decimal_of(counter)
            + ".req"@,
{
    reveal_strlit("iobitunlocker-shell-bridge-");
    reveal_strlit("iobitunlocker-shell-bridge");
    assert("iobitunlocker-shell-bridge-"@ == "iobitunlocker-shell-bridge"@ + seq!['-']);
    assert(request_file_name_of(pid, timestamp, counter) == "iobitunlocker-shell-bridge"@ + seq![
        '-',
    ] + decimal_of(pid) + seq!['-'] + decimal_of(timestamp) + seq!['-'] + decimal_of(counter)
        + ".req"@);
}

/// Another name is tried while names are taken, until sixteen have been tried; a file that was
/// created is written to, and any other error ends the attempts, whichever of them it comes to.
pub proof fn sixteen_names_are_tried(attempt: int, outcome: CreateOutcome)
    ensures
        ({
            let step = create_step_after(attempt, outcome);
            &&& step == CreateStep::WriteRequest <==> outcome == CreateOutcome::Created
            &&& step == CreateStep::PassErrorOn <==> outcome == CreateOutcome::OtherError
            &&& step == CreateStep::TryNextName <==> outcome == CreateOutcome::AlreadyExists
                && attempt <= 14
            &&& step == CreateStep::GiveUp <==> outcome == CreateOutcome::AlreadyExists && attempt
                >= 15
        }),
{
}

} // verus!
