//! Results: the file in which the worker says what came of a request.

use crate::decimal::{
    decimal_of, decimal_reads_back, is_digit, lemma_decimal_of, push_decimal, read_u32, read_u32_of,
};
use crate::ini::{
    entry, entry_of, is_line_key, is_line_value, lemma_entry_of, lemma_trimmed_is_line_value,
    line_of, line_reads_back,
};
use crate::text::{
    chars_of, index_of, lemma_index_of, lemma_index_of_is, lemma_lines_of_concat,
    lemma_lines_of_behind, lemma_lines_of_hold_no_line_feed, lemma_lines_of_line,
    lemma_lines_of_push, lemma_trim_end_of_behind, lemma_trim_end_then_trim, lemma_trim_of_fixed,
    lines, lines_of, reads, split_once, split_once_of, text_of, trim, trim_end_of, trim_of,
    trim_start_of,
};
use vstd::prelude::*;

verus! {

/// A path for which the driver reported a status other than zero.
#[derive(Clone, Debug)]
pub struct FailedPathResult {
    pub path: String,
    pub status: u32,
}

/// What came of a request.
#[derive(Clone, Debug)]
pub struct HelperResult {
    pub reboot_required: bool,
    pub error_message: Option<String>,
    pub failed: Vec<FailedPathResult>,
}

/// What a `FailedPathResult` holds.
pub struct Failure {
    pub path: Seq<char>,
    pub status: u32,
}

/// What a `HelperResult` holds.
pub struct Outcome {
    pub reboot_required: bool,
    pub error_message: Option<Seq<char>>,
    pub failed: Seq<Failure>,
}

impl View for FailedPathResult {
    type V = Failure;

    open spec fn view(&self) -> Failure {
        Failure { path: self.path@, status: self.status }
    }
}

/// The contents of a row of failures.
pub open spec fn failures_of(failed: Seq<FailedPathResult>) -> Seq<Failure> {
    failed.map_values(|failure: FailedPathResult| failure@)
}

impl View for HelperResult {
    type V = Outcome;

    open spec fn view(&self) -> Outcome {
        Outcome {
            reboot_required: self.reboot_required,
            error_message: match self.error_message {
                Some(message) => Some(message@),
                None => None,
            },
            failed: failures_of(self.failed@),
        }
    }
}

/// The outcome when nothing failed and nothing is left to do.
pub open spec fn clean_outcome() -> Outcome {
    Outcome { reboot_required: false, error_message: None, failed: seq![] }
}

impl Default for HelperResult {
    fn default() -> (r: Self)
        ensures
            r@ == clean_outcome(),
    {
        let r = HelperResult { reboot_required: false, error_message: None, failed: Vec::new() };
        assert(r@.failed == Seq::<Failure>::empty());
        r
    }
}

/// A failure as the value of its line.
pub open spec fn failure_value_of(failure: Failure) -> Seq<char> {
    decimal_of(failure.status as nat).push('|') + failure.path
}

/// The lines that name failures.
pub open spec fn failure_lines_of(failed: Seq<Failure>) -> Seq<char>
    decreases failed.len(),
{
    if failed.len() == 0 {
        seq![]
    } else {
        failure_lines_of(failed.drop_last()) + line_of(
            "failed"@,
            failure_value_of(failed.last()),
        ).push('\n')
    }
}

/// The lines before those of the failures.
pub open spec fn outcome_head_of(outcome: Outcome) -> Seq<char> {
    let reboot = line_of(
        "reboot_required"@,
        if outcome.reboot_required {
            "1"@
        } else {
            "0"@
        },
    ).push('\n');
    match outcome.error_message {
        Some(message) => reboot + line_of("error"@, message).push('\n'),
        None => reboot,
    }
}

/// The content of the file that holds `outcome`.
pub open spec fn outcome_text_of(outcome: Outcome) -> Seq<char> {
    outcome_head_of(outcome) + failure_lines_of(outcome.failed)
}

/// The failure that a value reads: a status and a path that is not empty, with `|` between them.
pub open spec fn failure_of(value: Seq<char>) -> Option<Failure> {
    match split_once_of(value, '|') {
        Some((status, path)) => match read_u32_of(trim_of(status)) {
            Some(status) => if trim_of(path).len() > 0 {
                Some(Failure { path: trim_of(path), status })
            } else {
                None
            },
            None => None,
        },
        None => None,
    }
}

/// The values that say that a restart is needed.
pub open spec fn says_reboot(value: Seq<char>) -> bool {
    let word = trim_of(value);
    word == "1"@ || word == "true"@ || word == "True"@ || word == "TRUE"@
}

/// `outcome` after `line`.
pub open spec fn outcome_after(outcome: Outcome, line: Seq<char>) -> Outcome {
    match entry_of(line) {
        Some((key, value)) => if key == "reboot_required"@ {
            Outcome { reboot_required: says_reboot(value), ..outcome }
        } else if key == "error"@ {
            if trim_of(value).len() > 0 {
                Outcome { error_message: Some(trim_of(value)), ..outcome }
            } else {
                outcome
            }
        } else if key == "failed"@ {
            match failure_of(value) {
                Some(failure) => Outcome { failed: outcome.failed.push(failure), ..outcome },
                None => outcome,
            }
        } else {
            outcome
        },
        None => outcome,
    }
}

/// The outcome that the file `content` gives.
pub open spec fn outcome_of(content: Seq<char>) -> Outcome {
    lines_of(content).fold_left(
        clean_outcome(),
        |outcome: Outcome, line: Seq<char>| outcome_after(outcome, line),
    )
}

/// The content of the file that holds `result`.
pub fn result_file_text(result: &HelperResult) -> (text: String)
    ensures
        text@ == outcome_text_of(result@),
{
    let mut text = String::new();
    proof {
        reveal_strlit("reboot_required=");
        reveal_strlit("reboot_required");
        reveal_strlit("error=");
        reveal_strlit("error");
        reveal_strlit("failed=");
        reveal_strlit("failed");
        assert("reboot_required="@ == "reboot_required"@.push('='));
        assert("error="@ == "error"@.push('='));
        assert("failed="@ == "failed"@.push('='));
    }
    text.append("reboot_required=");
    if result.reboot_required {
        text.append("1");
    } else {
        text.append("0");
    }
    text.push('\n');
    if let Some(message) = &result.error_message {
        let ghost before = text@;
        text.append("error=");
        text.append(message.as_str());
        text.push('\n');
        assert(text@ == before + line_of("error"@, message@).push('\n'));
    }
    let ghost head = outcome_head_of(result@);
    let ghost failed = result@.failed;
    assert(text@ == head);
    for i in 0..result.failed.len()
        invariant
            failed == failures_of(result.failed@),
            "failed="@ == "failed"@.push('='),
            text@ == head + failure_lines_of(failed.take(i as int)),
    {
        let ghost before = text@;
        text.append("failed=");
        push_decimal(&mut text, result.failed[i].status as u128);
        text.push('|');
        text.append(result.failed[i].path.as_str());
        text.push('\n');
        assert(failed[i as int] == result.failed@[i as int]@);
        assert(text@ == before + line_of("failed"@, failure_value_of(failed[i as int])).push(
            '\n',
        ));
        assert(failed.take(i + 1).drop_last() == failed.take(i as int));
    }
    assert(failed.take(failed.len() as int) == failed);
    text
}

/// The failure that a value reads, if it reads one.
fn failure(value: &[char]) -> (r: Option<FailedPathResult>)
    ensures
        match r {
            Some(failure) => failure_of(value@) == Some(failure@),
            None => failure_of(value@) is None,
        },
{
    match split_once(value, '|') {
        Some((status, path)) => match read_u32(trim(status)) {
            Some(status) => {
                let path: &[char] = trim(path);
                if path.len() > 0 {
                    Some(FailedPathResult { path: text_of(path), status })
                } else {
                    None
                }
            },
            None => None,
        },
        None => None,
    }
}

impl HelperResult {
    /// Takes in one line of the file.
    fn take_line(&mut self, line: &[char])
        ensures
            final(self)@ == outcome_after(old(self)@, line@),
    {
        if let Some((key, value)) = entry(line) {
            if reads(key, "reboot_required") {
                let word: &[char] = trim(value);
                self.reboot_required = reads(word, "1") || reads(word, "true") || reads(
                    word,
                    "True",
                ) || reads(word, "TRUE");
            } else if reads(key, "error") {
                let message: &[char] = trim(value);
                if message.len() > 0 {
                    self.error_message = Some(text_of(message));
                }
            } else if reads(key, "failed") {
                if let Some(one) = failure(value) {
                    self.failed.push(one);
                    assert(self@.failed == old(self)@.failed.push(one@));
                }
            }
        }
    }
}

/// The outcome that the file `content` gives.
pub fn parse_result(content: &str) -> (result: HelperResult)
    ensures
        result@ == outcome_of(content@),
{
    let chars: Vec<char> = chars_of(content);
    let all: Vec<&[char]> = lines(chars.as_slice());
    let mut result = HelperResult::default();
    let ghost step = |outcome: Outcome, line: Seq<char>| outcome_after(outcome, line);
    let ghost parts = lines_of(content@);
    for i in 0..all.len()
        invariant
            all@.map_values(|line: &[char]| line@) == parts,
            step == (|outcome: Outcome, line: Seq<char>| outcome_after(outcome, line)),
            result@ == parts.take(i as int).fold_left(clean_outcome(), step),
    {
        result.take_line(all[i]);
        assert(parts.take(i + 1).drop_last() == parts.take(i as int));
        assert(parts[i as int] == all@[i as int]@);
    }
    assert(parts.take(parts.len() as int) == parts);
    result
}

/// The result of a request that could not be carried out at all.
pub fn fatal_result(error: String) -> (result: HelperResult)
    ensures
        result@ == fatal_outcome(error@),
{
    let result = HelperResult {
        reboot_required: false,
        error_message: Some(error),
        failed: Vec::new(),
    };
    assert(result@.failed == Seq::<Failure>::empty());
    result
}

/// The outcome of a request that could not be carried out at all.
pub open spec fn fatal_outcome(error: Seq<char>) -> Outcome {
    Outcome { reboot_required: false, error_message: Some(error), failed: seq![] }
}

/// An outcome that its file gives back: the error message, if there is one, and the paths are
/// values that a line can hold.
pub open spec fn is_writable_outcome(outcome: Outcome) -> bool {
    &&& outcome.error_message matches Some(message) ==> is_line_value(message)
    &&& forall|i: int|
        0 <= i < outcome.failed.len() ==> is_line_value((#[trigger] outcome.failed[i]).path)
}

proof fn lemma_keys()
    ensures
        is_line_key("reboot_required"@),
        is_line_key("error"@),
        is_line_key("failed"@),
        is_line_value("1"@),
        is_line_value("0"@),
        "error"@ != "reboot_required"@,
        "failed"@ != "reboot_required"@,
        "failed"@ != "error"@,
        says_reboot("1"@),
        !says_reboot("0"@),
{
    reveal_strlit("reboot_required");
    reveal_strlit("error");
    reveal_strlit("failed");
    reveal_strlit("1");
    reveal_strlit("0");
    reveal_strlit("true");
    reveal_strlit("True");
    reveal_strlit("TRUE");
    assert("1"@[0] != "0"@[0]);
}

/// A failure is read back from its value.
proof fn lemma_failure_reads_back(failure: Failure)
    requires
        is_line_value(failure.path),
    ensures
        is_line_value(failure_value_of(failure)),
        failure_of(failure_value_of(failure)) == Some(failure),
{
    let digits = decimal_of(failure.status as nat);
    let value = failure_value_of(failure);
    lemma_decimal_of(failure.status as nat);
    decimal_reads_back(failure.status);
    lemma_trim_of_fixed(failure.path);
    assert(is_digit(digits[0]));
    assert(is_digit(digits[digits.len() - 1]));
    lemma_trim_of_fixed(digits);
    assert(value[0] == digits[0]);
    assert(value.last() == failure.path.last());
    lemma_trim_of_fixed(value);
    assert forall|i: int| 0 <= i < digits.len() implies value[i] != '|' by {
        assert(is_digit(digits[i]));
    }
    lemma_index_of_is(value, '|', digits.len() as int);
    assert(value.take(digits.len() as int) == digits);
    assert(value.skip(digits.len() as int + 1) == failure.path);
    assert forall|i: int| 0 <= i < value.len() implies value[i] != '\n' by {
        if i < digits.len() {
            assert(is_digit(digits[i]));
        } else if i > digits.len() {
            assert(failure.path.contains(failure.path[i - digits.len() - 1]));
        }
    }
}

/// The lines of the failures, with the empty one behind the last line feed.
proof fn lemma_lines_of_failure_lines(failed: Seq<Failure>)
    requires
        forall|i: int| 0 <= i < failed.len() ==> is_line_value((#[trigger] failed[i]).path),
    ensures
        failure_lines_of(failed).len() > 0 ==> failure_lines_of(failed).last() == '\n',
        lines_of(failure_lines_of(failed)) == failed.map_values(
            |failure: Failure| line_of("failed"@, failure_value_of(failure)),
        ).push(seq![]),
    decreases failed.len(),
{
    let line_for = |failure: Failure| line_of("failed"@, failure_value_of(failure));
    if failed.len() == 0 {
        assert(failed.map_values(line_for).push(seq![]) == seq![Seq::<char>::empty()]);
    } else {
        let before = failed.drop_last();
        let line = line_of("failed"@, failure_value_of(failed.last()));
        lemma_lines_of_failure_lines(before);
        lemma_keys();
        assert(is_line_value(failed[failed.len() - 1].path));
        lemma_failure_reads_back(failed.last());
        line_reads_back("failed"@, failure_value_of(failed.last()));
        lemma_lines_of_concat(failure_lines_of(before), line.push('\n'));
        assert(line.push('\n') + Seq::<char>::empty() == line.push('\n'));
        lemma_lines_of_line(line, seq![]);
        assert(lines_of(Seq::<char>::empty()) == seq![Seq::<char>::empty()]);
        assert(before.map_values(line_for).push(seq![]).drop_last() == before.map_values(line_for));
        assert(failed.map_values(line_for) == before.map_values(line_for).push(line));
        assert(lines_of(failure_lines_of(failed)) == failed.map_values(line_for).push(seq![]));
    }
}

/// Folding the lines of failures into an outcome appends them.
proof fn lemma_fold_failure_lines(head: Seq<Seq<char>>, failed: Seq<Failure>)
    requires
        forall|i: int| 0 <= i < failed.len() ==> is_line_value((#[trigger] failed[i]).path),
    ensures
        ({
            let step = |outcome: Outcome, line: Seq<char>| outcome_after(outcome, line);
            let before = head.fold_left(clean_outcome(), step);
            (head + failed.map_values(
                |failure: Failure| line_of("failed"@, failure_value_of(failure)),
            )).fold_left(clean_outcome(), step) == Outcome {
                failed: before.failed + failed,
                ..before
            }
        }),
    decreases failed.len(),
{
    let step = |outcome: Outcome, line: Seq<char>| outcome_after(outcome, line);
    let line_for = |failure: Failure| line_of("failed"@, failure_value_of(failure));
    let before = head.fold_left(clean_outcome(), step);
    let all = head + failed.map_values(line_for);
    if failed.len() == 0 {
        assert(all == head);
        assert(before.failed + failed == before.failed);
    } else {
        let fewer = failed.drop_last();
        lemma_fold_failure_lines(head, fewer);
        lemma_keys();
        assert(is_line_value(failed[failed.len() - 1].path));
        lemma_failure_reads_back(failed.last());
        line_reads_back("failed"@, failure_value_of(failed.last()));
        assert(all.drop_last() == head + fewer.map_values(line_for));
        assert(all.last() == line_of("failed"@, failure_value_of(failed.last())));
        assert((before.failed + fewer).push(failed.last()) == before.failed + failed);
    }
}

/// What the lines before those of the failures give.
proof fn lemma_outcome_head(outcome: Outcome) -> (head: Seq<Seq<char>>)
    requires
        is_writable_outcome(outcome),
    ensures
        outcome_head_of(outcome).last() == '\n',
        lines_of(outcome_head_of(outcome)) == head.push(seq![]),
        head.fold_left(
            clean_outcome(),
            |outcome: Outcome, line: Seq<char>| outcome_after(outcome, line),
        ) == (Outcome { failed: seq![], ..outcome }),
{
    let step = |outcome: Outcome, line: Seq<char>| outcome_after(outcome, line);
    let word = if outcome.reboot_required {
        "1"@
    } else {
        "0"@
    };
    let reboot = line_of("reboot_required"@, word);
    let head = seq![reboot];
    lemma_keys();
    line_reads_back("reboot_required"@, word);
    assert(lines_of(Seq::<char>::empty()) == seq![Seq::<char>::empty()]);
    lemma_lines_of_line(reboot, seq![]);
    assert(reboot.push('\n') + Seq::<char>::empty() == reboot.push('\n'));
    assert(lines_of(reboot.push('\n')) == head.push(seq![]));
    assert(head.drop_last() == Seq::<Seq<char>>::empty());
    assert(head.drop_last().fold_left(clean_outcome(), step) == clean_outcome());
    match outcome.error_message {
        None => { head },
        Some(message) => {
            let error = line_of("error"@, message);
            line_reads_back("error"@, message);
            lemma_lines_of_line(error, seq![]);
            assert(error.push('\n') + Seq::<char>::empty() == error.push('\n'));
            lemma_lines_of_line(reboot, error.push('\n'));
            let both = seq![reboot, error];
            assert(lines_of(outcome_head_of(outcome)) == both.push(seq![]));
            assert(both.drop_last() == head);
            both
        },
    }
}

/// An outcome is read back from the file it is written to.
pub proof fn outcome_reads_back(outcome: Outcome)
    requires
        is_writable_outcome(outcome),
    ensures
        outcome_of(outcome_text_of(outcome)) == outcome,
{
    let step = |outcome: Outcome, line: Seq<char>| outcome_after(outcome, line);
    let line_for = |failure: Failure| line_of("failed"@, failure_value_of(failure));
    let head = lemma_outcome_head(outcome);
    lemma_lines_of_failure_lines(outcome.failed);
    lemma_lines_of_concat(outcome_head_of(outcome), failure_lines_of(outcome.failed));
    assert(head.push(seq![]).drop_last() == head);
    let body = head + outcome.failed.map_values(line_for);
    assert(lines_of(outcome_text_of(outcome)) == body.push(seq![]));
    lemma_fold_failure_lines(head, outcome.failed);
    assert(Seq::<Failure>::empty() + outcome.failed == outcome.failed);
    assert(body.push(seq![]).drop_last() == body);
}

proof fn lemma_outcome_values(lines: Seq<Seq<char>>)
    requires
        forall|i: int| 0 <= i < lines.len() ==> !(#[trigger] lines[i]).contains('\n'),
    ensures
        is_writable_outcome(
            lines.fold_left(
                clean_outcome(),
                |outcome: Outcome, line: Seq<char>| outcome_after(outcome, line),
            ),
        ),
    decreases lines.len(),
{
    if lines.len() > 0 {
        let last = lines[lines.len() - 1];
        lemma_outcome_values(lines.drop_last());
        lemma_entry_of(last);
        if let Some((key, value)) = entry_of(last) {
            lemma_trimmed_is_line_value(value);
            lemma_index_of(value, '|');
            let at = index_of(value, '|') as int;
            if at < value.len() {
                let path = value.skip(at + 1);
                assert forall|i: int| 0 <= i < path.len() implies path[i] != '\n' by {
                    assert(value.contains(value[i + at + 1]));
                }
                lemma_trimmed_is_line_value(path);
            }
        }
    }
}

/// Whatever the file holds, the outcome that is read from it is one that a file can hold: no path
/// and no error message in it is empty or has white space at its ends.
pub proof fn read_outcome_is_writable(content: Seq<char>)
    ensures
        is_writable_outcome(outcome_of(content)),
{
    lemma_lines_of_hold_no_line_feed(content);
    lemma_outcome_values(lines_of(content));
}

/// An outcome is read back from its file exactly if it is one that a file can hold.
pub proof fn outcome_reads_back_iff(outcome: Outcome)
    ensures
        outcome_of(outcome_text_of(outcome)) == outcome <==> is_writable_outcome(outcome),
{
    if is_writable_outcome(outcome) {
        outcome_reads_back(outcome);
    }
    read_outcome_is_writable(outcome_text_of(outcome));
}

/// The error message that a line gives, if it gives one.
pub open spec fn error_in(line: Seq<char>) -> Option<Seq<char>> {
    match entry_of(line) {
        Some((key, value)) => if key == "error"@ && trim_of(value).len() > 0 {
            Some(trim_of(value))
        } else {
            None
        },
        None => None,
    }
}

/// The last error message that one of `lines` gives, or `before` where none gives one.
pub open spec fn last_error_in(lines: Seq<Seq<char>>, before: Option<Seq<char>>) -> Option<
    Seq<char>,
>
    decreases lines.len(),
{
    if lines.len() == 0 {
        before
    } else if error_in(lines.last()) is Some {
        error_in(lines.last())
    } else {
        last_error_in(lines.drop_last(), before)
    }
}

/// What is read of an error that runs over `lines`: the first of them, unless it is blank or a
/// later line reads as an error itself, which then takes its place.
pub open spec fn error_read_of(lines: Seq<Seq<char>>) -> Option<Seq<char>> {
    last_error_in(
        lines.skip(1),
        if trim_of(lines[0]).len() > 0 {
            Some(trim_of(lines[0]))
        } else {
            None
        },
    )
}

/// Reading lines leaves the last error message that they give.
proof fn lemma_error_after(start: Outcome, lines: Seq<Seq<char>>)
    ensures
        lines.fold_left(
            start,
            |outcome: Outcome, line: Seq<char>| outcome_after(outcome, line),
        ).error_message == last_error_in(lines, start.error_message),
    decreases lines.len(),
{
    if lines.len() > 0 {
        lemma_keys();
        lemma_error_after(start, lines.drop_last());
    }
}

/// Where no line gives an error message, the one before stays; where there was one before, there is
/// one behind.
proof fn lemma_last_error_in(lines: Seq<Seq<char>>, before: Option<Seq<char>>)
    ensures
        (forall|i: int| 0 <= i < lines.len() ==> error_in(#[trigger] lines[i]) is None)
            ==> last_error_in(lines, before) == before,
        before is Some ==> last_error_in(lines, before) is Some,
    decreases lines.len(),
{
    if lines.len() > 0 {
        let fewer = lines.drop_last();
        lemma_last_error_in(fewer, before);
        if forall|i: int| 0 <= i < lines.len() ==> error_in(#[trigger] lines[i]) is None {
            assert forall|i: int| 0 <= i < fewer.len() implies error_in(
                #[trigger] fewer[i],
            ) is None by {
                assert(error_in(lines[i]) is None);
            }
        }
    }
}

/// What reaches the reader of the error of a request that could not be carried out, whatever lines
/// it runs over. It is the first line, trimmed, where that is not blank and no later line reads as
/// an error itself; in any case an error is read where the first line is not blank.
pub proof fn fatal_error_is_read(error: Seq<char>)
    ensures
        ({
            let lines = lines_of(error);
            let message = outcome_of(outcome_text_of(fatal_outcome(error))).error_message;
            &&& message == error_read_of(lines)
            &&& trim_of(lines[0]).len() > 0 ==> message is Some
            &&& trim_of(lines[0]).len() > 0 && (forall|i: int|
                1 <= i < lines.len() ==> error_in(#[trigger] lines[i]) is None) ==> message == Some(
                trim_of(lines[0]),
            )
        }),
{
    let step = |outcome: Outcome, line: Seq<char>| outcome_after(outcome, line);
    let text = outcome_text_of(fatal_outcome(error));
    let lines = lines_of(error);
    let reboot = line_of("reboot_required"@, "0"@);
    let error_line = "error="@ + error;
    reveal_strlit("error=");
    reveal_strlit("error");
    assert("error="@ == "error"@.push('='));
    assert(text == reboot.push('\n') + error_line.push('\n'));
    lemma_keys();
    line_reads_back("reboot_required"@, "0"@);
    lemma_lines_of_line(reboot, error_line.push('\n'));
    lemma_lines_of_push(error_line);
    lemma_lines_of_behind("error="@, error);
    let first = line_of("error"@, lines[0]);
    let later = lines.skip(1);
    assert(lines_of(text) == seq![reboot, first] + later + seq![Seq::<char>::empty()]);
    lemma_error_line(lines[0]);
    lemma_error_after(clean_outcome(), lines_of(text));
    assert(lines_of(text).drop_last() == seq![reboot, first] + later);
    lemma_last_error_behind(seq![reboot, first], later, None);
    assert(seq![reboot, first].drop_last() == seq![reboot]);
    assert(seq![reboot].drop_last() == Seq::<Seq<char>>::empty());
    assert(last_error_in(seq![], None) is None);
    assert(last_error_in(seq![reboot], None) is None);
    let start = if trim_of(lines[0]).len() > 0 {
        Some(trim_of(lines[0]))
    } else {
        None
    };
    lemma_last_error_in(later, start);
    if forall|i: int| 1 <= i < lines.len() ==> error_in(#[trigger] lines[i]) is None {
        assert forall|i: int| 0 <= i < later.len() implies error_in(
            #[trigger] later[i],
        ) is None by {
            assert(error_in(lines[i + 1]) is None);
        }
    }
}

/// The last error of two rows of lines is that of the second, or else that of the first.
proof fn lemma_last_error_behind(
    a: Seq<Seq<char>>,
    b: Seq<Seq<char>>,
    before: Option<Seq<char>>,
)
    ensures
        last_error_in(a + b, before) == last_error_in(b, last_error_in(a, before)),
    decreases b.len(),
{
    if b.len() == 0 {
        assert(a + b == a);
    } else {
        lemma_last_error_behind(a, b.drop_last(), before);
        assert((a + b).drop_last() == a + b.drop_last());
    }
}

/// A line that holds an error gives it, trimmed, unless it is blank.
proof fn lemma_error_line(first: Seq<char>)
    ensures
        error_in(line_of("error"@, first)) == if trim_of(first).len() > 0 {
            Some(trim_of(first))
        } else {
            None
        },
{
    let key = "error"@;
    let line = line_of(key, first);
    lemma_keys();
    lemma_trim_of_fixed(key);
    lemma_trim_end_of_behind(key.push('='), first);
    let kept = trim_end_of(first);
    assert(trim_of(line) == line_of(key, kept));
    assert forall|i: int| 0 <= i < key.len() implies trim_of(line)[i] != '=' by {
        assert(key.contains(key[i]));
    }
    lemma_index_of_is(trim_of(line), '=', key.len() as int);
    assert(trim_of(line).take(key.len() as int) == key);
    assert(trim_of(line).skip(key.len() as int + 1) == kept);
    lemma_trim_end_then_trim(first);
}

/// The contents of failures are those of each of them.
pub proof fn failures_hold_every_one(failed: Seq<FailedPathResult>)
    ensures
        failures_of(failed).len() == failed.len(),
        forall|i: int|
            0 <= i < failed.len() ==> (#[trigger] failures_of(failed)[i]).path == failed[i].path@
                && failures_of(failed)[i].status == failed[i].status,
{
}

/// A result is written line by line: whether a restart is needed, the error if there is one, then
/// one line for each failure, in order, with its status and its path as they stand. One failure
/// more, at the end, is one line more, at the end.
pub proof fn results_are_written_line_by_line(outcome: Outcome, failure: Failure)
    ensures
        outcome_text_of(Outcome { failed: seq![], ..outcome }) == "reboot_required="@ + (if
            outcome.reboot_required {
            "1"@
        } else {
            "0"@
        }) + "\n"@ + match outcome.error_message {
            Some(error) => "error="@ + error + "\n"@,
            None => seq![],
        },
        outcome_text_of(Outcome { failed: outcome.failed.push(failure), ..outcome })
            == outcome_text_of(outcome) + "failed="@ + decimal_of(failure.status as nat) + "|"@
            + failure.path + "\n"@,
{
    reveal_strlit("reboot_required=");
    reveal_strlit("reboot_required");
    reveal_strlit("error=");
    reveal_strlit("error");
    reveal_strlit("failed=");
    reveal_strlit("failed");
    reveal_strlit("\n");
    reveal_strlit("|");
    assert("reboot_required="@ == "reboot_required"@.push('='));
    assert("error="@ == "error"@.push('='));
    assert("failed="@ == "failed"@.push('='));
    assert("\n"@ == seq!['\n']);
    assert("|"@ == seq!['|']);
    assert(outcome.failed.push(failure).drop_last() == outcome.failed);
    let line = line_of("failed"@, failure_value_of(failure)).push('\n');
    assert(line == "failed="@ + decimal_of(failure.status as nat) + "|"@ + failure.path + "\n"@);
    let longer = Outcome { failed: outcome.failed.push(failure), ..outcome };
    assert(outcome_head_of(longer) == outcome_head_of(outcome));
    assert(outcome_text_of(longer) == outcome_text_of(outcome) + line);
    let none = Outcome { failed: seq![], ..outcome };
    assert(outcome_text_of(none) == outcome_head_of(outcome));
}

proof fn lemma_outcome_of_line(content: Seq<char>, line: Seq<char>)
    requires
        content.len() > 0 ==> content.last() == '\n',
        !line.contains('\n'),
    ensures
        outcome_of(content + line) == outcome_after(outcome_of(content), line),
{
    let step = |outcome: Outcome, line: Seq<char>| outcome_after(outcome, line);
    let before = lines_of(content);
    lemma_lines_of_concat(content, line);
    lemma_lines_of_concat(content, seq![]);
    lemma_index_of(line, '\n');
    let at = index_of(line, '\n') as int;
    if at < line.len() {
        assert(line.contains(line[at]));
    }
    assert(lines_of(line) == seq![line]);
    assert(content + Seq::<char>::empty() == content);
    assert(lines_of(Seq::<char>::empty()) == seq![Seq::<char>::empty()]);
    let all = lines_of(content + line);
    assert(all == before.drop_last().push(line));
    assert(all.drop_last() == before.drop_last());
    assert(before.last() == Seq::<char>::empty());
    assert(outcome_after(before.drop_last().fold_left(clean_outcome(), step), seq![])
        == before.drop_last().fold_left(clean_outcome(), step));
}

/// A line behind a file says whether a restart is needed, gives an error in place of any before, or
/// gives a failure more, at the end, where it is an entry for that and its value reads as one; any
/// other line changes nothing. This holds behind any file, however many failures it has given.
pub proof fn results_are_read_line_by_line(content: Seq<char>, line: Seq<char>)
    requires
        content.len() > 0 ==> content.last() == '\n',
        !line.contains('\n'),
    ensures
        ({
            let before = outcome_of(content);
            let after = outcome_of(content + line);
            let (key, value) = match entry_of(line) {
                Some((key, value)) => (key, trim_of(value)),
                None => (seq![], seq![]),
            };
            &&& after.reboot_required == if key == "reboot_required"@ {
                value == "1"@ || value == "true"@ || value == "True"@ || value == "TRUE"@
            } else {
                before.reboot_required
            }
            &&& after.error_message == if key == "error"@ && value.len() > 0 {
                Some(value)
            } else {
                before.error_message
            }
            &&& key != "failed"@ ==> after.failed == before.failed
            &&& key == "failed"@ ==> after.failed == match failure_of(entry_of(line)->Some_0.1) {
                Some(failure) => before.failed.push(failure),
                None => before.failed,
            }
        }),
{
    lemma_outcome_of_line(content, line);
    lemma_keys();
    reveal_strlit("reboot_required");
    reveal_strlit("error");
    reveal_strlit("failed");
    assert("reboot_required"@.len() == 15);
    assert("error"@.len() == 5);
    assert("failed"@.len() == 6);
}

/// A failure is a number, a bar and a path that is not blank, each with white space round it or
/// not; the path goes on to the end, whatever it holds.
pub proof fn failures_are_a_status_and_a_path(status: Seq<char>, path: Seq<char>)
    requires
        !status.contains('|'),
    ensures
        ({
            let r = failure_of(status + "|"@ + path);
            &&& r is Some <==> read_u32_of(trim_of(status)) is Some && trim_of(path).len() > 0
            &&& r matches Some(failure) ==> failure.path == trim_of(path) && Some(failure.status)
                == read_u32_of(trim_of(status))
        }),
{
    reveal_strlit("|");
    let value = status + "|"@ + path;
    assert("|"@ == seq!['|']);
    assert forall|i: int| 0 <= i < status.len() implies value[i] != '|' by {
        assert(status.contains(status[i]));
    }
    lemma_index_of_is(value, '|', status.len() as int);
    assert(value.take(status.len() as int) == status);
    assert(value.skip(status.len() as int + 1) == path);
}

/// A value without a bar is no failure.
pub proof fn failures_need_a_bar(value: Seq<char>)
    requires
        !value.contains('|'),
    ensures
        failure_of(value) is None,
{
    lemma_index_of(value, '|');
    let at = index_of(value, '|') as int;
    if at < value.len() {
        assert(value.contains(value[at]));
    }
}

/// What could not be carried out has its error, in full, and nothing else to report.
pub proof fn fatal_outcomes_hold_the_error_alone(error: Seq<char>)
    ensures
        fatal_outcome(error).error_message == Some(error),
        fatal_outcome(error).failed.len() == 0,
        !fatal_outcome(error).reboot_required,
{
}

/// What a result holds is each of its fields, and every failure in its place.
pub proof fn results_hold_each_field(result: HelperResult)
    ensures
        result@.reboot_required == result.reboot_required,
        result@.error_message is Some <==> result.error_message is Some,
        result.error_message matches Some(error) ==> result@.error_message == Some(error@),
        result@.failed.len() == result.failed@.len(),
        forall|i: int|
            0 <= i < result.failed@.len() ==> (#[trigger] result@.failed[i]).path
                == result.failed@[i].path@ && result@.failed[i].status == result.failed@[i].status,
{
}

} // verus!
