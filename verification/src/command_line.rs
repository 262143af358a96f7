//! How Windows programs read the arguments of their command line, and what that makes of quoted
//! arguments.
//!
//! A space or a tab outside quotation marks ends an argument. Backslashes stand for themselves
//! unless a quotation mark follows: then each pair of them stands for one, and one that is left
//! over makes the quotation mark stand for itself. Inside quotation marks, two of them in a row
//! stand for one.

use crate::quoting::{
    escaped_of, is_plain_argument, lemma_escaped_of_run, needs_quotes, quoted_of,
};
use crate::text::repeat_of;
use vstd::prelude::*;

verus! {

/// Whether `c` ends an argument outside quotation marks.
pub open spec fn is_blank(c: char) -> bool {
    c == ' ' || c == '\t'
}

/// How many backslashes `s` starts with.
pub open spec fn leading_backslashes(s: Seq<char>) -> nat
    decreases s.len(),
{
    if s.len() > 0 && s[0] == '\\' {
        1 + leading_backslashes(s.skip(1))
    } else {
        0
    }
}

/// `s`, with `head` before its first part.
pub open spec fn behind(head: Seq<char>, s: (Seq<char>, Seq<char>)) -> (Seq<char>, Seq<char>) {
    (head + s.0, s.1)
}

/// The argument that `s` starts with, and what follows it; `quoted` says whether a quotation mark
/// is open.
pub open spec fn argument_of(s: Seq<char>, quoted: bool) -> (Seq<char>, Seq<char>)
    decreases s.len(),
{
    let n = leading_backslashes(s) as int;
    if n < s.len() && s[n] == '"' {
        let backslashes = repeat_of('\\', (n / 2) as nat);
        if n % 2 == 1 {
            behind(backslashes.push('"'), argument_of(s.skip(n + 1), quoted))
        } else if quoted && n + 1 < s.len() && s[n + 1] == '"' {
            behind(backslashes.push('"'), argument_of(s.skip(n + 2), quoted))
        } else {
            behind(backslashes, argument_of(s.skip(n + 1), !quoted))
        }
    } else if s.len() == 0 || (!quoted && is_blank(s[0])) {
        (seq![], s)
    } else {
        behind(seq![s[0]], argument_of(s.skip(1), quoted))
    }
}

/// The arguments of the command line `s`.
pub open spec fn arguments_of(s: Seq<char>) -> Seq<Seq<char>>
    decreases s.len(),
{
    if s.len() == 0 {
        seq![]
    } else if is_blank(s[0]) {
        arguments_of(s.skip(1))
    } else {
        let (argument, rest) = argument_of(s, false);
        if rest.len() < s.len() {
            seq![argument] + arguments_of(rest)
        } else {
            seq![argument]
        }
    }
}

proof fn lemma_leading_backslashes(s: Seq<char>, n: nat)
    requires
        n <= s.len(),
        forall|i: int| 0 <= i < n ==> s[i] == '\\',
        n < s.len() ==> s[n as int] != '\\',
    ensures
        leading_backslashes(s) == n,
    decreases n,
{
    if n > 0 {
        lemma_leading_backslashes(s.skip(1), (n - 1) as nat);
    }
}

proof fn lemma_leading_backslashes_are(s: Seq<char>)
    ensures
        leading_backslashes(s) <= s.len(),
        forall|i: int| 0 <= i < leading_backslashes(s) ==> s[i] == '\\',
        leading_backslashes(s) < s.len() ==> s[leading_backslashes(s) as int] != '\\',
    decreases s.len(),
{
    if s.len() > 0 && s[0] == '\\' {
        lemma_leading_backslashes_are(s.skip(1));
        assert forall|i: int| 0 <= i < leading_backslashes(s) implies s[i] == '\\' by {
            if i > 0 {
                assert(s[i] == s.skip(1)[i - 1]);
            }
        }
    }
}

/// A row of backslashes and a quotation mark, where the row is `n` long.
proof fn lemma_argument_of_run(n: nat, tail: Seq<char>, quoted: bool)
    requires
        tail.len() > 0 ==> tail[0] != '"',
    ensures
        argument_of(repeat_of('\\', n).push('"') + tail, quoted) == if n % 2 == 1 {
            behind(repeat_of('\\', n / 2).push('"'), argument_of(tail, quoted))
        } else {
            behind(repeat_of('\\', n / 2), argument_of(tail, !quoted))
        },
{
    let line = repeat_of('\\', n).push('"') + tail;
    lemma_leading_backslashes(line, n);
    assert(line.skip(n as int + 1) == tail);
    if n + 1 < line.len() {
        assert(line[n as int + 1] == tail[0]);
    }
}

/// A row of an odd number of backslashes and a quotation mark.
proof fn lemma_argument_of_odd_run(n: nat, tail: Seq<char>, quoted: bool)
    ensures
        argument_of(repeat_of('\\', 2 * n + 1).push('"') + tail, quoted) == behind(
            repeat_of('\\', n).push('"'),
            argument_of(tail, quoted),
        ),
{
    let line = repeat_of('\\', 2 * n + 1).push('"') + tail;
    lemma_leading_backslashes(line, 2 * n + 1);
    assert(line.skip((2 * n + 2) as int) == tail);
    assert((2 * n + 1) / 2 == n);
}

/// The inside of a quoted argument and the closing quotation mark are read as the argument.
proof fn lemma_escaped_reads_back(value: Seq<char>, tail: Seq<char>)
    requires
        tail.len() > 0 ==> is_blank(tail[0]),
    ensures
        argument_of(escaped_of(value).push('"') + tail, true) == (value, tail),
    decreases value.len(),
{
    let n = leading_backslashes(value);
    let line = escaped_of(value).push('"') + tail;
    let run = repeat_of('\\', n);
    lemma_leading_backslashes_are(value);
    lemma_escaped_of_run(value, n);
    let rest = value.skip(n as int);
    assert(value == run + rest);
    if n == value.len() {
        assert(escaped_of(rest) == Seq::<char>::empty());
        assert(line == repeat_of('\\', 2 * n).push('"') + tail);
        lemma_argument_of_run(2 * n, tail, true);
        assert(argument_of(tail, false) == (Seq::<char>::empty(), tail));
        assert(behind(run, argument_of(tail, false)).0 == value);
    } else if value[n as int] == '"' {
        let after = rest.skip(1);
        let more = escaped_of(after).push('"') + tail;
        lemma_escaped_reads_back(after, tail);
        assert(escaped_of(rest) == seq!['\\', '"'] + escaped_of(after));
        assert(line == repeat_of('\\', 2 * n + 1).push('"') + more);
        lemma_argument_of_odd_run(n, more, true);
        assert(run.push('"') + after == value);
    } else {
        let after = value.skip(1);
        let more = escaped_of(after).push('"') + tail;
        lemma_escaped_reads_back(after, tail);
        lemma_escaped_of_other_run(value, n, tail);
        assert(line == seq![value[0]] + more);
        assert(line.skip(1) == more);
        assert(seq![value[0]] + after == value);
    }
}

/// Where the backslashes that `value` starts with do not run into a quotation mark, they do not in
/// what is written of it either.
proof fn lemma_escaped_of_other_run(value: Seq<char>, n: nat, tail: Seq<char>)
    requires
        n < value.len(),
        forall|i: int| 0 <= i < n ==> value[i] == '\\',
        value[n as int] != '\\',
        value[n as int] != '"',
    ensures
        escaped_of(value) == seq![value[0]] + escaped_of(value.skip(1)),
        leading_backslashes(escaped_of(value).push('"') + tail) == n,
        (escaped_of(value).push('"') + tail)[n as int] == value[n as int],
{
    let line = escaped_of(value).push('"') + tail;
    let rest = value.skip(n as int);
    lemma_escaped_of_run(value, n);
    assert(escaped_of(rest) == seq![value[n as int]] + escaped_of(rest.skip(1)));
    assert(line == repeat_of('\\', n) + (escaped_of(rest).push('"') + tail));
    lemma_leading_backslashes(line, n);
}

/// A plain argument is read as it stands.
proof fn lemma_plain_reads_back(value: Seq<char>, tail: Seq<char>)
    requires
        value.len() > 0 ==> is_plain_argument(value),
        tail.len() > 0 ==> is_blank(tail[0]),
    ensures
        argument_of(value + tail, false) == (value, tail),
    decreases value.len(),
{
    let line = value + tail;
    if value.len() == 0 {
        assert(line == tail);
        assert(leading_backslashes(tail) == 0);
    } else {
        let n = leading_backslashes(value);
        lemma_leading_backslashes_are(value);
        assert(n < value.len());
        assert(!needs_quotes(value[n as int]));
        assert(!needs_quotes(value[0]));
        assert(line[n as int] == value[n as int]);
        lemma_leading_backslashes(line, n);
        let rest = value.skip(1);
        assert forall|i: int| 0 <= i < rest.len() implies !needs_quotes(#[trigger] rest[i]) by {
            assert(!needs_quotes(value[i + 1]));
        }
        lemma_plain_reads_back(rest, tail);
        assert(line.skip(1) == rest + tail);
        assert(seq![value[0]] + rest == value);
    }
}

/// A quoted argument is read back as the text it was made from, whatever that holds, and what
/// follows it behind a space or a tab is left as it is.
pub proof fn quoted_argument_reads_back(value: Seq<char>, tail: Seq<char>)
    requires
        tail.len() > 0 ==> is_blank(tail[0]),
    ensures
        argument_of(quoted_of(value) + tail, false) == (value, tail),
{
    if is_plain_argument(value) {
        lemma_plain_reads_back(value, tail);
    } else {
        let line = quoted_of(value) + tail;
        let inner = escaped_of(value).push('"') + tail;
        lemma_escaped_reads_back(value, tail);
        assert(line == seq!['"'] + inner);
        lemma_leading_backslashes(line, 0);
        assert(line.skip(1) == inner);
        assert(behind(repeat_of('\\', 0), (value, tail)).0 == value);
    }
}

/// A quoted argument alone is a command line of one argument.
pub proof fn quoted_argument_is_one_argument(value: Seq<char>)
    ensures
        arguments_of(quoted_of(value)) == seq![value],
{
    let line = quoted_of(value);
    quoted_argument_reads_back(value, seq![]);
    assert(line + Seq::<char>::empty() == line);
    assert(line.len() > 0);
    if is_plain_argument(value) {
        assert(!needs_quotes(value[0]));
    }
    assert(arguments_of(Seq::<char>::empty()) == Seq::<Seq<char>>::empty());
    assert(seq![value] + Seq::<Seq<char>>::empty() == seq![value]);
}

/// Quoted arguments with a space between them are read as those arguments.
pub proof fn quoted_arguments_read_back(first: Seq<char>, second: Seq<char>)
    ensures
        arguments_of(quoted_of(first).push(' ') + quoted_of(second)) == seq![first, second],
{
    let tail = seq![' '] + quoted_of(second);
    let line = quoted_of(first) + tail;
    quoted_argument_reads_back(first, tail);
    quoted_argument_is_one_argument(second);
    assert(quoted_of(first).push(' ') + quoted_of(second) == line);
    assert(tail.skip(1) == quoted_of(second));
    assert(arguments_of(tail) == seq![second]);
    if is_plain_argument(first) {
        assert(!needs_quotes(first[0]));
        assert(line[0] == first[0]);
    } else {
        assert(line[0] == '"');
    }
    assert(arguments_of(line) == seq![first] + arguments_of(tail));
    assert(seq![first] + seq![second] == seq![first, second]);
}

} // verus!
