//! Arguments of a Windows command line.

use crate::text::{chars_of, repeat_of};
use vstd::prelude::*;

verus! {

/// Whether an argument can stand in a command line as it is: it is not empty, holds no white space
/// or quotation mark that would split it, and does not end with a backslash.
pub open spec fn is_plain_argument(value: Seq<char>) -> bool {
    &&& value.len() > 0
    &&& forall|i: int| 0 <= i < value.len() ==> !needs_quotes(#[trigger] value[i])
    &&& value.last() != '\\'
}

/// The characters for whose sake an argument is put in quotation marks.
pub open spec fn needs_quotes(c: char) -> bool {
    c == ' ' || c == '\t' || c == '\n' || c == '\u{b}' || c == '"'
}

/// Whether the backslashes that `value` starts with run up to a quotation mark or to its end.
pub open spec fn runs_into_quote(value: Seq<char>) -> bool
    decreases value.len(),
{
    if value.len() == 0 || value[0] == '"' {
        true
    } else {
        value[0] == '\\' && runs_into_quote(value.skip(1))
    }
}

/// The inside of a quoted argument: a backslash goes before each quotation mark, and a backslash
/// that stands in a row before a quotation mark or at the end is doubled.
pub open spec fn escaped_of(value: Seq<char>) -> Seq<char>
    decreases value.len(),
{
    if value.len() == 0 {
        seq![]
    } else if value[0] == '"' || (value[0] == '\\' && runs_into_quote(value)) {
        seq!['\\', value[0]] + escaped_of(value.skip(1))
    } else {
        seq![value[0]] + escaped_of(value.skip(1))
    }
}

/// `value` as one argument of a command line.
pub open spec fn quoted_of(value: Seq<char>) -> Seq<char> {
    if is_plain_argument(value) {
        value
    } else {
        (seq!['"'] + escaped_of(value)).push('"')
    }
}

/// What a row of backslashes before a quotation mark, before another character or at the end comes
/// to.
pub proof fn lemma_escaped_of_run(value: Seq<char>, n: nat)
    requires
        n <= value.len(),
        forall|i: int| 0 <= i < n ==> value[i] == '\\',
        n < value.len() ==> value[n as int] != '\\',
    ensures
        runs_into_quote(value) <==> n == value.len() || value[n as int] == '"',
        escaped_of(value) == repeat_of(
            '\\',
            if runs_into_quote(value) {
                2 * n
            } else {
                n
            },
        ) + escaped_of(value.skip(n as int)),
    decreases n,
{
    if n == 0 {
        assert(value.skip(0) == value);
        assert(repeat_of('\\', 0) == Seq::<char>::empty());
    } else {
        let rest = value.skip(1);
        lemma_escaped_of_run(rest, (n - 1) as nat);
        assert(rest.skip(n - 1) == value.skip(n as int));
        if runs_into_quote(value) {
            assert(escaped_of(value) == repeat_of('\\', 2 * n) + escaped_of(value.skip(n as int)));
        } else {
            assert(escaped_of(value) == repeat_of('\\', n) + escaped_of(value.skip(n as int)));
        }
    }
}

fn push_backslashes(text: &mut String, n: usize)
    ensures
        final(text)@ == old(text)@ + repeat_of('\\', n as nat),
{
    for i in 0..n
        invariant
            text@ == old(text)@ + repeat_of('\\', i as nat),
    {
        text.push('\\');
        assert(repeat_of('\\', i as nat).push('\\') == repeat_of('\\', (i + 1) as nat));
    }
}

/// `value` as one argument of a command line.
pub fn quote_windows_argument(value: &str) -> (quoted: String)
    ensures
        quoted@ == quoted_of(value@),
{
    let chars: Vec<char> = chars_of(value);
    let n: usize = chars.len();
    let mut plain: bool = n > 0 && chars[n - 1] != '\\';
    let mut i: usize = 0;
    while plain && i < n
        invariant
            n == chars@.len(),
            i <= n,
            plain ==> n > 0 && chars@.last() != '\\' && forall|j: int|
                0 <= j < i ==> !needs_quotes(#[trigger] chars@[j]),
            !plain ==> !is_plain_argument(chars@),
        decreases n - i,
    {
        let c: char = chars[i];
        if c == ' ' || c == '\t' || c == '\n' || c == '\u{b}' || c == '"' {
            assert(needs_quotes(chars@[i as int]));
            plain = false;
        }
        i = i + 1;
    }
    if plain {
        return value.to_owned();
    }
    let mut quoted = String::new();
    quoted.push('"');
    let ghost whole = seq!['"'] + escaped_of(value@);
    let mut backslash_count: usize = 0;
    assert(value@.skip(0) == value@);
    for k in 0..n
        invariant
            n == chars@.len(),
            chars@ == value@,
            whole == seq!['"'] + escaped_of(value@),
            backslash_count <= k,
            forall|j: int| k - backslash_count <= j < k ==> value@[j] == '\\',
            whole == quoted@ + escaped_of(value@.skip(k - backslash_count)),
    {
        let c: char = chars[k];
        let ghost start = k - backslash_count;
        let ghost pending = value@.skip(start);
        let ghost after = value@.skip(k as int);
        assert(pending.skip(backslash_count as int) == after);
        assert(after.skip(1) == value@.skip(k + 1));
        if c == '\\' {
            backslash_count = backslash_count + 1;
        } else {
            let ghost before = quoted@;
            proof {
                lemma_escaped_of_run(pending, backslash_count as nat);
            }
            push_backslashes(&mut quoted, backslash_count);
            if c == '"' {
                push_backslashes(&mut quoted, backslash_count);
                assert(repeat_of('\\', backslash_count as nat) + repeat_of(
                    '\\',
                    backslash_count as nat,
                ) == repeat_of('\\', 2 * backslash_count as nat));
                quoted.push('\\');
            }
            backslash_count = 0;
            quoted.push(c);
            assert(whole == quoted@ + escaped_of(value@.skip(k + 1)));
        }
    }
    proof {
        let start = n - backslash_count;
        let pending = value@.skip(start);
        lemma_escaped_of_run(pending, backslash_count as nat);
        assert(pending.skip(backslash_count as int) == Seq::<char>::empty());
        assert(repeat_of('\\', backslash_count as nat) + repeat_of('\\', backslash_count as nat)
            == repeat_of('\\', 2 * backslash_count as nat));
    }
    push_backslashes(&mut quoted, backslash_count);
    push_backslashes(&mut quoted, backslash_count);
    assert(quoted@ == whole);
    quoted.push('"');
    quoted
}

/// An argument stands as it is unless it is empty, ends with a backslash or holds a space, a tab, a
/// line feed, a vertical tab or a quotation mark; otherwise it stands between quotation marks.
pub proof fn arguments_are_quoted_where_they_must_be(value: Seq<char>)
    ensures
        ({
            let plain = value.len() > 0 && value.last() != '\\' && !value.contains(' ')
                && !value.contains('\t') && !value.contains('\n') && !value.contains('\u{b}')
                && !value.contains('"');
            let quoted = quoted_of(value);
            &&& plain ==> quoted == value
            &&& !plain ==> quoted == seq!['"'] + escaped_of(value) + seq!['"']
        }),
{
    let plain = value.len() > 0 && value.last() != '\\' && !value.contains(' ') && !value.contains(
        '\t',
    ) && !value.contains('\n') && !value.contains('\u{b}') && !value.contains('"');
    if plain {
        assert forall|i: int| 0 <= i < value.len() implies !needs_quotes(#[trigger] value[i]) by {
            assert(value.contains(value[i]));
        }
    } else if is_plain_argument(value) {
        let c = if value.contains(' ') {
            ' '
        } else if value.contains('\t') {
            '\t'
        } else if value.contains('\n') {
            '\n'
        } else if value.contains('\u{b}') {
            '\u{b}'
        } else {
            '"'
        };
        assert(!needs_quotes(value[value.index_of(c)]));
    }
    assert((seq!['"'] + escaped_of(value)).push('"') == seq!['"'] + escaped_of(value) + seq!['"']);
}

/// Between quotation marks, a row of backslashes, however long, is doubled at the end and before a
/// quotation mark, which gets one more; before any other character it stays as it is, and so does
/// that character.
pub proof fn backslashes_are_doubled_before_quotation_marks(n: nat, c: char, rest: Seq<char>)
    requires
        c != '\\',
    ensures
        escaped_of(repeat_of('\\', n)) == repeat_of('\\', 2 * n),
        escaped_of(repeat_of('\\', n) + seq![c] + rest) == if c == '"' {
            repeat_of('\\', 2 * n + 1) + seq!['"'] + escaped_of(rest)
        } else {
            repeat_of('\\', n) + seq![c] + escaped_of(rest)
        },
{
    let run = repeat_of('\\', n);
    lemma_escaped_of_run(run, n);
    assert(run.skip(n as int) == Seq::<char>::empty());
    assert(escaped_of(run) == repeat_of('\\', 2 * n));
    let value = run + seq![c] + rest;
    let tail = value.skip(n as int);
    lemma_escaped_of_run(value, n);
    assert(value[n as int] == c);
    assert(tail[0] == c);
    assert(tail.skip(1) == rest);
    if c == '"' {
        assert(escaped_of(value) == repeat_of('\\', 2 * n + 1) + seq!['"'] + escaped_of(rest));
    } else {
        assert(escaped_of(value) == repeat_of('\\', n) + seq![c] + escaped_of(rest));
    }
}

} // verus!
