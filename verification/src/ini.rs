//! Lines of the form `key=value`, as the settings, the requests and the results are written.

use crate::text::{
    index_of, is_white_space, lemma_index_of, lemma_index_of_is, lemma_trim_of,
    lemma_trim_of_fixed, split_once, split_once_of, splitting_cuts_at_the_first_separator, trim,
    trim_of,
};
use vstd::prelude::*;

verus! {

/// The key, trimmed, and the value of a line; nothing for an empty line, for a comment (behind
/// `#` or `;`) and for a line without `=`.
pub open spec fn entry_of(line: Seq<char>) -> Option<(Seq<char>, Seq<char>)> {
    let trimmed = trim_of(line);
    if trimmed.len() == 0 || trimmed[0] == '#' || trimmed[0] == ';' {
        None
    } else {
        match split_once_of(trimmed, '=') {
            Some((key, value)) => Some((trim_of(key), value)),
            None => None,
        }
    }
}

/// The key, trimmed, and the value of a line, if it has them.
pub fn entry<'a>(line: &'a [char]) -> (r: Option<(&'a [char], &'a [char])>)
    ensures
        match r {
            Some((key, value)) => entry_of(line@) == Some((key@, value@)),
            None => entry_of(line@) is None,
        },
{
    let trimmed: &'a [char] = trim(line);
    if trimmed.len() == 0 || trimmed[0] == '#' || trimmed[0] == ';' {
        return None;
    }
    match split_once(trimmed, '=') {
        Some((key, value)) => Some((trim(key), value)),
        None => None,
    }
}

/// What a line can hold as a value and give back: text that is not empty, with no white space at
/// its ends and no line feed.
pub open spec fn is_line_value(s: Seq<char>) -> bool {
    s.len() > 0 && trim_of(s) == s && !s.contains('\n')
}

/// A key that a line gives back.
pub open spec fn is_line_key(s: Seq<char>) -> bool {
    is_line_value(s) && !s.contains('=') && s[0] != '#' && s[0] != ';'
}

/// The line that holds `value` under `key`.
pub open spec fn line_of(key: Seq<char>, value: Seq<char>) -> Seq<char> {
    key.push('=') + value
}

/// A key and a value are read back from the line that holds them.
pub proof fn line_reads_back(key: Seq<char>, value: Seq<char>)
    requires
        is_line_key(key),
        is_line_value(value),
    ensures
        entry_of(line_of(key, value)) == Some((key, value)),
        !line_of(key, value).contains('\n'),
{
    let line = line_of(key, value);
    lemma_trim_of_fixed(key);
    lemma_trim_of_fixed(value);
    lemma_trim_of_fixed(line);
    assert(line[0] == key[0]);
    assert(line.last() == value.last());
    assert forall|i: int| 0 <= i < key.len() implies line[i] != '=' by {
        assert(key.contains(key[i]));
    }
    lemma_index_of_is(line, '=', key.len() as int);
    assert(line.take(key.len() as int) == key);
    assert(line.skip(key.len() as int + 1) == value);
    assert forall|i: int| 0 <= i < line.len() implies line[i] != '\n' by {
        if i < key.len() {
            assert(key.contains(key[i]));
        } else if i > key.len() {
            assert(value.contains(value[i - key.len() - 1]));
        }
    }
}

/// The value of a line without line feeds holds none.
pub proof fn lemma_entry_of(line: Seq<char>)
    requires
        !line.contains('\n'),
    ensures
        entry_of(line) matches Some((key, value)) ==> !value.contains('\n'),
{
    let trimmed = trim_of(line);
    lemma_trim_of(line);
    lemma_index_of(trimmed, '=');
    let at = index_of(trimmed, '=') as int;
    if at < trimmed.len() {
        let value = trimmed.skip(at + 1);
        assert forall|i: int| 0 <= i < value.len() implies value[i] != '\n' by {
            assert(trimmed.contains(trimmed[i + at + 1]));
        }
    }
}

/// What trimming leaves of text without line feeds is a value that a line can hold, or empty.
pub proof fn lemma_trimmed_is_line_value(s: Seq<char>)
    requires
        !s.contains('\n'),
    ensures
        trim_of(s).len() > 0 ==> is_line_value(trim_of(s)),
{
    lemma_trim_of(s);
}

/// A line has an entry exactly if, with the white space round it taken away, it is not empty, is no
/// comment and has an equals sign; the key is what stands before the first of these, without white
/// space round it, and the value all that stands behind it.
pub proof fn entries_are_what_stands_round_the_equals_sign(line: Seq<char>)
    ensures
        ({
            let trimmed = trim_of(line);
            &&& entry_of(line) is Some <==> trimmed.contains('=') && trimmed[0] != '#' && trimmed[0]
                != ';'
            &&& entry_of(line) matches Some((key, value)) ==> exists|before: Seq<char>|
                #![trigger before.push('=')]
                {
                    &&& before.push('=') + value == trimmed
                    &&& !before.contains('=')
                    &&& key == trim_of(before)
                }
        }),
{
    let trimmed = trim_of(line);
    splitting_cuts_at_the_first_separator(trimmed, '=');
    if let Some((before, value)) = split_once_of(trimmed, '=') {
        assert(before.push('=') + value == trimmed);
    }
}

/// A line gives back, as a value, every text that is not empty, has no white space at its ends and
/// holds no line feed, and no other; as a key, those of them that hold no equals sign and are not
/// taken for a comment.
pub proof fn values_and_keys_of_lines(s: Seq<char>)
    requires
        s.len() > 0,
    ensures
        is_line_value(s) <==> !is_white_space(s[0]) && !is_white_space(s.last()) && !s.contains(
            '\n',
        ),
        is_line_key(s) <==> !is_white_space(s[0]) && !is_white_space(s.last()) && !s.contains('\n')
            && !s.contains('=') && s[0] != '#' && s[0] != ';',
{
    lemma_trim_of_fixed(s);
}

/// A line is its key, an equals sign and its value.
pub proof fn lines_hold_key_and_value(key: Seq<char>, value: Seq<char>)
    ensures
        line_of(key, value) == key + seq!['='] + value,
{
}

} // verus!
