//! Text as sequences of characters: white space, trimming, splitting and comparing.

use vstd::prelude::*;
use vstd::slice::slice_subrange;

verus! {

/// `String::push` appends one character to the end of the string.
pub assume_specification[ String::push ](text: &mut String, c: char)
    ensures
        final(text)@ == old(text)@.push(c),
;

/// The characters with the Unicode property `White_Space`.
pub open spec fn is_white_space(c: char) -> bool {
    ||| '\u{9}' <= c <= '\u{d}'
    ||| c == '\u{20}'
    ||| c == '\u{85}'
    ||| c == '\u{a0}'
    ||| c == '\u{1680}'
    ||| '\u{2000}' <= c <= '\u{200a}'
    ||| c == '\u{2028}'
    ||| c == '\u{2029}'
    ||| c == '\u{202f}'
    ||| c == '\u{205f}'
    ||| c == '\u{3000}'
}

/// `s` without the white space it starts with.
pub open spec fn trim_start_of(s: Seq<char>) -> Seq<char>
    decreases s.len(),
{
    if s.len() > 0 && is_white_space(s[0]) {
        trim_start_of(s.skip(1))
    } else {
        s
    }
}

/// `s` without the white space it ends with.
pub open spec fn trim_end_of(s: Seq<char>) -> Seq<char>
    decreases s.len(),
{
    if s.len() > 0 && is_white_space(s.last()) {
        trim_end_of(s.drop_last())
    } else {
        s
    }
}

/// `s` without the white space at its two ends.
pub open spec fn trim_of(s: Seq<char>) -> Seq<char> {
    trim_end_of(trim_start_of(s))
}

/// Where `c` first stands in `s`; the length of `s` where it does not.
pub open spec fn index_of(s: Seq<char>, c: char) -> nat
    decreases s.len(),
{
    if s.len() == 0 || s[0] == c {
        0
    } else {
        1 + index_of(s.skip(1), c)
    }
}

/// What stands before and after the first `separator` of `s`, if there is one.
pub open spec fn split_once_of(s: Seq<char>, separator: char) -> Option<(Seq<char>, Seq<char>)> {
    let at = index_of(s, separator) as int;
    if at < s.len() {
        Some((s.take(at), s.skip(at + 1)))
    } else {
        None
    }
}

/// The parts of `s` between its line feeds. The last of them is empty where `s` ends with a line
/// feed.
pub open spec fn lines_of(s: Seq<char>) -> Seq<Seq<char>>
    decreases s.len(),
{
    let at = index_of(s, '\n') as int;
    if at < s.len() {
        seq![s.take(at)] + lines_of(s.skip(at + 1))
    } else {
        seq![s]
    }
}

/// `c` with an ASCII capital letter replaced by its small letter.
pub open spec fn ascii_lower_of(c: char) -> char {
    if 'A' <= c <= 'Z' {
        (c as u32 + 32) as char
    } else {
        c
    }
}

/// `s` with its ASCII capital letters replaced by small letters.
pub open spec fn ascii_lowercase_of(s: Seq<char>) -> Seq<char> {
    s.map_values(|c: char| ascii_lower_of(c))
}

/// `c`, `n` times over.
pub open spec fn repeat_of(c: char, n: nat) -> Seq<char> {
    Seq::new(n, |i: int| c)
}

/// Whether `c` is white space.
pub fn white_space(c: char) -> (r: bool)
    ensures
        r == is_white_space(c),
{
    ('\u{9}' <= c && c <= '\u{d}') || c == '\u{20}' || c == '\u{85}' || c == '\u{a0}' || c
        == '\u{1680}' || ('\u{2000}' <= c && c <= '\u{200a}') || c == '\u{2028}' || c
        == '\u{2029}' || c == '\u{202f}' || c == '\u{205f}' || c == '\u{3000}'
}

/// The characters of `text`.
pub fn chars_of(text: &str) -> (chars: Vec<char>)
    ensures
        chars@ == text@,
{
    let mut chars: Vec<char> = Vec::new();
    for c in it: text.chars()
        invariant
            chars@ == it.seq().take(it.index() as int),
            it.seq() == text@,
    {
        chars.push(c);
    }
    chars
}

/// The text made of `chars`.
pub fn text_of(chars: &[char]) -> (text: String)
    ensures
        text@ == chars@,
{
    let mut text = String::new();
    for i in 0..chars.len()
        invariant
            text@ == chars@.take(i as int),
    {
        text.push(chars[i]);
    }
    text
}

/// `index_of` is the first position of `c`.
pub proof fn lemma_index_of(s: Seq<char>, c: char)
    ensures
        index_of(s, c) <= s.len(),
        index_of(s, c) < s.len() ==> s[index_of(s, c) as int] == c,
        forall|i: int| 0 <= i < index_of(s, c) ==> s[i] != c,
    decreases s.len(),
{
    if s.len() > 0 && s[0] != c {
        let rest = s.skip(1);
        lemma_index_of(rest, c);
        assert forall|i: int| 0 <= i < index_of(s, c) implies s[i] != c by {
            if i > 0 {
                assert(rest[i - 1] == s[i]);
            }
        }
    }
}

/// A position that holds `c`, with no `c` before it, is what `index_of` gives.
pub proof fn lemma_index_of_is(s: Seq<char>, c: char, at: int)
    requires
        0 <= at <= s.len(),
        at < s.len() ==> s[at] == c,
        forall|i: int| 0 <= i < at ==> s[i] != c,
    ensures
        index_of(s, c) == at,
{
    lemma_index_of(s, c);
}

/// A line feed after `head`, which holds none, ends the first line.
pub proof fn lemma_lines_of_line(head: Seq<char>, tail: Seq<char>)
    requires
        !head.contains('\n'),
    ensures
        lines_of(head.push('\n') + tail) == seq![head] + lines_of(tail),
{
    let s = head.push('\n') + tail;
    assert forall|i: int| 0 <= i < head.len() implies s[i] != '\n' by {
        assert(head.contains(head[i]));
    }
    lemma_index_of_is(s, '\n', head.len() as int);
    assert(s.take(head.len() as int) == head);
    assert(s.skip(head.len() as int + 1) == tail);
}

/// Behind a text that is empty or ends with a line feed, the lines go on with those of `b`.
pub proof fn lemma_lines_of_concat(a: Seq<char>, b: Seq<char>)
    requires
        a.len() > 0 ==> a.last() == '\n',
    ensures
        lines_of(a).len() > 0,
        lines_of(a + b) == lines_of(a).drop_last() + lines_of(b),
    decreases a.len(),
{
    if a.len() == 0 {
        assert(a + b == b);
        assert(lines_of(a).drop_last() == Seq::<Seq<char>>::empty());
    } else {
        lemma_index_of(a, '\n');
        let at = index_of(a, '\n') as int;
        let head = a.take(at);
        let tail = a.skip(at + 1);
        assert(!head.contains('\n'));
        assert(a == head.push('\n') + tail);
        assert(a + b == head.push('\n') + (tail + b));
        lemma_lines_of_line(head, tail);
        lemma_lines_of_line(head, tail + b);
        lemma_lines_of_concat(tail, b);
        assert((seq![head] + lines_of(tail)).drop_last() == seq![head] + lines_of(
            tail,
        ).drop_last());
    }
}

/// A line feed at the end brings in an empty last line.
pub proof fn lemma_lines_of_push(s: Seq<char>)
    ensures
        lines_of(s.push('\n')) == lines_of(s).push(seq![]),
    decreases s.len(),
{
    lemma_index_of(s, '\n');
    let at = index_of(s, '\n') as int;
    let head = s.take(at);
    assert(!head.contains('\n'));
    if at < s.len() {
        let tail = s.skip(at + 1);
        lemma_lines_of_push(tail);
        assert(s.push('\n') == head.push('\n') + tail.push('\n'));
        lemma_lines_of_line(head, tail.push('\n'));
    } else {
        assert(head == s);
        assert(s.push('\n') == s.push('\n') + Seq::<char>::empty());
        lemma_lines_of_line(s, seq![]);
        assert(lines_of(Seq::<char>::empty()) == seq![Seq::<char>::empty()]);
    }
}

/// What stands before a text, without a line feed, joins its first line.
pub proof fn lemma_lines_of_behind(head: Seq<char>, s: Seq<char>)
    requires
        !head.contains('\n'),
    ensures
        lines_of(s).len() > 0,
        lines_of(head + s) == seq![head + lines_of(s)[0]] + lines_of(s).skip(1),
{
    lemma_index_of(s, '\n');
    let at = index_of(s, '\n') as int;
    let all = head + s;
    assert forall|i: int| 0 <= i < head.len() + at implies all[i] != '\n' by {
        if i < head.len() {
            assert(head.contains(head[i]));
        } else {
            assert(all[i] == s[i - head.len()]);
        }
    }
    lemma_index_of_is(all, '\n', head.len() + at);
    if at < s.len() {
        assert(all.take(head.len() + at) == head + s.take(at));
        assert(all.skip(head.len() + at + 1) == s.skip(at + 1));
        assert(lines_of(s).skip(1) == lines_of(s.skip(at + 1)));
    }
}

/// No line holds a line feed.
pub proof fn lemma_lines_of_hold_no_line_feed(s: Seq<char>)
    ensures
        forall|i: int| 0 <= i < lines_of(s).len() ==> !(#[trigger] lines_of(s)[i]).contains('\n'),
    decreases s.len(),
{
    lemma_index_of(s, '\n');
    let at = index_of(s, '\n') as int;
    if at < s.len() {
        let head = s.take(at);
        let rest = lines_of(s.skip(at + 1));
        lemma_lines_of_hold_no_line_feed(s.skip(at + 1));
        assert(!head.contains('\n'));
        assert forall|i: int| 0 <= i < lines_of(s).len() implies !(#[trigger] lines_of(
            s,
        )[i]).contains('\n') by {
            if i > 0 {
                assert(lines_of(s)[i] == rest[i - 1]);
            }
        }
    }
}

/// Text that is not empty and has no white space at its ends is what trimming leaves of it, and
/// no other text is.
pub proof fn lemma_trim_of_fixed(s: Seq<char>)
    ensures
        s.len() > 0 && trim_of(s) == s <==> s.len() > 0 && !is_white_space(s[0])
            && !is_white_space(s.last()),
{
    lemma_trim_start_of(s);
    lemma_trim_end_of(trim_start_of(s));
}

/// Trimming leaves no white space at the ends and brings in no character.
pub proof fn lemma_trim_of(s: Seq<char>)
    ensures
        trim_of(trim_of(s)) == trim_of(s),
        forall|c: char| !s.contains(c) ==> !#[trigger] trim_of(s).contains(c),
{
    let t = trim_start_of(s);
    let u = trim_end_of(t);
    lemma_trim_start_of(s);
    lemma_trim_end_of(t);
    if u.len() > 0 {
        assert(u[0] == t[0]);
        lemma_trim_of_fixed(u);
    }
    assert forall|c: char| !s.contains(c) implies !#[trigger] u.contains(c) by {
        assert forall|i: int| 0 <= i < u.len() implies u[i] != c by {
            assert(u[i] == t[i]);
            assert(t[i] == s[s.len() - t.len() + i]);
        }
    }
}

/// Trimming at the start leaves an end of the text.
pub proof fn lemma_trim_start_of(s: Seq<char>)
    ensures
        trim_start_of(s).is_suffix_of(s),
        trim_start_of(s).len() > 0 ==> !is_white_space(trim_start_of(s)[0]),
    decreases s.len(),
{
    if s.len() > 0 && is_white_space(s[0]) {
        lemma_trim_start_of(s.skip(1));
    }
}

/// Trimming at the end leaves a beginning of the text.
pub proof fn lemma_trim_end_of(s: Seq<char>)
    ensures
        trim_end_of(s).is_prefix_of(s),
        trim_end_of(s).len() > 0 ==> !is_white_space(trim_end_of(s).last()),
    decreases s.len(),
{
    if s.len() > 0 && is_white_space(s.last()) {
        lemma_trim_end_of(s.drop_last());
    }
}

/// Trimming at its end a text that ends with `tail`, before which there is no white space, trims
/// `tail` at its end.
pub proof fn lemma_trim_end_of_behind(head: Seq<char>, tail: Seq<char>)
    requires
        head.len() > 0,
        !is_white_space(head.last()),
    ensures
        trim_end_of(head + tail) == head + trim_end_of(tail),
    decreases tail.len(),
{
    let s = head + tail;
    if tail.len() == 0 {
        assert(s == head);
        assert(head + trim_end_of(tail) == head);
    } else {
        assert(s.last() == tail.last());
        if is_white_space(tail.last()) {
            lemma_trim_end_of_behind(head, tail.drop_last());
            assert(s.drop_last() == head + tail.drop_last());
        }
    }
}

/// Trimming is not changed by trimming at the end before.
pub proof fn lemma_trim_end_then_trim(s: Seq<char>)
    ensures
        trim_of(trim_end_of(s)) == trim_of(s),
    decreases s.len(),
{
    if s.len() > 0 && is_white_space(s.last()) {
        let less = s.drop_last();
        lemma_trim_end_then_trim(less);
        lemma_trim_of_drop_last(s);
    }
}

/// White space at the end makes no difference to trimming.
proof fn lemma_trim_of_drop_last(s: Seq<char>)
    requires
        s.len() > 0,
        is_white_space(s.last()),
    ensures
        trim_of(s.drop_last()) == trim_of(s),
    decreases s.len(),
{
    let less = s.drop_last();
    if is_white_space(s[0]) {
        if s.len() > 1 {
            lemma_trim_of_drop_last(s.skip(1));
            assert(s.skip(1).drop_last() == less.skip(1));
            assert(less[0] == s[0]);
        } else {
            assert(less == Seq::<char>::empty());
            assert(s.skip(1) == Seq::<char>::empty());
        }
    } else {
        assert(less[0] == s[0]);
    }
}

/// `s` without the white space at its two ends.
pub fn trim<'a>(s: &'a [char]) -> (r: &'a [char])
    ensures
        r@ == trim_of(s@),
{
    let mut start: usize = 0;
    assert(s@.skip(0) == s@);
    while start < s.len() && white_space(s[start])
        invariant
            start <= s.len(),
            trim_start_of(s@.skip(start as int)) == trim_start_of(s@),
        decreases s.len() - start,
    {
        assert(s@.skip(start as int).skip(1) == s@.skip(start + 1));
        start = start + 1;
    }
    let ghost rest = s@.skip(start as int);
    assert(trim_start_of(rest) == rest);
    let mut end: usize = s.len();
    assert(s@.subrange(start as int, end as int) == rest);
    while start < end && white_space(s[end - 1])
        invariant
            start <= end <= s.len(),
            trim_end_of(s@.subrange(start as int, end as int)) == trim_end_of(rest),
        decreases end,
    {
        assert(s@.subrange(start as int, end as int).drop_last() == s@.subrange(
            start as int,
            end - 1,
        ));
        end = end - 1;
    }
    slice_subrange(s, start, end)
}

/// The first position of `c` in `s`, or the length of `s`.
pub fn position(s: &[char], c: char) -> (at: usize)
    ensures
        at == index_of(s@, c),
{
    let mut at: usize = 0;
    while at < s.len() && s[at] != c
        invariant
            at <= s.len(),
            forall|i: int| 0 <= i < at ==> s@[i] != c,
        decreases s.len() - at,
    {
        at = at + 1;
    }
    proof {
        lemma_index_of_is(s@, c, at as int);
    }
    at
}

/// What stands before and after the first `separator` of `s`, if there is one.
pub fn split_once<'a>(s: &'a [char], separator: char) -> (r: Option<(&'a [char], &'a [char])>)
    ensures
        match r {
            Some((before, after)) => split_once_of(s@, separator) == Some((before@, after@)),
            None => split_once_of(s@, separator) is None,
        },
{
    let at: usize = position(s, separator);
    if at < s.len() {
        let before = slice_subrange(s, 0, at);
        let after = slice_subrange(s, at + 1, s.len());
        assert(before@ == s@.take(at as int));
        assert(after@ == s@.skip(at + 1));
        Some((before, after))
    } else {
        None
    }
}

/// The parts of `s` between its line feeds.
pub fn lines<'a>(s: &'a [char]) -> (r: Vec<&'a [char]>)
    ensures
        r@.map_values(|line: &'a [char]| line@) == lines_of(s@),
{
    let mut r: Vec<&'a [char]> = Vec::new();
    let mut rest: &'a [char] = s;
    assert(lines_of(s@) == Seq::<Seq<char>>::empty() + lines_of(rest@));
    loop
        invariant_except_break
            lines_of(s@) == r@.map_values(|line: &'a [char]| line@) + lines_of(rest@),
        ensures
            r@.map_values(|line: &'a [char]| line@) == lines_of(s@),
        decreases rest@.len(),
    {
        let ghost done = r@.map_values(|line: &'a [char]| line@);
        match split_once(rest, '\n') {
            Some((line, after)) => {
                r.push(line);
                assert(r@.map_values(|line: &'a [char]| line@) == done.push(line@));
                rest = after;
            },
            None => {
                r.push(rest);
                assert(r@.map_values(|line: &'a [char]| line@) == done.push(rest@));
                break;
            },
        }
    }
    r
}

/// Whether `s` reads `expected`.
pub fn reads(s: &[char], expected: &str) -> (r: bool)
    ensures
        r == (s@ == expected@),
{
    let other: Vec<char> = chars_of(expected);
    if s.len() != other.len() {
        return false;
    }
    for i in 0..s.len()
        invariant
            s@.len() == other@.len(),
            other@ == expected@,
            forall|j: int| 0 <= j < i ==> s@[j] == other@[j],
    {
        if s[i] != other[i] {
            return false;
        }
    }
    assert(s@ == other@);
    true
}

/// `s` with its ASCII capital letters replaced by small letters.
pub fn ascii_lowercase(s: &[char]) -> (r: Vec<char>)
    ensures
        r@ == ascii_lowercase_of(s@),
{
    let mut r: Vec<char> = Vec::new();
    for i in 0..s.len()
        invariant
            r@ == ascii_lowercase_of(s@.take(i as int)),
    {
        let c: char = s[i];
        let small: char = if 'A' <= c && c <= 'Z' {
            ((c as u8) + 32) as char
        } else {
            c
        };
        r.push(small);
        assert(s@.take(i + 1) == s@.take(i as int).push(c));
        assert(r@ == ascii_lowercase_of(s@.take(i + 1)));
    }
    assert(s@.take(s@.len() as int) == s@);
    r
}

/// White space is what Unicode has under that name, and nothing else.
pub proof fn white_space_is_unicodes(c: char)
    ensures
        is_white_space(c) <==> {
            let code = c as u32;
            ||| 0x9 <= code <= 0xd
            ||| code == 0x20
            ||| code == 0x85
            ||| code == 0xa0
            ||| code == 0x1680
            ||| 0x2000 <= code <= 0x200a
            ||| 0x2028 <= code <= 0x2029
            ||| code == 0x202f
            ||| code == 0x205f
            ||| code == 0x3000
        },
{
}

/// Trimming takes away white space at the two ends and nothing else: what stands before and behind
/// what is left is white space, and what is left neither starts nor ends with any.
pub proof fn trimming_takes_white_space_alone(s: Seq<char>) -> (ends: (int, int))
    ensures
        ({
            let (start, end) = ends;
            &&& 0 <= start <= end <= s.len()
            &&& trim_of(s) == s.subrange(start, end)
            &&& forall|i: int| 0 <= i < start ==> is_white_space(#[trigger] s[i])
            &&& forall|i: int| end <= i < s.len() ==> is_white_space(#[trigger] s[i])
            &&& start < end ==> !is_white_space(s[start]) && !is_white_space(s[end - 1])
        }),
{
    let start = lemma_trimmed_start(s);
    let t = trim_start_of(s);
    let n = lemma_trimmed_end(t);
    assert forall|i: int| start + n <= i < s.len() implies is_white_space(#[trigger] s[i]) by {
        assert(t[i - start] == s[i]);
    }
    if n > 0 {
        assert(t[0] == s[start]);
        assert(t[n - 1] == s[start + n - 1]);
    }
    assert(trim_of(s) == s.subrange(start, start + n));
    (start, start + n)
}

proof fn lemma_trimmed_start(s: Seq<char>) -> (start: int)
    ensures
        0 <= start <= s.len(),
        trim_start_of(s) == s.skip(start),
        forall|i: int| 0 <= i < start ==> is_white_space(#[trigger] s[i]),
        start < s.len() ==> !is_white_space(s[start]),
    decreases s.len(),
{
    if s.len() > 0 && is_white_space(s[0]) {
        let rest = s.skip(1);
        let start = lemma_trimmed_start(rest);
        assert(rest.skip(start) == s.skip(start + 1));
        assert forall|i: int| 0 <= i < start + 1 implies is_white_space(#[trigger] s[i]) by {
            if i > 0 {
                assert(rest[i - 1] == s[i]);
            }
        }
        start + 1
    } else {
        assert(s.skip(0) == s);
        0
    }
}

proof fn lemma_trimmed_end(s: Seq<char>) -> (end: int)
    ensures
        0 <= end <= s.len(),
        trim_end_of(s) == s.take(end),
        forall|i: int| end <= i < s.len() ==> is_white_space(#[trigger] s[i]),
        end > 0 ==> !is_white_space(s[end - 1]),
    decreases s.len(),
{
    if s.len() > 0 && is_white_space(s.last()) {
        let less = s.drop_last();
        let end = lemma_trimmed_end(less);
        assert(less.take(end) == s.take(end));
        assert forall|i: int| end <= i < s.len() implies is_white_space(#[trigger] s[i]) by {
            if i < less.len() {
                assert(less[i] == s[i]);
            }
        }
        end
    } else {
        assert(s.take(s.len() as int) == s);
        s.len() as int
    }
}

/// White space round a text makes no difference to what trimming leaves of it.
pub proof fn surrounding_white_space_is_trimmed(a: Seq<char>, s: Seq<char>, b: Seq<char>)
    requires
        forall|i: int| 0 <= i < a.len() ==> is_white_space(#[trigger] a[i]),
        forall|i: int| 0 <= i < b.len() ==> is_white_space(#[trigger] b[i]),
    ensures
        trim_of(a + s + b) == trim_of(s),
    decreases a.len() + b.len(),
{
    let all = a + s + b;
    if a.len() > 0 {
        let less = a.skip(1);
        assert forall|i: int| 0 <= i < less.len() implies is_white_space(#[trigger] less[i]) by {
            assert(less[i] == a[i + 1]);
        }
        surrounding_white_space_is_trimmed(less, s, b);
        assert(all.skip(1) == less + s + b);
        assert(all[0] == a[0]);
    } else if b.len() > 0 {
        let less = b.drop_last();
        assert forall|i: int| 0 <= i < less.len() implies is_white_space(#[trigger] less[i]) by {
            assert(less[i] == b[i]);
        }
        surrounding_white_space_is_trimmed(a, s, less);
        assert(all.drop_last() == a + s + less);
        assert(all.last() == b[b.len() - 1]);
        lemma_trim_of_drop_last(all);
    } else {
        assert(all == s);
    }
}

/// Splitting cuts at the first separator and nowhere else, and loses nothing but it.
pub proof fn splitting_cuts_at_the_first_separator(s: Seq<char>, separator: char)
    ensures
        split_once_of(s, separator) is None <==> !s.contains(separator),
        split_once_of(s, separator) matches Some((before, after)) ==> before.push(separator) + after
            == s && !before.contains(separator),
{
    lemma_index_of(s, separator);
    let at = index_of(s, separator) as int;
    if at < s.len() {
        let before = s.take(at);
        assert(s.contains(s[at]));
        assert(before.push(separator) + s.skip(at + 1) == s);
        assert(!before.contains(separator)) by {
            assert forall|i: int| 0 <= i < before.len() implies before[i] != separator by {
                assert(before[i] == s[i]);
            }
        }
    }
}

/// `lines` with a line feed between each two of them.
pub open spec fn joined_of(lines: Seq<Seq<char>>) -> Seq<char>
    decreases lines.len(),
{
    if lines.len() == 0 {
        seq![]
    } else if lines.len() == 1 {
        lines[0]
    } else {
        lines[0].push('\n') + joined_of(lines.skip(1))
    }
}

/// The lines of a text make up the text, with a line feed between each two of them and none inside,
/// however many they are.
pub proof fn lines_make_up_the_text(s: Seq<char>)
    ensures
        lines_of(s).len() > 0,
        joined_of(lines_of(s)) == s,
        forall|i: int| 0 <= i < lines_of(s).len() ==> !(#[trigger] lines_of(s)[i]).contains('\n'),
    decreases s.len(),
{
    lemma_lines_of_hold_no_line_feed(s);
    lemma_index_of(s, '\n');
    let at = index_of(s, '\n') as int;
    if at < s.len() {
        let rest = s.skip(at + 1);
        lines_make_up_the_text(rest);
        assert(lines_of(s).skip(1) == lines_of(rest));
        assert(s.take(at).push('\n') + rest == s);
    }
}

/// Small letters take the place of the capital letters from A to Z, each of its own, and no other
/// character changes.
pub proof fn lower_case_changes_capitals_alone(s: Seq<char>, i: int)
    requires
        0 <= i < s.len(),
    ensures
        ascii_lowercase_of(s).len() == s.len(),
        0x41 <= s[i] as u32 <= 0x5a ==> ascii_lowercase_of(s)[i] as u32 == s[i] as u32 + 32,
        !(0x41 <= s[i] as u32 <= 0x5a) ==> ascii_lowercase_of(s)[i] == s[i],
{
}

/// A character repeated is there as often as was asked for, and nothing else is.
pub proof fn repeated_characters_fill_the_text(c: char, n: nat, i: int)
    requires
        0 <= i < n,
    ensures
        repeat_of(c, n).len() == n,
        repeat_of(c, n)[i] == c,
{
}

/// The first place of a character holds it and has no such character before it; where there is
/// none, it is behind the end.
pub proof fn first_places_are_first(s: Seq<char>, c: char)
    ensures
        index_of(s, c) <= s.len(),
        index_of(s, c) == s.len() <==> !s.contains(c),
        index_of(s, c) < s.len() ==> s[index_of(s, c) as int] == c,
        forall|i: int| 0 <= i < index_of(s, c) ==> s[i] != c,
{
    lemma_index_of(s, c);
    if index_of(s, c) < s.len() {
        assert(s.contains(s[index_of(s, c) as int]));
    }
}

} // verus!
