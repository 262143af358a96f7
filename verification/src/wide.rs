//! Wide strings: text in 16-bit units, as Windows takes and gives it.

use crate::text::chars_of;
use vstd::prelude::*;
use vstd::utf8::char_u32_cast;

verus! {

/// `char::from_u32` gives the character with the code point `i`, and nothing where `i` is no
/// Unicode scalar value.
pub assume_specification[ char::from_u32 ](i: u32) -> (r: Option<char>)
    ensures
        match r {
            Some(c) => c as u32 == i,
            None => 0xd800 <= i <= 0xdfff || i > 0x10ffff,
        },
;

pub open spec fn is_high_surrogate(unit: u16) -> bool {
    0xd800 <= unit <= 0xdbff
}

pub open spec fn is_low_surrogate(unit: u16) -> bool {
    0xdc00 <= unit <= 0xdfff
}

/// The units of one character: itself below 0x10000, a surrogate pair above.
pub open spec fn units_of(c: char) -> Seq<u16> {
    let code = c as int;
    if code < 0x10000 {
        seq![code as u16]
    } else {
        seq![
            (0xd800 + (code - 0x10000) / 0x400) as u16,
            (0xdc00 + (code - 0x10000) % 0x400) as u16,
        ]
    }
}

/// The character of a surrogate pair.
pub open spec fn pair_of(high: u16, low: u16) -> char {
    (0x10000 + (high - 0xd800) * 0x400 + (low - 0xdc00)) as char
}

/// The units of `s`.
pub open spec fn wide_of(s: Seq<char>) -> Seq<u16>
    decreases s.len(),
{
    if s.len() == 0 {
        seq![]
    } else {
        wide_of(s.drop_last()) + units_of(s.last())
    }
}

/// The text of `units`, with U+FFFD for each surrogate that is not part of a pair.
pub open spec fn narrow_of(units: Seq<u16>) -> Seq<char>
    decreases units.len(),
{
    if units.len() == 0 {
        seq![]
    } else if is_high_surrogate(units[0]) && units.len() > 1 && is_low_surrogate(units[1]) {
        seq![pair_of(units[0], units[1])] + narrow_of(units.skip(2))
    } else if is_high_surrogate(units[0]) || is_low_surrogate(units[0]) {
        seq!['\u{fffd}'] + narrow_of(units.skip(1))
    } else {
        seq![units[0] as char] + narrow_of(units.skip(1))
    }
}

/// A character is a Unicode scalar value.
proof fn lemma_scalar(c: char)
    ensures
        c as u32 == c as int,
        0 <= c as int <= 0x10ffff,
        !(0xd800 <= c as int <= 0xdfff),
{
}

/// The units of `value`, with a zero behind them.
pub fn to_wide_null(value: &str) -> (r: Vec<u16>)
    ensures
        r@ == wide_of(value@).push(0),
{
    let chars: Vec<char> = chars_of(value);
    let mut r: Vec<u16> = Vec::new();
    for i in 0..chars.len()
        invariant
            chars@ == value@,
            r@ == wide_of(value@.take(i as int)),
    {
        let c: char = chars[i];
        let code: u32 = c as u32;
        proof {
            lemma_scalar(c);
        }
        if code < 0x10000 {
            r.push(code as u16);
        } else {
            r.push((0xd800 + (code - 0x10000) / 0x400) as u16);
            r.push((0xdc00 + (code - 0x10000) % 0x400) as u16);
        }
        assert(value@.take(i + 1).drop_last() == value@.take(i as int));
        assert(r@ == wide_of(value@.take(i as int)) + units_of(c));
    }
    assert(value@.take(value@.len() as int) == value@);
    r.push(0);
    r
}

/// The text of `units`, with U+FFFD for each surrogate that is not part of a pair.
pub fn from_wide_lossy(units: &[u16]) -> (text: String)
    ensures
        text@ == narrow_of(units@),
{
    let mut text = String::new();
    let mut i: usize = 0;
    assert(units@.skip(0) == units@);
    while i < units.len()
        invariant
            i <= units.len(),
            narrow_of(units@) == text@ + narrow_of(units@.skip(i as int)),
        decreases units.len() - i,
    {
        let unit: u16 = units[i];
        let ghost rest = units@.skip(i as int);
        assert(rest.skip(1) == units@.skip(i + 1));
        if 0xd800 <= unit && unit <= 0xdbff && i + 1 < units.len() && 0xdc00 <= units[i + 1]
            && units[i + 1] <= 0xdfff {
            assert(rest.skip(2) == units@.skip(i + 2));
            let code: u32 = 0x10000 + (unit as u32 - 0xd800) * 0x400 + (units[i + 1] as u32
                - 0xdc00);
            match char::from_u32(code) {
                Some(c) => {
                    proof {
                        char_u32_cast(c, code);
                    }
                    text.push(c);
                },
                None => {},
            }
            i = i + 2;
        } else {
            match char::from_u32(unit as u32) {
                Some(c) => {
                    proof {
                        lemma_scalar(c);
                        char_u32_cast(c, unit as u32);
                    }
                    text.push(c);
                },
                None => {
                    text.push('\u{fffd}');
                },
            }
            i = i + 1;
        }
    }
    assert(units@.skip(units@.len() as int) == Seq::<u16>::empty());
    text
}

/// The units of a text are those of its first character and of the rest.
proof fn lemma_wide_of_first(s: Seq<char>)
    requires
        s.len() > 0,
    ensures
        wide_of(s) == units_of(s[0]) + wide_of(s.skip(1)),
    decreases s.len(),
{
    if s.len() == 1 {
        assert(s.drop_last() == Seq::<char>::empty());
        assert(s.skip(1) == Seq::<char>::empty());
        assert(wide_of(Seq::<char>::empty()) == Seq::<u16>::empty());
        assert(wide_of(s) == units_of(s[0]) + wide_of(s.skip(1)));
    } else {
        lemma_wide_of_first(s.drop_last());
        assert(s.drop_last().skip(1) == s.skip(1).drop_last());
        assert(wide_of(s) == units_of(s[0]) + wide_of(s.skip(1)));
    }
}

/// One character is read back from its units.
proof fn lemma_units_of(c: char)
    ensures
        ({
            let units = units_of(c);
            ||| units.len() == 1 && !is_high_surrogate(units[0]) && !is_low_surrogate(units[0])
                && units[0] as char == c
            ||| units.len() == 2 && is_high_surrogate(units[0]) && is_low_surrogate(units[1])
                && pair_of(units[0], units[1]) == c
        }),
{
    lemma_scalar(c);
}

/// A text is read back from its units, whatever characters it holds.
pub proof fn wide_reads_back(s: Seq<char>)
    ensures
        narrow_of(wide_of(s)) == s,
    decreases s.len(),
{
    if s.len() > 0 {
        let c = s[0];
        let rest = wide_of(s.skip(1));
        let units = wide_of(s);
        lemma_wide_of_first(s);
        lemma_units_of(c);
        wide_reads_back(s.skip(1));
        assert(seq![c] + s.skip(1) == s);
        assert(units[0] == units_of(c)[0]);
        if units_of(c).len() == 1 {
            assert(units.skip(1) == rest);
        } else {
            assert(units[1] == units_of(c)[1]);
            assert(units.skip(2) == rest);
        }
    }
}

/// A text without null characters has no zero among its units, so that the zero put behind them
/// is the first one and ends exactly that text.
pub proof fn wide_null_ends_the_text(s: Seq<char>)
    requires
        !s.contains('\0'),
    ensures
        !wide_of(s).contains(0),
    decreases s.len(),
{
    if s.len() > 0 {
        let c = s.last();
        let before = wide_of(s.drop_last());
        lemma_scalar(c);
        assert(c != '\0') by {
            assert(s.contains(s[s.len() - 1]));
        }
        assert(!s.drop_last().contains('\0')) by {
            if s.drop_last().contains('\0') {
                let i = s.drop_last().index_of('\0');
                assert(s[i] == '\0');
            }
        }
        wide_null_ends_the_text(s.drop_last());
        assert forall|i: int| 0 <= i < wide_of(s).len() implies wide_of(s)[i] != 0 by {
            if i < before.len() {
                assert(before.contains(before[i]));
            }
        }
    }
}

/// The units of a text are those of its characters one behind the other.
pub proof fn wide_texts_are_made_of_characters(a: Seq<char>, b: Seq<char>)
    ensures
        wide_of(a + b) == wide_of(a) + wide_of(b),
    decreases b.len(),
{
    if b.len() == 0 {
        assert(a + b == a);
        assert(wide_of(a) + wide_of(b) == wide_of(a));
    } else {
        wide_texts_are_made_of_characters(a, b.drop_last());
        assert((a + b).drop_last() == a + b.drop_last());
        assert(wide_of(a + b) == wide_of(a) + wide_of(b));
    }
}

/// A character is one unit, its own code, where that fits in 16 bits. Any other is a high surrogate
/// and a low one, which hold the upper and the lower ten bits of what its code has beyond them.
pub proof fn characters_are_one_unit_or_two(c: char)
    ensures
        ({
            let units = wide_of(seq![c]);
            let code = c as int;
            if code <= 0xffff {
                units.len() == 1 && units[0] == code
            } else {
                &&& units.len() == 2
                &&& 0xd800 <= units[0] <= 0xdbff
                &&& 0xdc00 <= units[1] <= 0xdfff
                &&& (units[0] - 0xd800) * 1024 + (units[1] - 0xdc00) + 0x10000 == code
            }
        }),
{
    lemma_scalar(c);
    assert(seq![c].drop_last() == Seq::<char>::empty());
    assert(wide_of(Seq::<char>::empty()) == Seq::<u16>::empty());
    assert(wide_of(seq![c]) == units_of(c));
}

/// Units are read one by one: a high surrogate with a low one behind it as the character of the
/// pair, any other surrogate as U+FFFD, and every other unit as the character with its code.
pub proof fn units_are_read_one_by_one(unit: u16, rest: Seq<u16>)
    ensures
        ({
            let text = narrow_of(seq![unit] + rest);
            let high = 0xd800 <= unit <= 0xdbff;
            let low = 0xdc00 <= unit <= 0xdfff;
            let paired = high && rest.len() > 0 && 0xdc00 <= rest[0] <= 0xdfff;
            &&& text.len() > 0
            &&& paired ==> text[0] as int == 0x10000 + (unit - 0xd800) * 1024 + (rest[0] - 0xdc00)
                && text.skip(1) == narrow_of(rest.skip(1))
            &&& (high || low) && !paired ==> text[0] == '\u{fffd}' && text.skip(1) == narrow_of(
                rest,
            )
            &&& !(high || low) ==> text[0] as int == unit && text.skip(1) == narrow_of(rest)
        }),
{
    let units = seq![unit] + rest;
    assert(units.skip(1) == rest);
    if rest.len() > 0 {
        assert(units[1] == rest[0]);
        assert(units.skip(2) == rest.skip(1));
    }
    let text = narrow_of(units);
    assert(text.skip(1) == narrow_of(rest) || text.skip(1) == narrow_of(rest.skip(1)));
}

} // verus!
