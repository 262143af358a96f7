//! Whole numbers in decimal.

use vstd::prelude::*;

verus! {

/// The character of the digit `d`.
pub open spec fn digit_of(d: nat) -> char {
    ('0' as u32 + d) as char
}

pub open spec fn is_digit(c: char) -> bool {
    '0' <= c <= '9'
}

/// `n` in decimal, without leading zeros.
pub open spec fn decimal_of(n: nat) -> Seq<char>
    decreases n,
{
    if n < 10 {
        seq![digit_of(n)]
    } else {
        decimal_of(n / 10).push(digit_of(n % 10))
    }
}

/// `n` in decimal, with a minus sign where it is negative.
pub open spec fn signed_decimal_of(n: int) -> Seq<char> {
    if n < 0 {
        seq!['-'] + decimal_of((-n) as nat)
    } else {
        decimal_of(n as nat)
    }
}

/// The number that a sequence of digits stands for.
pub open spec fn value_of(digits: Seq<char>) -> nat
    decreases digits.len(),
{
    if digits.len() == 0 {
        0
    } else {
        value_of(digits.drop_last()) * 10 + (digits.last() as nat - '0' as nat) as nat
    }
}

pub open spec fn all_digits(s: Seq<char>) -> bool {
    forall|i: int| 0 <= i < s.len() ==> is_digit(#[trigger] s[i])
}

/// The number that `s` reads: digits, at least one, behind a plus sign or none; nothing where it
/// reads otherwise or the number does not fit.
pub open spec fn read_u32_of(s: Seq<char>) -> Option<u32> {
    let digits = if s.len() > 0 && s[0] == '+' {
        s.skip(1)
    } else {
        s
    };
    if digits.len() > 0 && all_digits(digits) && value_of(digits) <= u32::MAX {
        Some(value_of(digits) as u32)
    } else {
        None
    }
}

/// A number in decimal is made of digits, and reads as that number.
pub proof fn lemma_decimal_of(n: nat)
    ensures
        decimal_of(n).len() > 0,
        all_digits(decimal_of(n)),
        value_of(decimal_of(n)) == n,
    decreases n,
{
    if n >= 10 {
        lemma_decimal_of(n / 10);
        let s = decimal_of(n);
        assert(s.drop_last() == decimal_of(n / 10));
    } else {
        let s = decimal_of(n);
        assert(s.drop_last() == Seq::<char>::empty());
        assert(value_of(s.drop_last()) == 0);
    }
}

/// What is written of a number is read back as that number.
pub proof fn decimal_reads_back(n: u32)
    ensures
        read_u32_of(decimal_of(n as nat)) == Some(n),
{
    lemma_decimal_of(n as nat);
    assert(is_digit(decimal_of(n as nat)[0]));
}

/// A longer row of digits does not stand for a smaller number.
proof fn lemma_value_of_monotone(digits: Seq<char>, k: int)
    requires
        all_digits(digits),
        0 <= k <= digits.len(),
    ensures
        value_of(digits.take(k)) <= value_of(digits),
    decreases digits.len(),
{
    if k < digits.len() {
        let less = digits.drop_last();
        assert(all_digits(less));
        lemma_value_of_monotone(less, k);
        assert(less.take(k) == digits.take(k));
    } else {
        assert(digits.take(k) == digits);
    }
}

/// Appends `n` in decimal to `text`.
pub fn push_decimal(text: &mut String, n: u128)
    ensures
        final(text)@ == old(text)@ + decimal_of(n as nat),
    decreases n,
{
    if n >= 10 {
        push_decimal(text, n / 10);
    }
    let digit: char = (48 + (n % 10) as u8) as char;
    text.push(digit);
}

/// Appends `n` in decimal to `text`.
pub fn push_signed_decimal(text: &mut String, n: i64)
    ensures
        final(text)@ == old(text)@ + signed_decimal_of(n as int),
{
    if n < 0 {
        text.push('-');
        push_decimal(text, (-(n as i128)) as u128);
    } else {
        push_decimal(text, n as u128);
    }
}

/// The number that `s` reads, if it reads one that fits.
pub fn read_u32(s: &[char]) -> (r: Option<u32>)
    ensures
        r == read_u32_of(s@),
{
    let start: usize = if s.len() > 0 && s[0] == '+' {
        1
    } else {
        0
    };
    let ghost digits = s@.skip(start as int);
    assert(s@.skip(0) == s@);
    if start == s.len() {
        return None;
    }
    let mut value: u64 = 0;
    let mut i: usize = start;
    assert(digits.take(0) == Seq::<char>::empty());
    while i < s.len()
        invariant
            start <= i <= s.len(),
            digits == s@.skip(start as int),
            digits == if s@.len() > 0 && s@[0] == '+' {
                s@.skip(1)
            } else {
                s@
            },
            value <= u32::MAX,
            all_digits(digits.take(i - start)),
            value == value_of(digits.take(i - start)),
        decreases s.len() - i,
    {
        let c: char = s[i];
        assert(digits[i - start] == c);
        if !('0' <= c && c <= '9') {
            return None;
        }
        let ghost before = digits.take(i - start);
        let ghost after = digits.take(i + 1 - start);
        assert(after == before.push(c));
        assert(after.drop_last() == before);
        value = value * 10 + (c as u64 - 48);
        if value > 0xffff_ffff {
            proof {
                if all_digits(digits) {
                    lemma_value_of_monotone(digits, i + 1 - start);
                }
            }
            return None;
        }
        i = i + 1;
    }
    assert(digits.take(digits.len() as int) == digits);
    Some(value as u32)
}

/// Digits stand for a number by their places: another digit behind them makes it ten times as great
/// and adds itself.
pub proof fn digits_stand_by_their_places(digits: Seq<char>, d: nat)
    requires
        d < 10,
    ensures
        value_of(seq![]) == 0,
        value_of(digits.push(('0' as u32 + d) as char)) == value_of(digits) * 10 + d,
{
    let c = ('0' as u32 + d) as char;
    assert(digits.push(c).drop_last() == digits);
}

/// A number is written in the digits that stand for it and in no more: only zero starts with a
/// zero, and is that alone.
pub proof fn decimals_have_no_leading_zeros(n: nat)
    ensures
        value_of(decimal_of(n)) == n,
        all_digits(decimal_of(n)),
        decimal_of(n)[0] == '0' <==> n == 0,
        n < 10 <==> decimal_of(n).len() == 1,
    decreases n,
{
    lemma_decimal_of(n);
    if n >= 10 {
        decimals_have_no_leading_zeros(n / 10);
    }
}

/// Ten times a number and a digit is written as the number and that digit.
pub proof fn decimals_grow_at_their_end(n: nat, d: nat)
    requires
        n > 0,
        d < 10,
    ensures
        decimal_of(10 * n + d) == decimal_of(n).push(('0' as u32 + d) as char),
{
    assert((10 * n + d) / 10 == n);
    assert((10 * n + d) % 10 == d);
}

/// A number is read from digits alone, at least one of them, behind a plus sign or none, where it
/// fits in 32 bits; it is the number that they stand for, whatever zeros they start with.
pub proof fn numbers_are_read_from_digits(digits: Seq<char>)
    requires
        digits.len() > 0 ==> digits[0] != '+',
    ensures
        read_u32_of(digits) is Some <==> digits.len() > 0 && value_of(digits) <= 0xffff_ffff && (
        forall|i: int| 0 <= i < digits.len() ==> '0' <= (#[trigger] digits[i]) <= '9'),
        read_u32_of(digits) matches Some(n) ==> n == value_of(digits),
        read_u32_of(seq!['+'] + digits) == read_u32_of(digits),
{
    let in_range = forall|i: int| 0 <= i < digits.len() ==> '0' <= (#[trigger] digits[i]) <= '9';
    assert((seq!['+'] + digits).skip(1) == digits);
    assert(all_digits(digits) <==> in_range) by {
        if in_range {
            assert forall|i: int| 0 <= i < digits.len() implies is_digit(#[trigger] digits[i]) by {
                assert('0' <= digits[i] <= '9');
            }
        }
        if all_digits(digits) {
            assert forall|i: int| 0 <= i < digits.len() implies '0' <= (#[trigger] digits[i])
                <= '9' by {
                assert(is_digit(digits[i]));
            }
        }
    }
}

/// Behind a plus sign, another one is not read over.
pub proof fn two_signs_are_no_number(s: Seq<char>)
    ensures
        read_u32_of(seq!['+', '+'] + s) is None,
{
    let digits = (seq!['+', '+'] + s).skip(1);
    assert(digits[0] == '+');
    assert(!is_digit(digits[0]));
}

/// A negative number is written as its amount behind a minus sign, any other without a sign.
pub proof fn signs_stand_before_the_amount(n: int)
    ensures
        n >= 0 ==> signed_decimal_of(n) == decimal_of(n as nat),
        n < 0 ==> signed_decimal_of(n) == seq!['-'] + decimal_of((0 - n) as nat),
{
}

} // verus!
