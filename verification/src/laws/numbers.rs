//! Whole numbers in decimal notation.

use crate::number::{
    digit_count, digits_value, int_text, int_value, is_digit, lemma_digit_count,
    lemma_digit_count_is, lemma_digits_grow, lemma_nat_text, nat_text, unsigned_part, written_int_reads_back,
    IntError,
};
use vstd::prelude::*;

verus! {

/// The number that a digit stands for.
pub open spec fn digit_of(c: char) -> int {
    c as u32 - '0' as u32
}

/// What reading gives for a number: itself, or on which side of the range it is.
pub open spec fn in_range(n: int, min: int, max: int) -> Result<int, IntError> {
    if n > max {
        Err(IntError::TooLarge)
    } else if n < min {
        Err(IntError::TooSmall)
    } else {
        Ok(n)
    }
}

/// One more digit makes ten times the number and the digit, away from zero.
pub proof fn one_more_digit_counts(s: Seq<char>, c: char, min: int, max: int)
    requires
        min <= 0 <= max,
        int_value(s, min, max) is Ok,
        '0' <= c <= '9',
    ensures
        ({
            let n = int_value(s, min, max)->Ok_0;
            int_value(s.push(c), min, max) == in_range(
                if s[0] == '-' {
                    10 * n - digit_of(c)
                } else {
                    10 * n + digit_of(c)
                },
                min,
                max,
            )
        }),
{
    let t = s.push(c);
    let digits = unsigned_part(s, min);
    lemma_digit_count(digits);
    assert(t[0] == s[0]);
    assert(unsigned_part(t, min) =~= digits.push(c));
    let more = digits.push(c);
    assert forall|i: int| 0 <= i < more.len() implies is_digit(#[trigger] more[i]) by {
        if i < digits.len() {
            assert(more[i] == digits[i]);
        }
    }
    lemma_digit_count_is(more, more.len());
    assert(more.take(more.len() as int) =~= more);
    assert(digits.take(digits.len() as int) =~= digits);
    assert(more.drop_last() =~= digits);
    assert(digits.len() > 0);
    if s[0] == '-' && min >= 0 {
        assert(is_digit(digits[0]));
    }
}

/// A digit alone, with a sign or without one, is its number; a minus counts only where the range
/// has negative numbers.
pub proof fn single_digit_counts(c: char, min: int, max: int)
    requires
        min <= 0 <= max,
        '0' <= c <= '9',
    ensures
        int_value(seq![c], min, max) == in_range(digit_of(c), min, max),
        int_value(seq!['+', c], min, max) == in_range(digit_of(c), min, max),
        min < 0 ==> int_value(seq!['-', c], min, max) == in_range(-digit_of(c), min, max),
        min == 0 ==> int_value(seq!['-', c], min, max) is Err,
{
    let one = seq![c];
    lemma_digit_count_is(one, 1);
    assert(one.take(1) =~= one);
    assert(one.drop_last() =~= Seq::<char>::empty());
    assert(digits_value(Seq::<char>::empty()) == 0);
    assert(digits_value(one) == digit_of(c));
    assert(unsigned_part(one, min) == one);
    let plus = seq!['+', c];
    let minus = seq!['-', c];
    assert(plus.drop_first() =~= one);
    assert(minus.drop_first() =~= one);
    if min == 0 {
        lemma_digit_count(minus);
        lemma_digit_count_is(minus, 0);
        assert(minus.take(0) =~= Seq::<char>::empty());
    }
}

/// What is no digit, and no sign in front, makes a text no number; so does the lack of digits.
pub proof fn other_characters_make_no_number(s: Seq<char>, i: int, min: int, max: int)
    requires
        min <= 0 <= max,
        0 <= i < s.len(),
        !('0' <= s[i] <= '9'),
        i == 0 ==> s[0] != '+' && s[0] != '-',
    ensures
        int_value(s, min, max) is Err,
        int_value(Seq::<char>::empty(), min, max) == Err::<int, IntError>(IntError::Empty),
        int_value(seq!['+'], min, max) is Err,
        int_value(seq!['-'], min, max) is Err,
{
    let digits = unsigned_part(s, min);
    lemma_digit_count(digits);
    let k = i - (s.len() - digits.len());
    assert(digits[k] == s[i]);
    if digit_count(digits) == digits.len() {
        assert(is_digit(digits[k]));
    }
    lemma_sign_alone(seq!['+'], min, max);
    lemma_sign_alone(seq!['-'], min, max);
}

proof fn lemma_sign_alone(sign: Seq<char>, min: int, max: int)
    requires
        sign == seq!['+'] || sign == seq!['-'],
    ensures
        int_value(sign, min, max) is Err,
{
    let digits = unsigned_part(sign, min);
    lemma_digit_count(digits);
    if digits.len() > 0 {
        assert(digits =~= sign);
        assert(!is_digit(digits[0]));
    }
}

/// What is read is in the range.
pub proof fn read_numbers_are_in_range(s: Seq<char>, min: int, max: int)
    requires
        int_value(s, min, max) is Ok,
    ensures
        min <= int_value(s, min, max)->Ok_0 <= max,
{
}

/// A written number reads back, or is refused for the side on which it is out of the range.
pub proof fn written_numbers_are_read(n: int, min: int, max: int)
    requires
        min < 0 <= max || (min == 0 <= max && 0 <= n),
    ensures
        int_value(int_text(n), min, max) == in_range(n, min, max),
{
    if min <= n <= max {
        written_int_reads_back(n, min, max);
    } else {
        let size = if n < 0 { (-n) as nat } else { n as nat };
        let digits = nat_text(size);
        lemma_nat_text(size);
        assert(is_digit(digits[0]));
        assert(unsigned_part(int_text(n), min) =~= digits);
        lemma_digit_count_is(digits, digits.len());
        assert(digits.take(digits.len() as int) =~= digits);
    }
}

/// A number is written digit by digit, the highest first, without needless zeros, and with a
/// minus sign in front where it is negative.
pub proof fn numbers_are_written_by_digits(n: nat, d: nat)
    requires
        d < 10,
    ensures
        int_text(d as int).len() == 1,
        digit_of(int_text(d as int)[0]) == d,
        n > 0 ==> int_text((10 * n + d) as int) == int_text(n as int) + int_text(d as int),
        n > 0 ==> int_text(-(n as int)) == seq!['-'] + int_text(n as int),
{
    if n > 0 {
        let m = 10 * n + d;
        assert(m / 10 == n && m % 10 == d);
        assert(nat_text(m) =~= nat_text(n) + nat_text(d));
    }
}

/// What is out of the range stays so, on the same side, whatever follows.
pub proof fn nothing_brings_a_number_back(s: Seq<char>, c: char, min: int, max: int)
    requires
        min <= 0 <= max,
        int_value(s, min, max) == Err::<int, IntError>(IntError::TooLarge) || int_value(
            s,
            min,
            max,
        ) == Err::<int, IntError>(IntError::TooSmall),
    ensures
        int_value(s.push(c), min, max) == int_value(s, min, max),
{
    let t = s.push(c);
    let digits = unsigned_part(s, min);
    let more = digits.push(c);
    lemma_digit_count(digits);
    lemma_digit_count(more);
    assert(t[0] == s[0]);
    assert(unsigned_part(t, min) =~= more);
    let n = digit_count(digits) as int;
    let m = digit_count(more) as int;
    assert(m >= n) by {
        if m < n {
            assert(more[m] == digits[m]);
            assert(is_digit(digits[m]));
        }
    }
    lemma_digits_grow(more, n, m);
    assert(more.take(n) =~= digits.take(n));
}

} // verus!
