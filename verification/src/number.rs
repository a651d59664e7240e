//! Whole numbers in decimal notation.

use crate::text::{chars_of, text_of};
use vstd::prelude::*;

verus! {

/// Why a text is not a number of the wanted range.
#[derive(Clone, Copy, PartialEq, Eq, Debug)]
pub enum IntError {
    /// The text is empty.
    Empty,
    /// There is no digit, or something else than a digit among the digits.
    InvalidDigit,
    /// The number is above the range.
    TooLarge,
    /// The number is below the range.
    TooSmall,
}

impl IntError {
    /// The words for the error.
    pub open spec fn text(self) -> Seq<char> {
        match self {
            IntError::Empty => "cannot parse integer from empty string"@,
            IntError::InvalidDigit => "invalid digit found in string"@,
            IntError::TooLarge => "number too large to fit in target type"@,
            IntError::TooSmall => "number too small to fit in target type"@,
        }
    }

    /// The words for the error.
    pub fn describe(self) -> (r: &'static str)
        ensures
            r@ == self.text(),
    {
        match self {
            IntError::Empty => "cannot parse integer from empty string",
            IntError::InvalidDigit => "invalid digit found in string",
            IntError::TooLarge => "number too large to fit in target type",
            IntError::TooSmall => "number too small to fit in target type",
        }
    }
}

/// Whether the character is a decimal digit.
pub open spec fn is_digit(c: char) -> bool {
    '0' <= c <= '9'
}

/// How many digits the text begins with.
pub open spec fn digit_count(s: Seq<char>) -> nat
    decreases s.len(),
{
    if s.len() > 0 && is_digit(s[0]) {
        1 + digit_count(s.drop_first())
    } else {
        0
    }
}

/// The number that the digits write.
pub open spec fn digits_value(s: Seq<char>) -> nat
    decreases s.len(),
{
    if s.len() == 0 {
        0
    } else {
        10 * digits_value(s.drop_last()) + (s.last() as u32 - '0' as u32) as nat
    }
}

/// Whether the text begins with a minus sign, for a range that has negative numbers.
pub open spec fn is_negative(s: Seq<char>, min: int) -> bool {
    min < 0 && s.len() > 0 && s[0] == '-'
}

/// The text without its sign.
pub open spec fn unsigned_part(s: Seq<char>, min: int) -> Seq<char> {
    if s.len() > 0 && (s[0] == '+' || is_negative(s, min)) {
        s.drop_first()
    } else {
        s
    }
}

/// The number that the leading digits of the text write, with its sign.
pub open spec fn leading_value(s: Seq<char>, min: int) -> int {
    let digits = unsigned_part(s, min);
    let size = digits_value(digits.take(digit_count(digits) as int)) as int;
    if is_negative(s, min) {
        -size
    } else {
        size
    }
}

/// The number in the range `min..=max` that the text writes: an optional sign, a minus only
/// where the range has negative numbers, and digits. Digits that leave the range count before
/// what follows them.
pub open spec fn int_value(s: Seq<char>, min: int, max: int) -> Result<int, IntError> {
    let digits = unsigned_part(s, min);
    if s.len() == 0 {
        Err(IntError::Empty)
    } else if leading_value(s, min) > max {
        Err(IntError::TooLarge)
    } else if leading_value(s, min) < min {
        Err(IntError::TooSmall)
    } else if digits.len() == 0 || digit_count(digits) < digits.len() {
        Err(IntError::InvalidDigit)
    } else {
        Ok(leading_value(s, min))
    }
}

/// The digits that a text begins with.
pub proof fn lemma_digit_count(s: Seq<char>)
    ensures
        digit_count(s) <= s.len(),
        forall|i: int| 0 <= i < digit_count(s) ==> is_digit(#[trigger] s[i]),
        digit_count(s) < s.len() ==> !is_digit(s[digit_count(s) as int]),
    decreases s.len(),
{
    if s.len() > 0 && is_digit(s[0]) {
        let rest = s.drop_first();
        lemma_digit_count(rest);
        assert forall|i: int| 0 <= i < digit_count(s) implies is_digit(#[trigger] s[i]) by {
            if i > 0 {
                assert(rest[i - 1] == s[i]);
            }
        }
    }
}

/// A text of as many digits as it has characters before the first other one.
pub proof fn lemma_digit_count_is(s: Seq<char>, n: nat)
    requires
        n <= s.len(),
        forall|i: int| 0 <= i < n ==> is_digit(#[trigger] s[i]),
        n < s.len() ==> !is_digit(s[n as int]),
    ensures
        digit_count(s) == n,
{
    lemma_digit_count(s);
    if digit_count(s) < n {
        assert(is_digit(s[digit_count(s) as int]));
    }
}

/// More digits write a number that is not smaller.
pub proof fn lemma_digits_grow(s: Seq<char>, n: int, m: int)
    requires
        0 <= n <= m <= s.len(),
        forall|i: int| 0 <= i < m ==> is_digit(#[trigger] s[i]),
    ensures
        digits_value(s.take(n)) <= digits_value(s.take(m)),
    decreases m,
{
    if n < m {
        lemma_digits_grow(s, n, m - 1);
        assert(s.take(m).drop_last() =~= s.take(m - 1));
        assert(is_digit(s[m - 1]));
    }
}

/// Reads a number of the range `min..=max`.
pub fn parsed_int(text: &str, min: i128, max: i128) -> (r: Result<i128, IntError>)
    requires
        -0x1_0000_0000_0000_0000 <= min <= 0,
        0 <= max <= 0x1_0000_0000_0000_0000,
    ensures
        match r {
            Ok(value) => int_value(text@, min as int, max as int) == Ok::<int, IntError>(value as int),
            Err(error) => int_value(text@, min as int, max as int) == Err::<int, IntError>(error),
        },
{
    let s: Vec<char> = chars_of(text);
    if s.len() == 0 {
        return Err(IntError::Empty);
    }
    let negative: bool = min < 0 && s[0] == '-';
    let start: usize = if negative || s[0] == '+' { 1 } else { 0 };
    let ghost digits = unsigned_part(s@, min as int);
    let mut size: i128 = 0;
    let mut i: usize = start;
    assert(digits =~= s@.skip(start as int));
    assert(digits.take(0) =~= Seq::<char>::empty());
    while i < s.len() && '0' <= s[i] && s[i] <= '9'
        invariant
            start <= i <= s@.len(),
            start <= 1,
            s@ == text@,
            s@.len() > 0,
            negative == is_negative(s@, min as int),
            digits == unsigned_part(s@, min as int),
            digits == s@.skip(start as int),
            -0x1_0000_0000_0000_0000 <= min <= 0,
            0 <= max <= 0x1_0000_0000_0000_0000,
            forall|j: int| 0 <= j < i - start ==> is_digit(#[trigger] digits[j]),
            size == digits_value(digits.take(i - start)),
            0 <= size,
            if negative { -size >= min } else { size <= max },
        decreases s@.len() - i,
    {
        let digit: i128 = (s[i] as u32 - '0' as u32) as i128;
        size = 10 * size + digit;
        i += 1;
        proof {
            let n = i - start;
            assert(digits.take(n).drop_last() =~= digits.take(n - 1));
            assert(digits[n - 1] == s@[i - 1]);
            lemma_digit_count(digits);
            if digit_count(digits) < n {
                assert(is_digit(digits[digit_count(digits) as int]));
            }
            lemma_digits_grow(digits, n, digit_count(digits) as int);
        }
        if negative {
            if -size < min {
                return Err(IntError::TooSmall);
            }
        } else if size > max {
            return Err(IntError::TooLarge);
        }
    }
    proof {
        lemma_digit_count_is(digits, (i - start) as nat);
    }
    if i == start || i < s.len() {
        return Err(IntError::InvalidDigit);
    }
    Ok(if negative { -size } else { size })
}

/// The character for a digit.
pub open spec fn digit_char(n: nat) -> char {
    ('0' as u32 + n) as char
}

/// The number in decimal notation, without needless zeros.
pub open spec fn nat_text(n: nat) -> Seq<char>
    decreases n,
{
    if n < 10 {
        seq![digit_char(n)]
    } else {
        nat_text(n / 10).push(digit_char(n % 10))
    }
}

/// The number in decimal notation, with a minus sign where it is negative.
pub open spec fn int_text(n: int) -> Seq<char> {
    if n < 0 {
        seq!['-'] + nat_text((-n) as nat)
    } else {
        nat_text(n as nat)
    }
}

/// Writes the number in decimal notation.
pub fn written_int(n: i64) -> (r: String)
    ensures
        r@ == int_text(n as int),
{
    let size: u64 = if n < 0 { (-(n as i128)) as u64 } else { n as u64 };
    let digits: Vec<char> = written_digits(size);
    if n < 0 {
        let mut text = String::new();
        text.push('-');
        let tail = text_of(digits.as_slice());
        let r = vstd::string::StringExecFns::concat(text, tail.as_str());
        assert(r@ =~= int_text(n as int));
        r
    } else {
        text_of(digits.as_slice())
    }
}

/// Writes the number in decimal notation.
pub fn written_nat(n: u64) -> (r: String)
    ensures
        r@ == nat_text(n as nat),
{
    text_of(written_digits(n).as_slice())
}

fn written_digits(n: u64) -> (r: Vec<char>)
    ensures
        r@ == nat_text(n as nat),
    decreases n,
{
    let last: char = (48 + (n % 10) as u8) as char;
    assert(last == digit_char(n as nat % 10));
    if n < 10 {
        let mut digits: Vec<char> = Vec::new();
        digits.push(last);
        assert(digits@ =~= seq![digit_char(n as nat)]);
        digits
    } else {
        let mut digits: Vec<char> = written_digits(n / 10);
        digits.push(last);
        digits
    }
}

/// The decimal notation of a number writes that number.
pub proof fn lemma_nat_text(n: nat)
    ensures
        nat_text(n).len() > 0,
        forall|i: int| 0 <= i < nat_text(n).len() ==> is_digit(#[trigger] nat_text(n)[i]),
        digits_value(nat_text(n)) == n,
    decreases n,
{
    if n < 10 {
        assert(seq![digit_char(n)].drop_last() =~= Seq::<char>::empty());
        assert(digits_value(Seq::<char>::empty()) == 0);
    } else {
        lemma_nat_text(n / 10);
        assert(nat_text(n).drop_last() =~= nat_text(n / 10));
        let shorter = nat_text(n / 10);
        assert forall|i: int| 0 <= i < nat_text(n).len() implies is_digit(
            #[trigger] nat_text(n)[i],
        ) by {
            if i < shorter.len() {
                assert(nat_text(n)[i] == shorter[i]);
            }
        }
    }
}

/// A number of the range that is written down reads back as itself.
pub proof fn written_int_reads_back(n: int, min: int, max: int)
    requires
        min <= n <= max,
    ensures
        int_value(int_text(n), min, max) == Ok::<int, IntError>(n),
{
    let size = if n < 0 { (-n) as nat } else { n as nat };
    let digits = nat_text(size);
    lemma_nat_text(size);
    let text = int_text(n);
    assert(is_digit(digits[0]));
    assert(unsigned_part(text, min) =~= digits);
    lemma_digit_count_is(digits, digits.len());
    assert(digits.take(digits.len() as int) =~= digits);
}

} // verus!
