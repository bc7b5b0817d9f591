//! Decimal numerals.

use vstd::prelude::*;
use crate::text::chars_of;

verus! {

/// The character is a decimal digit.
pub open spec fn is_digit(c: char) -> bool {
    '0' <= c <= '9'
}

/// Value of a decimal digit.
pub open spec fn digit_value(c: char) -> int {
    c as int - '0' as int
}

/// Value of a row of decimal digits, the most significant one first.
pub open spec fn digits_value(s: Seq<char>) -> int
    decreases s.len(),
{
    if s.len() == 0 {
        0
    } else {
        digits_value(s.drop_last()) * 10 + digit_value(s.last())
    }
}

/// The digits of a numeral: what follows a leading plus sign, or all of it.
pub open spec fn digits_of(s: Seq<char>) -> Seq<char> {
    if s.len() > 0 && s[0] == '+' {
        s.skip(1)
    } else {
        s
    }
}

/// An unsigned numeral: an optional plus sign and at least one digit.
pub open spec fn is_numeral(s: Seq<char>) -> bool {
    let digits = digits_of(s);
    &&& digits.len() > 0
    &&& forall|i: int| 0 <= i < digits.len() ==> is_digit(#[trigger] digits[i])
}

/// Reads the text as an unsigned integer that is at most `max`.
pub open spec fn parsed_unsigned(s: Seq<char>, max: int) -> Option<int> {
    if is_numeral(s) && digits_value(digits_of(s)) <= max {
        Some(digits_value(digits_of(s)))
    } else {
        None
    }
}

/// The decimal digits of a number, without leading zeros.
pub open spec fn decimal_digits(n: nat) -> Seq<char>
    decreases n,
{
    if n < 10 {
        seq![digit_char(n as int)]
    } else {
        decimal_digits(n / 10).push(digit_char((n % 10) as int))
    }
}

/// The character of a digit.
pub open spec fn digit_char(d: int) -> char {
    (48 + d) as char
}

proof fn lemma_value_grows(s: Seq<char>, k: int)
    requires
        0 <= k <= s.len(),
        forall|i: int| 0 <= i < s.len() ==> is_digit(#[trigger] s[i]),
    ensures
        0 <= digits_value(s.take(k)) <= digits_value(s),
    decreases s.len(),
{
    if k == s.len() {
        assert(s.take(k) =~= s);
        if s.len() > 0 {
            lemma_value_grows(s.drop_last(), s.len() - 1);
            assert(s.drop_last().take(s.len() - 1) =~= s.drop_last());
            assert(is_digit(s[s.len() - 1]));
        }
    } else {
        lemma_value_grows(s.drop_last(), k);
        assert(s.drop_last().take(k) =~= s.take(k));
        assert(is_digit(s[s.len() - 1]));
    }
}

/// Reads an unsigned decimal integer that is at most `max`: an optional plus
/// sign, then digits only.
pub fn parse_unsigned(s: &str, max: u64) -> (value: Option<u64>)
    ensures
        match value {
            Some(n) => parsed_unsigned(s@, max as int) == Some(n as int),
            None => parsed_unsigned(s@, max as int) is None,
        },
{
    let chars = chars_of(s);
    let len = chars.len();
    let from: usize = if len > 0 && chars[0] == '+' {
        1
    } else {
        0
    };
    let ghost digits = digits_of(s@);
    assert(digits =~= s@.skip(from as int));
    if from >= len {
        return None;
    }
    let mut value: u64 = 0;
    let mut i: usize = from;
    while i < len
        invariant
            chars@ == s@,
            len == s@.len(),
            from <= i <= len,
            digits == digits_of(s@),
            digits == s@.skip(from as int),
            value == digits_value(digits.take(i - from)),
            value <= max,
            forall|j: int| 0 <= j < i - from ==> is_digit(#[trigger] digits[j]),
        decreases len - i,
    {
        let c = chars[i];
        assert(digits[i - from] == c);
        if c < '0' || c > '9' {
            return None;
        }
        let digit: u64 = (c as u32 - 48) as u64;
        let next: u128 = value as u128 * 10 + digit as u128;
        proof {
            let longer = digits.take(i + 1 - from);
            assert(longer.drop_last() =~= digits.take(i - from));
            assert(longer.last() == c);
            assert(next == digits_value(longer));
            if next > max && is_numeral(s@) {
                lemma_value_grows(digits, i + 1 - from);
            }
        }
        if next > max as u128 {
            return None;
        }
        value = next as u64;
        i += 1;
    }
    assert(digits.take(len - from) =~= digits);
    Some(value)
}

/// Writes a number in decimal.
pub fn decimal(n: u64) -> (out: String)
    ensures
        out@ == decimal_digits(n as nat),
    decreases n,
{
    let digit: u8 = (n % 10) as u8;
    let c: char = (48 + digit) as char;
    if n < 10 {
        let mut out = String::new();
        out.push(c);
        assert(out@ =~= decimal_digits(n as nat));
        out
    } else {
        let mut out = decimal(n / 10);
        out.push(c);
        out
    }
}

/// What is written in decimal is read back as the same number, by every reader
/// whose limit it does not exceed.
pub proof fn law_decimal_read_back(n: nat, max: int)
    requires
        n <= max,
    ensures
        parsed_unsigned(decimal_digits(n), max) == Some(n as int),
{
    lemma_decimal_digits(n);
    let s = decimal_digits(n);
    assert(is_digit(s[0]));
    assert(digits_of(s) == s);
}

proof fn lemma_decimal_digits(n: nat)
    ensures
        decimal_digits(n).len() > 0,
        forall|i: int|
            0 <= i < decimal_digits(n).len() ==> is_digit(#[trigger] decimal_digits(n)[i]),
        digits_value(decimal_digits(n)) == n,
    decreases n,
{
    let s = decimal_digits(n);
    if n < 10 {
        reveal_with_fuel(digits_value, 2);
    } else {
        lemma_decimal_digits(n / 10);
        assert(s.drop_last() =~= decimal_digits(n / 10));
    }
}

/// A digit that is appended to a numeral counts one, and all that stood before it ten times
/// as much; a single digit counts as itself, and a plus sign in front of a numeral counts for
/// nothing.
pub proof fn law_digits_count(digits: Seq<char>, d: int, max: int)
    requires
        0 <= d <= 9,
        forall|i: int| 0 <= i < digits.len() ==> '0' <= #[trigger] digits[i] <= '9',
    ensures
        d <= max ==> parsed_unsigned(seq![(48 + d) as char], max) == Some(d),
        digits.len() > 0 ==> {
            let longer = digits.push((48 + d) as char);
            let all = parsed_unsigned(longer, max);
            let before = parsed_unsigned(digits, max);
            &&& all is Some ==> before is Some && all->0 == 10 * before->0 + d
            &&& before is Some && 10 * before->0 + d <= max ==> all is Some
            &&& parsed_unsigned(seq!['+'] + digits, max) == before
        },
{
    reveal_with_fuel(digits_value, 2);
    let single = seq![(48 + d) as char];
    assert(single.drop_last() =~= Seq::empty());
    assert(is_digit(single[0]));
    assert(digits_of(single) == single);
    if digits.len() > 0 {
        let longer = digits.push((48 + d) as char);
        assert(is_digit(digits[0]));
        assert(longer.drop_last() =~= digits);
        assert(digits_of(longer) == longer && digits_of(digits) == digits);
        assert forall|i: int| 0 <= i < longer.len() implies is_digit(#[trigger] longer[i]) by {
            if i < digits.len() {
                assert(longer[i] == digits[i]);
            }
        }
        assert forall|i: int| 0 <= i < digits.len() implies is_digit(#[trigger] digits[i]) by {
        }
        lemma_value_grows(digits, digits.len() as int);
        let signed = seq!['+'] + digits;
        assert(signed.skip(1) =~= digits);
    }
}

/// Nothing else is a numeral: a text that is read has a digit, and holds nothing but digits
/// behind an optional plus sign; and what is read lies between zero and the limit.
pub proof fn law_only_numerals_are_read(s: Seq<char>, max: int, i: int)
    ensures
        parsed_unsigned(s, max) is Some ==> {
            &&& s.len() > 0
            &&& 0 <= parsed_unsigned(s, max)->0 <= max
            &&& 0 <= i < s.len() ==> '0' <= s[i] <= '9' || (i == 0 && s[0] == '+' && s.len() > 1)
        },
{
    if is_numeral(s) {
        let digits = digits_of(s);
        lemma_value_grows(digits, digits.len() as int);
        assert(digits.take(digits.len() as int) =~= digits);
        if 0 <= i < s.len() {
            if s[0] == '+' {
                if i > 0 {
                    assert(is_digit(digits[i - 1]));
                }
            } else {
                assert(is_digit(digits[i]));
            }
        }
    }
}

/// A number is written with digits only, and without a leading zero unless it is zero.
pub proof fn law_decimal_is_plain(n: nat, i: int)
    requires
        0 <= i < decimal_digits(n).len(),
    ensures
        '0' <= decimal_digits(n)[i] <= '9',
        n > 0 ==> decimal_digits(n)[0] != '0',
        n < 10 ==> decimal_digits(n).len() == 1,
    decreases n,
{
    lemma_decimal_digits(n);
    assert(is_digit(decimal_digits(n)[i]));
    if n >= 10 {
        lemma_decimal_digits(n / 10);
        law_decimal_is_plain(n / 10, 0);
    }
}

} // verus!
