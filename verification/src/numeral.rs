//! Decimal numerals: reading an unsigned number from text and writing numbers
//! as text, as launch arguments, environment values and port names need them.

use vstd::prelude::*;
use vstd::string::*;

verus! {

/// `c` is one of the ten decimal digits.
pub open spec fn is_digit(c: char) -> bool {
    48 <= c as nat <= 57
}

/// The number that the digit `c` stands for.
pub open spec fn digit_value(c: char) -> nat {
    (c as nat - 48) as nat
}

/// The digit that stands for `d`, which is below ten.
pub open spec fn digit_char(d: nat) -> char {
    if d == 0 {
        '0'
    } else if d == 1 {
        '1'
    } else if d == 2 {
        '2'
    } else if d == 3 {
        '3'
    } else if d == 4 {
        '4'
    } else if d == 5 {
        '5'
    } else if d == 6 {
        '6'
    } else if d == 7 {
        '7'
    } else if d == 8 {
        '8'
    } else {
        '9'
    }
}

/// Every character of `s` is a decimal digit.
pub open spec fn all_digits(s: Seq<char>) -> bool {
    forall|i: int| 0 <= i < s.len() ==> is_digit(#[trigger] s[i])
}

/// The number written by the digits `s`, most significant digit first.
pub open spec fn digits_value(s: Seq<char>) -> nat
    decreases s.len(),
{
    if s.len() == 0 {
        0
    } else {
        10 * digits_value(s.drop_last()) + digit_value(s.last())
    }
}

/// The digits of an unsigned numeral: the text without one leading plus sign.
pub open spec fn unsigned_digits(s: Seq<char>) -> Seq<char> {
    if s.len() > 0 && s[0] == '+' {
        s.subrange(1, s.len() as int)
    } else {
        s
    }
}

/// The number that `s` denotes as a `usize`: an optional plus sign followed
/// by at least one decimal digit, with a value that fits. Anything else
/// denotes nothing.
pub open spec fn usize_of(s: Seq<char>) -> Option<usize> {
    let digits = unsigned_digits(s);
    if digits.len() > 0 && all_digits(digits) && digits_value(digits) <= usize::MAX {
        Some(digits_value(digits) as usize)
    } else {
        None
    }
}

/// The decimal numeral of `n`, without sign and without leading zeros.
pub open spec fn decimal(n: nat) -> Seq<char>
    decreases n,
{
    if n < 10 {
        seq![digit_char(n)]
    } else {
        decimal(n / 10).push(digit_char(n % 10))
    }
}

/// The decimal numeral of `i`, with a minus sign in front when it is negative.
pub open spec fn signed_decimal(i: int) -> Seq<char> {
    if i < 0 {
        seq!['-'] + decimal((-i) as nat)
    } else {
        decimal(i as nat)
    }
}

/// The value of a prefix of digits never exceeds the value of the whole.
pub proof fn lemma_digits_value_grows(s: Seq<char>, n: int)
    requires
        0 <= n <= s.len(),
    ensures
        digits_value(s.take(n)) <= digits_value(s),
    decreases s.len() - n,
{
    if n == s.len() {
        assert(s.take(n) =~= s);
    } else {
        lemma_digits_value_grows(s.drop_last(), n);
        assert(s.drop_last().take(n) =~= s.take(n));
    }
}

/// A decimal numeral consists of digits and reads back as the number it was
/// written from.
pub proof fn law_decimal_reads_back(n: nat)
    ensures
        decimal(n).len() > 0,
        all_digits(decimal(n)),
        digits_value(decimal(n)) == n,
        decimal(n)[0] != '+',
        n <= usize::MAX ==> usize_of(decimal(n)) == Some(n as usize),
    decreases n,
{
    let text = decimal(n);
    if n < 10 {
        assert(text.drop_last() =~= Seq::<char>::empty());
        assert(digits_value(text.drop_last()) == 0);
        assert(text.last() == digit_char(n));
    } else {
        law_decimal_reads_back(n / 10);
        assert(text.drop_last() =~= decimal(n / 10));
        assert(text.last() == digit_char(n % 10));
        assert(text[0] == decimal(n / 10)[0]);
    }
    assert(unsigned_digits(text) == text);
}

/// `digits` is a numeral without sign and without leading zeros: what
/// [`decimal`] writes.
pub open spec fn is_canonical(digits: Seq<char>) -> bool {
    &&& digits.len() > 0
    &&& all_digits(digits)
    &&& digits.len() == 1 || digits[0] != '0'
}

/// A decimal numeral is canonical, and the numeral of a number that is not
/// zero does not begin with a zero.
pub proof fn law_decimal_is_canonical(n: nat)
    ensures
        is_canonical(decimal(n)),
        n > 0 ==> decimal(n)[0] != '0',
    decreases n,
{
    law_decimal_reads_back(n);
    if n >= 10 {
        law_decimal_is_canonical(n / 10);
        assert(decimal(n)[0] == decimal(n / 10)[0]);
    }
}

/// Each digit is the digit of its own value, and only the digit zero stands
/// for zero.
pub proof fn lemma_digit_of_value(c: char)
    requires
        is_digit(c),
    ensures
        digit_char(digit_value(c)) == c,
        digit_value(c) < 10,
        c != '0' ==> digit_value(c) > 0,
{
}

/// Digits that do not begin with a zero write a number that is not zero.
pub proof fn lemma_leading_digit_counts(digits: Seq<char>)
    requires
        digits.len() > 0,
        all_digits(digits),
        digits[0] != '0',
    ensures
        digits_value(digits) > 0,
    decreases digits.len(),
{
    let front = digits.drop_last();
    if front.len() > 0 {
        assert(front[0] == digits[0]);
        assert forall|i: int| 0 <= i < front.len() implies is_digit(#[trigger] front[i]) by {
            assert(front[i] == digits[i]);
        }
        lemma_leading_digit_counts(front);
    } else {
        assert(digits.last() == digits[0]);
        lemma_digit_of_value(digits[0]);
    }
}

/// A canonical numeral is the decimal numeral of the number it writes: each
/// number has one canonical numeral.
pub proof fn law_canonical_is_decimal(digits: Seq<char>)
    requires
        is_canonical(digits),
    ensures
        decimal(digits_value(digits)) == digits,
    decreases digits.len(),
{
    let front = digits.drop_last();
    let last = digits.last();
    assert(is_digit(digits[digits.len() - 1]));
    lemma_digit_of_value(last);
    if front.len() == 0 {
        assert(digits_value(front) == 0);
        assert(decimal(digits_value(digits)) =~= digits);
    } else {
        assert(front[0] == digits[0]);
        assert forall|i: int| 0 <= i < front.len() implies is_digit(#[trigger] front[i]) by {
            assert(front[i] == digits[i]);
        }
        lemma_leading_digit_counts(front);
        law_canonical_is_decimal(front);
        let value = digits_value(digits);
        assert(value == 10 * digits_value(front) + digit_value(last));
        assert(value / 10 == digits_value(front));
        assert(value % 10 == digit_value(last));
        assert(decimal(value) =~= digits);
    }
}

/// The digit for `d` as text.
fn digit_text(d: usize) -> (text: &'static str)
    requires
        d < 10,
    ensures
        text@ == seq![digit_char(d as nat)],
{
    proof {
        reveal_strlit("0");
        reveal_strlit("1");
        reveal_strlit("2");
        reveal_strlit("3");
        reveal_strlit("4");
        reveal_strlit("5");
        reveal_strlit("6");
        reveal_strlit("7");
        reveal_strlit("8");
        reveal_strlit("9");
    }
    let text = if d == 0 {
        "0"
    } else if d == 1 {
        "1"
    } else if d == 2 {
        "2"
    } else if d == 3 {
        "3"
    } else if d == 4 {
        "4"
    } else if d == 5 {
        "5"
    } else if d == 6 {
        "6"
    } else if d == 7 {
        "7"
    } else if d == 8 {
        "8"
    } else {
        "9"
    };
    assert(text@ =~= seq![digit_char(d as nat)]);
    text
}

/// Writes `n` as a decimal numeral.
pub fn format_u64(n: u64) -> (text: String)
    ensures
        text@ == decimal(n as nat),
    decreases n,
{
    if n < 10 {
        String::from_str(digit_text(n as usize))
    } else {
        let mut text = format_u64(n / 10);
        text.append(digit_text((n % 10) as usize));
        assert(text@ =~= decimal(n as nat));
        text
    }
}

/// Writes `n` as a decimal numeral.
pub fn format_usize(n: usize) -> (text: String)
    ensures
        text@ == decimal(n as nat),
{
    format_u64(n as u64)
}

/// Writes `i` as a decimal numeral, with a minus sign when it is negative.
pub fn format_i32(i: i32) -> (text: String)
    ensures
        text@ == signed_decimal(i as int),
{
    if i < 0 {
        let magnitude: u64 = (-(i as i64)) as u64;
        let digits = format_u64(magnitude);
        let text = String::from_str("-").concat(digits.as_str());
        proof {
            reveal_strlit("-");
            assert(text@ =~= signed_decimal(i as int));
        }
        text
    } else {
        format_u64(i as u64)
    }
}

/// Reads an unsigned decimal numeral.
pub fn parse_usize(s: &str) -> (number: Option<usize>)
    ensures
        number == usize_of(s@),
{
    if !s.is_ascii() {
        proof {
            lemma_digits_are_ascii(s@);
        }
        return None;
    }
    let len = s.unicode_len();
    let start: usize = if len > 0 && s.get_ascii(0) == 43 {
        1
    } else {
        0
    };
    let ghost digits = unsigned_digits(s@);
    assert(digits =~= s@.subrange(start as int, len as int));
    if start == len {
        return None;
    }
    let mut value: usize = 0;
    let mut i: usize = start;
    while i < len
        invariant
            start <= i <= len,
            len == s@.len(),
            s.is_ascii(),
            digits == s@.subrange(start as int, len as int),
            digits == unsigned_digits(s@),
            all_digits(digits.take(i - start)),
            value == digits_value(digits.take(i - start)),
        decreases len - i,
    {
        let byte = s.get_ascii(i);
        let ghost seen = digits.take(i - start);
        let ghost next = digits.take(i - start + 1);
        assert(digits[i - start] == s@[i as int]);
        assert(next.drop_last() =~= seen);
        assert(next.last() == s@[i as int]);
        if byte < 48 || byte > 57 {
            assert(!is_digit(digits[i - start]));
            return None;
        }
        let digit = (byte - 48) as usize;
        assert(digit == digit_value(s@[i as int]));
        assert(all_digits(next)) by {
            assert forall|j: int| 0 <= j < next.len() implies is_digit(#[trigger] next[j]) by {
                if j < seen.len() {
                    assert(next[j] == seen[j]);
                }
            }
        }
        let grown = match value.checked_mul(10) {
            Some(tenfold) => tenfold.checked_add(digit),
            None => None,
        };
        match grown {
            Some(more) => {
                value = more;
            },
            None => {
                proof {
                    assert(digits_value(next) > usize::MAX);
                    lemma_digits_value_grows(digits, i - start + 1);
                    if all_digits(digits) {
                    }
                }
                return None;
            },
        }
        i = i + 1;
    }
    assert(digits.take(len - start) =~= digits);
    Some(value)
}

/// No character lies below the first one.
pub proof fn lemma_char_floor(c: char)
    ensures
        '\0' <= c,
{
}

/// A text with a character outside ASCII is no unsigned numeral.
proof fn lemma_digits_are_ascii(s: Seq<char>)
    requires
        !vstd::utf8::is_ascii_chars(s),
    ensures
        usize_of(s) is None,
{
    let digits = unsigned_digits(s);
    if all_digits(digits) {
        assert forall|i: int| 0 <= i < s.len() implies '\0' <= #[trigger] s[i] <= '\u{7f}' by {
            let c = s[i];
            if s[0] == '+' {
                if i > 0 {
                    assert(is_digit(digits[i - 1]));
                    assert(digits[i - 1] == c);
                }
            } else {
                assert(is_digit(digits[i]));
            }
            lemma_char_floor(c);
        }
    }
}

} // verus!

