//! Numbers as decimal text, written and read.

use vstd::prelude::*;
use vstd::string::{StrSliceExecFns, StringExecFns};

verus! {

/// The character of the decimal digit `d`.
pub open spec fn digit_char(d: int) -> char
    recommends
        0 <= d < 10,
{
    ('0' as int + d) as char
}

/// The decimal digits of `n`, most significant first, with no leading zero.
pub open spec fn digits(n: nat) -> Seq<char>
    decreases n,
{
    if n < 10 {
        seq![digit_char(n as int)]
    } else {
        digits(n / 10).push(digit_char((n % 10) as int))
    }
}

/// The decimal text of `n`: a minus sign if it is negative, then its digits.
pub open spec fn decimal(n: int) -> Seq<char> {
    if n < 0 {
        seq!['-'] + digits((-n) as nat)
    } else {
        digits(n as nat)
    }
}

/// The text of one decimal digit.
fn digit_str(d: u64) -> (text: &'static str)
    requires
        d < 10,
    ensures
        text@ == seq![digit_char(d as int)],
{
    proof {
        reveal_strlit("0123456789");
    }
    let text = "0123456789".substring_ascii(d as usize, d as usize + 1);
    assert(text@ =~= seq![digit_char(d as int)]);
    text
}

/// Appends the decimal digits of `n` to `text`.
fn push_digits(text: &mut String, n: u64)
    ensures
        final(text)@ == old(text)@ + digits(n as nat),
    decreases n,
{
    if n >= 10 {
        push_digits(text, n / 10);
    }
    text.append(digit_str(n % 10));
    proof {
        assert(final(text)@ =~= old(text)@ + digits(n as nat));
    }
}

/// Writes a number as decimal text.
pub fn to_decimal(n: i64) -> (text: String)
    ensures
        text@ == decimal(n as int),
{
    let mut text = String::new();
    if n < 0 {
        proof {
            reveal_strlit("-");
        }
        text.append("-");
        push_digits(&mut text, (-(n + 1)) as u64 + 1);
    } else {
        push_digits(&mut text, n as u64);
    }
    proof {
        assert(text@ =~= decimal(n as int));
    }
    text
}

/// Why a text is not the decimal text of a number.
#[derive(Debug, Clone, Copy, PartialEq, Eq, Structural)]
pub enum ParseDecimalError {
    /// The text is empty.
    Empty,
    /// The text holds a character that is no digit, or a sign and nothing else.
    InvalidDigit,
    /// The number is too large.
    PosOverflow,
    /// The number is too small.
    NegOverflow,
}

/// The value of a decimal digit, if the character is one.
pub open spec fn digit_value(c: char) -> Option<int> {
    if '0' <= c <= '9' {
        Some(c as int - '0' as int)
    } else {
        None
    }
}

/// The number that a run of digits stands for, read from the left, with the sign given; or
/// what stops the reading first: a character that is no digit, or a number out of range.
pub open spec fn accumulate(text: Seq<char>, negative: bool) -> Result<int, ParseDecimalError>
    decreases text.len(),
{
    if text.len() == 0 {
        Ok(0)
    } else {
        match accumulate(text.drop_last(), negative) {
            Err(e) => Err(e),
            Ok(value) => match digit_value(text.last()) {
                None => Err(ParseDecimalError::InvalidDigit),
                Some(d) => {
                    let next = if negative {
                        10 * value - d
                    } else {
                        10 * value + d
                    };
                    if next > i64::MAX {
                        Err(ParseDecimalError::PosOverflow)
                    } else if next < i64::MIN {
                        Err(ParseDecimalError::NegOverflow)
                    } else {
                        Ok(next)
                    }
                },
            },
        }
    }
}

/// The number that a text stands for: an optional sign, then at least one digit, and a value
/// in range.
pub open spec fn parse_decimal(text: Seq<char>) -> Result<int, ParseDecimalError> {
    if text.len() == 0 {
        Err(ParseDecimalError::Empty)
    } else if text[0] == '-' || text[0] == '+' {
        if text.len() == 1 {
            Err(ParseDecimalError::InvalidDigit)
        } else {
            accumulate(text.skip(1), text[0] == '-')
        }
    } else {
        accumulate(text, false)
    }
}

/// What a result of parsing stands for: the number as an integer.
pub open spec fn parsed(r: Result<i64, ParseDecimalError>) -> Result<int, ParseDecimalError> {
    match r {
        Ok(n) => Ok(n as int),
        Err(e) => Err(e),
    }
}

/// Tells the value of a decimal digit, if the character is one.
pub fn digit_of(c: char) -> (d: Option<i64>)
    ensures
        d is Some == digit_value(c) is Some,
        d matches Some(v) ==> digit_value(c) == Some(v as int) && 0 <= v < 10,
{
    if '0' <= c && c <= '9' {
        Some((c as u32 - '0' as u32) as i64)
    } else {
        None
    }
}

/// Where reading a prefix of a text stops, reading the text stops for the same reason.
pub proof fn lemma_accumulate_stops(text: Seq<char>, n: int, negative: bool)
    requires
        0 <= n <= text.len(),
        accumulate(text.take(n), negative) is Err,
    ensures
        accumulate(text, negative) == accumulate(text.take(n), negative),
    decreases text.len() - n,
{
    if n < text.len() {
        assert(text.take(n + 1).drop_last() =~= text.take(n));
        lemma_accumulate_stops(text, n + 1, negative);
    } else {
        assert(text.take(n) =~= text);
    }
}

/// Reading the digits of a number gives the number, with either sign, as long as it is in
/// range.
pub proof fn lemma_accumulate_digits(n: nat, negative: bool)
    requires
        negative ==> n <= 0x8000_0000_0000_0000,
        !negative ==> n <= i64::MAX,
    ensures
        digits(n).len() > 0,
        digits(n)[0] != '-' && digits(n)[0] != '+',
        accumulate(digits(n), negative) == Ok::<int, ParseDecimalError>(
            if negative {
                -(n as int)
            } else {
                n as int
            },
        ),
    decreases n,
{
    if n < 10 {
        assert(digits(n).drop_last().len() == 0);
        assert(accumulate(digits(n).drop_last(), negative) == Ok::<int, ParseDecimalError>(0));
    } else {
        lemma_accumulate_digits(n / 10, negative);
        assert(digits(n).drop_last() =~= digits(n / 10));
        assert(digits(n)[0] == digits(n / 10)[0]);
    }
}

/// The decimal text of a number reads back as that number.
pub proof fn lemma_parse_decimal_text(n: i64)
    ensures
        parse_decimal(decimal(n as int)) == Ok::<int, ParseDecimalError>(n as int),
{
    if n < 0 {
        lemma_accumulate_digits((-n) as nat, true);
        assert(decimal(n as int).skip(1) =~= digits((-n) as nat));
    } else {
        lemma_accumulate_digits(n as nat, false);
    }
}

} // verus!
