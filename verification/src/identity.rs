//! Identities, as the relay checks them against the roster of players.
//!
//! The host lists its players by the decimal text of their identity. An identity is valid
//! while some entry of the roster is exactly that text.

use crate::decimal::{
    accumulate, decimal, digit_of, lemma_accumulate_stops, parse_decimal, parsed, to_decimal,
    ParseDecimalError,
};
use vstd::prelude::*;
use vstd::std_specs::iter::IteratorSpec;

verus! {

/// Whether some entry of the roster is the decimal text of `uid`.
pub open spec fn on_roster(uid: i64, roster: Seq<String>) -> bool {
    exists|i: int| 0 <= i < roster.len() && (#[trigger] roster[i])@ == decimal(uid as int)
}

/// Tells whether the identity `uid` is on the roster: whether some entry is its decimal text.
pub fn uid_exits(uid: i64, roster: &Vec<String>) -> (found: bool)
    ensures
        found == on_roster(uid, roster@),
{
    let text = to_decimal(uid);
    let mut i: usize = 0;
    while i < roster.len()
        invariant
            i <= roster.len(),
            text@ == decimal(uid as int),
            forall|j: int| 0 <= j < i ==> (#[trigger] roster@[j])@ != decimal(uid as int),
        decreases roster.len() - i,
    {
        if roster[i] == text {
            return true;
        }
        i += 1;
    }
    false
}

/// Reads the identity of the local player from the decimal text under which the host knows
/// it: an optional sign, then at least one digit, and a value in range. Where the text is
/// none, says what is wrong with it at the first place from the left.
pub fn parse_local_uid(text: &str) -> (r: Result<i64, ParseDecimalError>)
    ensures
        parsed(r) == parse_decimal(text@),
{
    broadcast use vstd::string::group_string_axioms;

    let first = match text.chars().next() {
        None => {
            return Err(ParseDecimalError::Empty);
        },
        Some(c) => c,
    };
    let negative = first == '-';
    let signed = negative || first == '+';
    let mut chars = text.chars();
    if signed {
        let _ = chars.next();
    }
    let ghost digits_text = if signed {
        text@.skip(1)
    } else {
        text@
    };
    let ghost mut seen: Seq<char> = Seq::empty();
    proof {
        assert(text@.drop_first() =~= text@.skip(1));
        assert(digits_text.skip(0) =~= digits_text);
    }
    let mut value: i64 = 0;
    let mut any = false;
    loop
        invariant
            chars.remaining() == digits_text.skip(seen.len() as int),
            seen == digits_text.take(seen.len() as int),
            seen.len() <= digits_text.len(),
            accumulate(seen, negative) == Ok::<int, ParseDecimalError>(value as int),
            negative ==> value <= 0,
            !negative ==> value >= 0,
            any == (seen.len() > 0),
            chars.decrease() is Some,
            text@.len() > 0,
            signed == (text@[0] == '-' || text@[0] == '+'),
            negative == (text@[0] == '-'),
            digits_text == (if signed {
                text@.skip(1)
            } else {
                text@
            }),
        ensures
            seen.len() == digits_text.len(),
        decreases chars.decrease()->0,
    {
        let c = match chars.next() {
            None => {
                break ;
            },
            Some(c) => c,
        };
        let ghost longer = digits_text.take(seen.len() as int + 1);
        proof {
            assert(longer.drop_last() =~= seen);
            assert(longer.last() == c);
        }
        let d = match digit_of(c) {
            None => {
                proof {
                    lemma_accumulate_stops(digits_text, longer.len() as int, negative);
                }
                return Err(ParseDecimalError::InvalidDigit);
            },
            Some(d) => d,
        };
        let next = match value.checked_mul(10) {
            None => None,
            Some(v) => if negative {
                v.checked_sub(d)
            } else {
                v.checked_add(d)
            },
        };
        match next {
            None => {
                proof {
                    lemma_accumulate_stops(digits_text, longer.len() as int, negative);
                }
                if negative {
                    return Err(ParseDecimalError::NegOverflow);
                } else {
                    return Err(ParseDecimalError::PosOverflow);
                }
            },
            Some(v) => {
                value = v;
            },
        }
        proof {
            seen = longer;
        }
        any = true;
    }
    proof {
        assert(seen =~= digits_text);
    }
    if any {
        Ok(value)
    } else {
        Err(ParseDecimalError::InvalidDigit)
    }
}

} // verus!
