//! The seed of the pseudo-random source, as given on the command line: an
//! unsigned whole number in decimal digits, with a plus sign before it or
//! without. A text that is no such number is not fatal: the default seed
//! takes its place, and the caller is told so.
use crate::number::{digits_between, is_digit};
use vstd::prelude::*;

verus! {

/// The seed of a run that names none.
pub const DEFAULT_SEED: u64 = 0;

/// The number that a digit stands for.
pub open spec fn digit_value(c: char) -> nat {
    (c as u32 - 0x30) as nat
}

/// The number that a run of decimal digits stands for; nothing stands for
/// zero.
pub open spec fn decimal_value(s: Seq<char>) -> nat
    decreases s.len(),
{
    if s.len() == 0 {
        0
    } else {
        decimal_value(s.drop_last()) * 10 + digit_value(s.last())
    }
}

/// The digits of a seed text: all of it, but for a leading plus sign.
pub open spec fn seed_digits(s: Seq<char>) -> Seq<char> {
    if s.len() > 0 && s[0] == '+' {
        s.subrange(1, s.len() as int)
    } else {
        s
    }
}

/// The seed that a text names: its digits' number, if there is at least one
/// digit, nothing but digits, and the number fits in 64 bits.
pub open spec fn seed_of(s: Seq<char>) -> Option<u64> {
    let d = seed_digits(s);
    if d.len() > 0 && digits_between(d, 0, d.len() as int) && decimal_value(d) <= u64::MAX {
        Some(decimal_value(d) as u64)
    } else {
        None
    }
}

/// Appending digits never makes the number smaller.
proof fn lemma_value_grows(s: Seq<char>, i: int)
    requires
        0 <= i <= s.len(),
    ensures
        decimal_value(s.subrange(0, i)) <= decimal_value(s),
    decreases s.len() - i,
{
    if i == s.len() {
        assert(s.subrange(0, i) =~= s);
    } else {
        lemma_value_grows(s.drop_last(), i);
        assert(s.drop_last().subrange(0, i) =~= s.subrange(0, i));
    }
}

/// Reads a seed: `Some` of the number that the text names, `None` when the
/// text is no unsigned decimal number or the number does not fit.
pub fn parse_seed(text: &str) -> (r: Option<u64>)
    ensures
        r == seed_of(text@),
{
    let len: usize = text.unicode_len();
    let mut start: usize = 0;
    if len > 0 && text.get_char(0) == '+' {
        start = 1;
    }
    let ghost digits = seed_digits(text@);
    assert(digits =~= text@.subrange(start as int, len as int));
    if start == len {
        return None;
    }
    let mut value: u64 = 0;
    let mut i: usize = start;
    while i < len
        invariant
            start <= i <= len,
            len == text@.len(),
            digits == seed_digits(text@),
            digits == text@.subrange(start as int, len as int),
            digits_between(digits, 0, i - start),
            value == decimal_value(digits.subrange(0, i - start)),
        decreases len - i,
    {
        let c = text.get_char(i);
        let code: u32 = c as u32;
        if !(0x30 <= code && code <= 0x39) {
            assert(!is_digit(digits[i - start]));
            return None;
        }
        let d: u64 = (code - 0x30) as u64;
        proof {
            assert(digits.subrange(0, i + 1 - start).drop_last() =~= digits.subrange(
                0,
                i - start,
            ));
            assert(decimal_value(digits.subrange(0, i + 1 - start)) == value * 10 + d);
        }
        if value > (u64::MAX - d) / 10 {
            proof {
                lemma_value_grows(digits, i + 1 - start);
                assert(decimal_value(digits) > u64::MAX);
            }
            return None;
        }
        value = value * 10 + d;
        i = i + 1;
    }
    assert(digits.subrange(0, len - start) =~= digits);
    Some(value)
}

/// The seed to run with, and whether it stands in for a text that named
/// none.
#[derive(Clone, Copy, Debug, PartialEq, Eq)]
pub struct SeedChoice {
    pub seed: u64,
    /// The argument was refused and the default seed is used in its place.
    pub fallback: bool,
}

/// The choice that an optional argument leads to.
pub open spec fn seed_choice(argument: Option<&str>) -> SeedChoice {
    match argument {
        None => SeedChoice { seed: DEFAULT_SEED, fallback: false },
        Some(text) => match seed_of(text@) {
            Some(seed) => SeedChoice { seed, fallback: false },
            None => SeedChoice { seed: DEFAULT_SEED, fallback: true },
        },
    }
}

/// Settles the seed of a run: the default without an argument, the
/// argument's number where it names one, and the default again, marked as a
/// fallback, where it does not.
pub fn seed_from_argument(argument: Option<&str>) -> (r: SeedChoice)
    ensures
        r == seed_choice(argument),
{
    match argument {
        None => SeedChoice { seed: DEFAULT_SEED, fallback: false },
        Some(text) => match parse_seed(text) {
            Some(seed) => SeedChoice { seed, fallback: false },
            None => SeedChoice { seed: DEFAULT_SEED, fallback: true },
        },
    }
}

} // verus!
