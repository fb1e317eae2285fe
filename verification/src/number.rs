//! The notation of a coordinate: which texts are numbers.
//!
//! ```text
//! Float  ::= Sign? ( 'inf' | 'infinity' | 'nan' | Number )
//! Number ::= ( Digit+ | Digit+ '.' Digit* | Digit* '.' Digit+ ) Exp?
//! Exp    ::= 'e' Sign? Digit+
//! Sign   ::= [+-]
//! Digit  ::= [0-9]
//! ```
//!
//! Letters count in either case. Nothing may stand before or after the
//! number, white space included.
use vstd::prelude::*;

verus! {

/// One of the ten decimal digits.
pub open spec fn is_digit(c: char) -> bool {
    0x30 <= c as u32 <= 0x39
}

/// A plus or a minus.
pub open spec fn is_sign(c: char) -> bool {
    c == '+' || c == '-'
}

/// `c` is the lower-case ASCII letter `letter`, or its capital.
pub open spec fn same_letter(c: char, letter: char) -> bool {
    c == letter || c as u32 + 0x20 == letter as u32
}

/// Every character from `from` up to `to` is a digit.
pub open spec fn digits_between(s: Seq<char>, from: int, to: int) -> bool {
    forall|i: int| from <= i < to ==> is_digit(#[trigger] s[i])
}

/// From `from` to the end, the text spells `inf`, `infinity` or `nan`.
pub open spec fn special_at(s: Seq<char>, from: int) -> bool {
    let inf = same_letter(s[from], 'i') && same_letter(s[from + 1], 'n') && same_letter(
        s[from + 2],
        'f',
    );
    let inity = same_letter(s[from + 3], 'i') && same_letter(s[from + 4], 'n') && same_letter(
        s[from + 5],
        'i',
    ) && same_letter(s[from + 6], 't') && same_letter(s[from + 7], 'y');
    let nan = same_letter(s[from], 'n') && same_letter(s[from + 1], 'a') && same_letter(
        s[from + 2],
        'n',
    );
    ||| s.len() - from == 3 && (inf || nan)
    ||| s.len() - from == 8 && inf && inity
}

/// From `from` up to `to` stand digits with at most one point among them,
/// and at least one digit. The point, if any, stands at `point`; without
/// one, `point` is `to`.
pub open spec fn decimal_at(s: Seq<char>, from: int, point: int, to: int) -> bool {
    &&& from <= point <= to
    &&& digits_between(s, from, point)
    &&& point < to ==> s[point] == '.' && digits_between(s, point + 1, to)
    &&& point > from || to - point >= 2
}

/// From `from` to the end stands an exponent: the letter `e`, then a sign
/// or none, then one digit or more.
pub open spec fn exponent_at(s: Seq<char>, from: int) -> bool {
    &&& from < s.len()
    &&& same_letter(s[from], 'e')
    &&& {
        let first = if from + 1 < s.len() && is_sign(s[from + 1]) {
            from + 2
        } else {
            from + 1
        };
        first < s.len() && digits_between(s, first, s.len() as int)
    }
}

/// From `from` to the end stands a decimal number, with an exponent or
/// without.
pub open spec fn plain_number_at(s: Seq<char>, from: int) -> bool {
    exists|point: int, to: int|
        {
            &&& #[trigger] decimal_at(s, from, point, to)
            &&& to <= s.len()
            &&& to == s.len() || exponent_at(s, to)
        }
}

/// Whether the whole text is a number in the notation above.
pub open spec fn is_number(s: Seq<char>) -> bool {
    let from: int = if s.len() > 0 && is_sign(s[0]) {
        1
    } else {
        0
    };
    special_at(s, from) || plain_number_at(s, from)
}

fn digit(c: char) -> (r: bool)
    ensures
        r == is_digit(c),
{
    let v: u32 = c as u32;
    0x30 <= v && v <= 0x39
}

fn sign(c: char) -> (r: bool)
    ensures
        r == is_sign(c),
{
    c == '+' || c == '-'
}

fn letter(c: char, lower: char) -> (r: bool)
    requires
        lower as u32 >= 0x20,
    ensures
        r == same_letter(c, lower),
{
    let v: u32 = c as u32;
    let w: u32 = lower as u32;
    v == w || v == w - 0x20
}

/// The first place at or after `from` that holds no digit, or the end.
fn scan_digits(text: &str, len: usize, from: usize) -> (r: usize)
    requires
        len == text@.len(),
        from <= len,
    ensures
        from <= r <= len,
        digits_between(text@, from as int, r as int),
        r < len ==> !is_digit(text@[r as int]),
{
    let mut i: usize = from;
    while i < len && digit(text.get_char(i))
        invariant
            from <= i <= len,
            len == text@.len(),
            digits_between(text@, from as int, i as int),
        decreases len - i,
    {
        i = i + 1;
    }
    i
}

fn special(text: &str, len: usize, from: usize) -> (r: bool)
    requires
        len == text@.len(),
        from <= len,
    ensures
        r == special_at(text@, from as int),
{
    if len - from == 3 {
        let a = text.get_char(from);
        let b = text.get_char(from + 1);
        let c = text.get_char(from + 2);
        (letter(a, 'i') && letter(b, 'n') && letter(c, 'f')) || (letter(a, 'n') && letter(b, 'a')
            && letter(c, 'n'))
    } else if len - from == 8 {
        letter(text.get_char(from), 'i') && letter(text.get_char(from + 1), 'n') && letter(
            text.get_char(from + 2),
            'f',
        ) && letter(text.get_char(from + 3), 'i') && letter(text.get_char(from + 4), 'n')
            && letter(text.get_char(from + 5), 'i') && letter(text.get_char(from + 6), 't')
            && letter(text.get_char(from + 7), 'y')
    } else {
        false
    }
}

fn exponent(text: &str, len: usize, from: usize) -> (r: bool)
    requires
        len == text@.len(),
        from < len,
    ensures
        r == exponent_at(text@, from as int),
{
    if !letter(text.get_char(from), 'e') {
        return false;
    }
    let mut first: usize = from + 1;
    if first < len && sign(text.get_char(first)) {
        first = first + 1;
    }
    let end: usize = scan_digits(text, len, first);
    first < len && end == len
}

fn plain_number(text: &str, len: usize, from: usize) -> (r: bool)
    requires
        len == text@.len(),
        from <= len,
    ensures
        r == plain_number_at(text@, from as int),
{
    let ghost s = text@;
    let point: usize = scan_digits(text, len, from);
    let mut to: usize = point;
    if point < len && text.get_char(point) == '.' {
        to = scan_digits(text, len, point + 1);
    }
    let some_digit: bool = point > from || to - point >= 2;
    let tail: bool = to == len || exponent(text, len, to);
    proof {
        // A split of the text into a decimal and an exponent is the split
        // that the scan found: digits cannot run past the first character
        // that is none, and neither a point nor the letter `e` is a digit.
        assert forall|p: int, t: int|
            #[trigger] decimal_at(s, from as int, p, t) && t <= s.len() && (t == s.len()
                || exponent_at(s, t)) implies p == point && t == to by {
            if p < point {
                assert(is_digit(s[p]));
            }
            if point < p {
                assert(is_digit(s[point as int]));
            }
            if t < to {
                assert(is_digit(s[t]));
            }
            if to < t {
                assert(is_digit(s[to as int]));
            }
        }
        if some_digit && tail {
            assert(decimal_at(s, from as int, point as int, to as int));
        }
    }
    some_digit && tail
}

/// Decides whether a text is a number: an optional sign, then `inf`,
/// `infinity` or `nan` in any case, or decimal digits with an optional
/// point and an optional exponent.
pub fn is_numeric(text: &str) -> (r: bool)
    ensures
        r == is_number(text@),
{
    let len: usize = text.unicode_len();
    let mut from: usize = 0;
    if len > 0 && sign(text.get_char(0)) {
        from = 1;
    }
    special(text, len, from) || plain_number(text, len, from)
}

} // verus!
