//! The data lines of a particle file: a label, then the three coordinates,
//! separated by white space.
//!
//! A field is a longest run of characters that are not white space. The
//! label is the first field of a line and is ignored; the three that follow
//! are the coordinates, each a number in text. Anything after the fourth
//! field is ignored too.
use crate::number::{is_number, is_numeric};
use vstd::prelude::*;

verus! {

/// White space in the sense of the Unicode property of that name.
pub open spec fn is_space(c: char) -> bool {
    let v = c as u32;
    ||| 0x09 <= v <= 0x0d
    ||| v == 0x20
    ||| v == 0x85
    ||| v == 0xa0
    ||| v == 0x1680
    ||| 0x2000 <= v <= 0x200a
    ||| v == 0x2028
    ||| v == 0x2029
    ||| v == 0x202f
    ||| v == 0x205f
    ||| v == 0x3000
}

/// The first place at or after `from` that holds no white space, or the
/// line's end.
pub open spec fn skip_spaces(s: Seq<char>, from: int) -> int
    decreases s.len() - from,
{
    if 0 <= from < s.len() && is_space(s[from]) {
        skip_spaces(s, from + 1)
    } else {
        from
    }
}

/// The first place at or after `from` that holds white space, or the line's
/// end.
pub open spec fn skip_field(s: Seq<char>, from: int) -> int
    decreases s.len() - from,
{
    if 0 <= from < s.len() && !is_space(s[from]) {
        skip_field(s, from + 1)
    } else {
        from
    }
}

/// Where field `k` of the line starts, counted from 0: at the line's end if
/// the line has no such field.
pub open spec fn field_start(s: Seq<char>, k: nat) -> int
    decreases k,
{
    if k == 0 {
        skip_spaces(s, 0)
    } else {
        skip_spaces(s, skip_field(s, field_start(s, (k - 1) as nat)))
    }
}

/// Just past the last character of field `k`.
pub open spec fn field_end(s: Seq<char>, k: nat) -> int {
    skip_field(s, field_start(s, k))
}

/// Whether the line has a field `k`.
pub open spec fn has_field(s: Seq<char>, k: nat) -> bool {
    field_start(s, k) < s.len()
}

/// The text of field `k`.
pub open spec fn field(s: Seq<char>, k: nat) -> Seq<char> {
    s.subrange(field_start(s, k), field_end(s, k))
}

/// What the two scans find: only white space is passed over by the first,
/// only other characters by the second, and each stops at the line's end or
/// at a character of the other kind.
pub proof fn lemma_scans(s: Seq<char>, from: int)
    requires
        0 <= from <= s.len(),
    ensures
        from <= skip_spaces(s, from) <= s.len(),
        forall|i: int| from <= i < skip_spaces(s, from) ==> is_space(#[trigger] s[i]),
        skip_spaces(s, from) < s.len() ==> !is_space(s[skip_spaces(s, from)]),
        from <= skip_field(s, from) <= s.len(),
        forall|i: int| from <= i < skip_field(s, from) ==> !is_space(#[trigger] s[i]),
        skip_field(s, from) < s.len() ==> is_space(s[skip_field(s, from)]),
    decreases s.len() - from,
{
    if from < s.len() {
        lemma_scans(s, from + 1);
    }
}

/// Fields lie within the line.
pub proof fn lemma_field_bounds(s: Seq<char>, k: nat)
    ensures
        0 <= field_start(s, k) <= field_end(s, k) <= s.len(),
    decreases k,
{
    if k == 0 {
        lemma_scans(s, 0);
    } else {
        lemma_field_bounds(s, (k - 1) as nat);
        lemma_scans(s, field_start(s, (k - 1) as nat));
        lemma_scans(s, skip_field(s, field_start(s, (k - 1) as nat)));
    }
    lemma_scans(s, field_start(s, k));
}

/// A field that exists is not empty, holds no white space, and is bounded
/// by white space or the line's ends.
pub proof fn lemma_field_is_maximal(s: Seq<char>, k: nat)
    requires
        has_field(s, k),
    ensures
        0 <= field_start(s, k) < field_end(s, k) <= s.len(),
        forall|i: int| field_start(s, k) <= i < field_end(s, k) ==> !is_space(#[trigger] s[i]),
        field_start(s, k) > 0 ==> is_space(s[field_start(s, k) - 1]),
        field_end(s, k) < s.len() ==> is_space(s[field_end(s, k)]),
{
    lemma_field_bounds(s, k);
    let start = field_start(s, k);
    lemma_scans(s, start);
    if k == 0 {
        lemma_scans(s, 0);
    } else {
        let j = (k - 1) as nat;
        lemma_field_bounds(s, j);
        let before = field_end(s, j);
        lemma_scans(s, field_start(s, j));
        lemma_scans(s, before);
        // The field before ends at white space, which lies before `start`.
        assert(before < start);
        assert(is_space(s[start - 1]));
    }
}

/// Whether a character is white space.
pub fn is_whitespace(c: char) -> (r: bool)
    ensures
        r == is_space(c),
{
    let v: u32 = c as u32;
    (0x09 <= v && v <= 0x0d) || v == 0x20 || v == 0x85 || v == 0xa0 || v == 0x1680 || (0x2000 <= v
        && v <= 0x200a) || v == 0x2028 || v == 0x2029 || v == 0x202f || v == 0x205f || v == 0x3000
}

/// The three coordinate fields of a data line, as text.
pub struct Coordinates<'a> {
    pub x: &'a str,
    pub y: &'a str,
    pub z: &'a str,
}

/// Why a data line is refused.
#[derive(Clone, Copy, Debug, PartialEq, Eq)]
pub enum RecordError {
    /// The line ends before its fourth field.
    MissingField,
    /// A coordinate is not a number; `field` is 1 for `x`, 2 for `y`, 3 for
    /// `z`.
    NotANumber { field: usize },
}

/// What is wrong with field `k` of the line, if anything.
pub open spec fn defect_of(s: Seq<char>, k: nat) -> Option<RecordError> {
    if !has_field(s, k) {
        Some(RecordError::MissingField)
    } else if !is_number(field(s, k)) {
        Some(RecordError::NotANumber { field: k as usize })
    } else {
        None
    }
}

/// The first defect that reading the line from left to right meets among
/// its three coordinates.
pub open spec fn first_defect(s: Seq<char>) -> Option<RecordError> {
    if defect_of(s, 1) is Some {
        defect_of(s, 1)
    } else if defect_of(s, 2) is Some {
        defect_of(s, 2)
    } else {
        defect_of(s, 3)
    }
}

fn scan_spaces(line: &str, len: usize, from: usize) -> (r: usize)
    requires
        len == line@.len(),
        from <= len,
    ensures
        r == skip_spaces(line@, from as int),
        from <= r <= len,
{
    let mut i: usize = from;
    while i < len && is_whitespace(line.get_char(i))
        invariant
            from <= i <= len,
            len == line@.len(),
            skip_spaces(line@, from as int) == skip_spaces(line@, i as int),
        decreases len - i,
    {
        i = i + 1;
    }
    i
}

fn scan_field(line: &str, len: usize, from: usize) -> (r: usize)
    requires
        len == line@.len(),
        from <= len,
    ensures
        r == skip_field(line@, from as int),
        from <= r <= len,
{
    let mut i: usize = from;
    while i < len && !is_whitespace(line.get_char(i))
        invariant
            from <= i <= len,
            len == line@.len(),
            skip_field(line@, from as int) == skip_field(line@, i as int),
        decreases len - i,
    {
        i = i + 1;
    }
    i
}

/// The field that starts at or after `from`, checked to be a number.
fn read_coordinate<'a>(line: &'a str, len: usize, from: usize, k: usize) -> (r: Result<
    (&'a str, usize),
    RecordError,
>)
    requires
        len == line@.len(),
        from <= len,
        field_start(line@, k as nat) == skip_spaces(line@, from as int),
    ensures
        match r {
            Ok((text, end)) => {
                &&& defect_of(line@, k as nat) is None
                &&& text@ == field(line@, k as nat)
                &&& end == field_end(line@, k as nat)
                &&& end <= len
            },
            Err(e) => defect_of(line@, k as nat) == Some(e),
        },
{
    let start: usize = scan_spaces(line, len, from);
    if start >= len {
        return Err(RecordError::MissingField);
    }
    let end: usize = scan_field(line, len, start);
    let text = line.substring_char(start, end);
    if !is_numeric(text) {
        return Err(RecordError::NotANumber { field: k });
    }
    Ok((text, end))
}

/// Reads a data line: skips the label, and hands back the three fields
/// after it if each of them is a number.
///
/// The line is refused for the first defect met from left to right: a
/// coordinate field that the line lacks, or one that is not a number.
pub fn read_record<'a>(line: &'a str) -> (r: Result<Coordinates<'a>, RecordError>)
    ensures
        match r {
            Ok(c) => {
                &&& first_defect(line@) is None
                &&& c.x@ == field(line@, 1)
                &&& c.y@ == field(line@, 2)
                &&& c.z@ == field(line@, 3)
            },
            Err(e) => first_defect(line@) == Some(e),
        },
{
    let len: usize = line.unicode_len();
    let label_start: usize = scan_spaces(line, len, 0);
    let label_end: usize = scan_field(line, len, label_start);
    proof {
        reveal_with_fuel(field_start, 4);
    }
    let (x, x_end) = match read_coordinate(line, len, label_end, 1) {
        Ok(found) => found,
        Err(e) => {
            return Err(e);
        },
    };
    let (y, y_end) = match read_coordinate(line, len, x_end, 2) {
        Ok(found) => found,
        Err(e) => {
            return Err(e);
        },
    };
    let (z, _z_end) = match read_coordinate(line, len, y_end, 3) {
        Ok(found) => found,
        Err(e) => {
            return Err(e);
        },
    };
    Ok(Coordinates { x, y, z })
}

} // verus!
