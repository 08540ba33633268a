//! Subsetting VCF text by position: the pure part of reading a VCF file
//! and keeping the records whose position is on a requested list.
//!
//! A line starting with `#` is a header line.  Any other line is a record;
//! its second tab-separated field is its position.  A record is kept when
//! the position list is empty or contains its position.  The caller reads
//! the file and hands the lines in; a record whose position field is not a
//! number in range is reported as malformed.

use crate::strings::{find_char, spec_find_char, spec_is_digit};
use vstd::prelude::*;

verus! {

/// The numeric value of the digit sequence `s`.
pub open spec fn spec_digits_value(s: Seq<char>) -> int
    decreases s.len(),
{
    if s.len() == 0 {
        0
    } else {
        spec_digits_value(s.drop_last()) * 10 + (s.last() as int - '0' as int)
    }
}

/// The position field of a record line: the text between the first and the
/// second tab.
pub open spec fn spec_position_field(line: Seq<char>) -> Seq<char> {
    let t1 = spec_find_char(line, '\t', 0);
    let t2 = spec_find_char(line, '\t', if t1 < line.len() {
        t1 + 1
    } else {
        t1
    });
    line.subrange(if t1 < line.len() {
        t1 + 1
    } else {
        t1
    }, t2)
}

/// The position of a record line: the value of its position field, when
/// that field is a nonempty digit run whose value fits a `u64`.
pub open spec fn spec_record_position(line: Seq<char>) -> Option<u64> {
    let field = spec_position_field(line);
    if field.len() > 0 && (forall|i: int| 0 <= i < field.len() ==> spec_is_digit(#[trigger] field[i]))
        && spec_digits_value(field) <= u64::MAX {
        Some(spec_digits_value(field) as u64)
    } else {
        None
    }
}

/// Whether a line is a header line.
pub open spec fn spec_is_header(line: Seq<char>) -> bool {
    line.len() > 0 && line[0] == '#'
}

/// The position of a record line, or `None` when the position field is
/// missing, empty, not numeric, or out of range.
pub fn record_position(line: &str) -> (r: Option<u64>)
    ensures
        r == spec_record_position(line@),
{
    let n = line.unicode_len();
    let t1 = find_char(line, '\t', 0);
    let start = if t1 < n {
        t1 + 1
    } else {
        t1
    };
    let t2 = find_char(line, '\t', start);
    let ghost field = spec_position_field(line@);
    proof {
        assert(field =~= line@.subrange(start as int, t2 as int));
    }
    if t2 == start {
        return None;
    }
    let mut value: u64 = 0;
    let mut i = start;
    while i < t2
        invariant
            start <= i <= t2 <= line@.len(),
            field == spec_position_field(line@),
            field == line@.subrange(start as int, t2 as int),
            field.len() > 0,
            forall|j: int| start <= j < i ==> spec_is_digit(#[trigger] line@[j]),
            value == spec_digits_value(line@.subrange(start as int, i as int)),
        decreases t2 - i,
    {
        let c = line.get_char(i);
        if c < '0' || c > '9' {
            proof {
                assert(field[i - start] == line@[i as int]);
                assert(!spec_is_digit(field[i - start]));
            }
            return None;
        }
        let d = (c as u32 - '0' as u32) as u64;
        let ghost pre = line@.subrange(start as int, i + 1);
        proof {
            assert(pre.drop_last() =~= line@.subrange(start as int, i as int));
            assert(pre.last() == line@[i as int]);
            assert(spec_digits_value(pre) == value * 10 + d);
        }
        let shifted = match value.checked_mul(10) {
            Some(v) => v,
            None => {
                proof {
                    lemma_field_value_exceeds(line@, field, start as int, i as int, t2 as int, value * 10 + d);
                }
                return None;
            },
        };
        let next = match shifted.checked_add(d) {
            Some(v) => v,
            None => {
                proof {
                    lemma_field_value_exceeds(line@, field, start as int, i as int, t2 as int, value * 10 + d);
                }
                return None;
            },
        };
        value = next;
        i = i + 1;
    }
    proof {
        assert(line@.subrange(start as int, i as int) =~= field);
        assert(forall|j: int| 0 <= j < field.len() ==> spec_is_digit(#[trigger] field[j])) by {
            assert(forall|j: int|
                0 <= j < field.len() ==> field[j] == #[trigger] line@[j + start]);
        }
    }
    Some(value)
}

/// The value of an all-digit run is never negative.
proof fn lemma_digits_value_nonneg(s: Seq<char>)
    requires
        forall|i: int| 0 <= i < s.len() ==> spec_is_digit(#[trigger] s[i]),
    ensures
        spec_digits_value(s) >= 0,
    decreases s.len(),
{
    if s.len() > 0 {
        assert(forall|i: int| 0 <= i < s.drop_last().len() ==> s.drop_last()[i] == #[trigger] s[i]);
        lemma_digits_value_nonneg(s.drop_last());
        assert(spec_digits_value(s.drop_last()) * 10 >= 0) by (nonlinear_arith)
            requires
                spec_digits_value(s.drop_last()) >= 0,
        ;
    }
}

/// The value of an all-digit run is at least the value of any of its
/// prefixes.
proof fn lemma_digits_value_monotone(s: Seq<char>, k: int)
    requires
        forall|i: int| 0 <= i < s.len() ==> spec_is_digit(#[trigger] s[i]),
        0 <= k <= s.len(),
    ensures
        spec_digits_value(s) >= spec_digits_value(s.subrange(0, k)),
    decreases s.len(),
{
    lemma_digits_value_nonneg(s);
    if k == s.len() {
        assert(s.subrange(0, k) =~= s);
    } else {
        let shorter = s.drop_last();
        assert(forall|i: int| 0 <= i < shorter.len() ==> shorter[i] == #[trigger] s[i]);
        lemma_digits_value_monotone(shorter, k);
        assert(shorter.subrange(0, k) =~= s.subrange(0, k));
        lemma_digits_value_nonneg(shorter);
        assert(spec_digits_value(shorter) * 10 >= spec_digits_value(shorter)) by (nonlinear_arith)
            requires
                spec_digits_value(shorter) >= 0,
        ;
    }
}

/// If the whole position field is digits but a prefix of it already
/// reaches a value `v` beyond `u64`, the line has no in-range position.
proof fn lemma_field_value_exceeds(
    line: Seq<char>,
    field: Seq<char>,
    start: int,
    i: int,
    t2: int,
    v: int,
)
    requires
        0 <= start <= i < t2 <= line.len(),
        field == spec_position_field(line),
        field == line.subrange(start, t2),
        forall|j: int| start <= j < i ==> spec_is_digit(#[trigger] line[j]),
        spec_is_digit(line[i]),
        spec_digits_value(line.subrange(start, i + 1)) == v,
        v > u64::MAX,
    ensures
        spec_record_position(line) is None,
{
    if forall|j: int| 0 <= j < field.len() ==> spec_is_digit(#[trigger] field[j]) {
        lemma_digits_value_monotone(field, i + 1 - start);
        assert(field.subrange(0, i + 1 - start) =~= line.subrange(start, i + 1));
        assert(spec_digits_value(field) >= v);
    }
}

/// Whether `positions` contains `p`.
fn positions_contain(positions: &Vec<u64>, p: u64) -> (r: bool)
    ensures
        r == positions@.contains(p),
{
    let n = positions.len();
    for i in 0..n
        invariant
            n == positions@.len(),
            forall|j: int| 0 <= j < i ==> positions@[j] != p,
    {
        if positions[i] == p {
            return true;
        }
    }
    false
}

/// Whether a record line is kept: every record is kept when `positions` is
/// empty, otherwise exactly those whose position is listed.
pub open spec fn spec_record_kept(line: Seq<char>, positions: Seq<u64>) -> bool {
    positions.len() == 0 || (spec_record_position(line) matches Some(p) && positions.contains(p))
}

/// A malformed record line: the line and its index in the input.
#[derive(Debug, PartialEq)]
pub struct MalformedRecord {
    pub line_index: usize,
    pub line: String,
}

/// Splits VCF lines into header lines and the records whose position is
/// requested.  Header lines (starting with `#`) are all kept, in order;
/// record lines are kept, in order, when `positions` is empty or lists
/// their position.  A record line without a numeric in-range position
/// field is an error naming that line, unless `positions` is empty, in
/// which case every record is kept without reading its position.
pub fn subset_vcf_lines(lines: &Vec<String>, positions: &Vec<u64>) -> (r: Result<
    (Vec<String>, Vec<String>),
    MalformedRecord,
>)
    ensures
        r matches Ok((header, output)) ==> {
            &&& header@.len() + output@.len() <= lines@.len()
            &&& forall|i: int|
                0 <= i < header@.len() ==> spec_is_header(#[trigger] header@[i]@)
            &&& forall|i: int|
                0 <= i < output@.len() ==> !spec_is_header(#[trigger] output@[i]@)
                    && spec_record_kept(output@[i]@, positions@)
        },
        r matches Err(m) ==> {
            &&& positions@.len() > 0
            &&& m.line_index < lines@.len()
            &&& m.line@ == lines@[m.line_index as int]@
            &&& !spec_is_header(m.line@)
            &&& spec_record_position(m.line@) is None
        },
{
    let n = lines.len();
    let mut header: Vec<String> = Vec::new();
    let mut output: Vec<String> = Vec::new();
    for i in 0..n
        invariant
            n == lines@.len(),
            header@.len() + output@.len() <= i,
            forall|k: int| 0 <= k < header@.len() ==> spec_is_header(#[trigger] header@[k]@),
            forall|k: int|
                0 <= k < output@.len() ==> !spec_is_header(#[trigger] output@[k]@)
                    && spec_record_kept(output@[k]@, positions@),
    {
        let line = &lines[i];
        let is_header = if line.unicode_len() > 0 {
            line.get_char(0) == '#'
        } else {
            false
        };
        if is_header {
            header.push(clone_line(line));
        } else if positions.len() == 0 {
            output.push(clone_line(line));
        } else {
            match record_position(line.as_str()) {
                None => {
                    return Err(MalformedRecord { line_index: i, line: clone_line(line) });
                },
                Some(p) => {
                    if positions_contain(positions, p) {
                        output.push(clone_line(line));
                    }
                },
            }
        }
    }
    Ok((header, output))
}

/// A copy of a line with the same characters.
fn clone_line(line: &String) -> (r: String)
    ensures
        r@ == line@,
{
    line.clone()
}

} // verus!
