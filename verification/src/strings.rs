//! Small string helpers shared by the evaluator and the pattern builder:
//! appending a single character, comparing string slices, and rendering an
//! unsigned number in decimal.

use vstd::prelude::*;

verus! {

/// Relies on `String::push`: appends exactly the given character.
#[verifier::external_body]
pub fn push_char(s: &mut String, c: char)
    ensures
        final(s)@ == old(s)@.push(c),
{
    s.push(c);
}

/// Relies on `<str as PartialEq>::eq`: two string slices are equal exactly
/// when their character sequences are equal.
#[verifier::external_body]
pub fn str_eq(a: &str, b: &str) -> (r: bool)
    ensures
        r == (a@ == b@),
{
    a == b
}

/// The decimal digit character for `d`.
pub open spec fn dec_digit(d: nat) -> char
    recommends
        d < 10,
{
    if d == 0 {
        '0'
    } else if d == 1 {
        '1'
    } else if d == 2 {
        '2'
    } else if d == 3 {
        '3'
    } else if d == 4 {
        '4'
    } else if d == 5 {
        '5'
    } else if d == 6 {
        '6'
    } else if d == 7 {
        '7'
    } else if d == 8 {
        '8'
    } else {
        '9'
    }
}

/// Decimal rendering of `n`, most significant digit first, no leading zero
/// except for `n == 0` itself.
pub open spec fn spec_dec_string(n: nat) -> Seq<char>
    decreases n,
{
    if n < 10 {
        seq![dec_digit(n)]
    } else {
        spec_dec_string(n / 10) + seq![dec_digit(n % 10)]
    }
}

/// One decimal digit as a character.
fn dec_digit_char(d: usize) -> (c: char)
    requires
        d < 10,
    ensures
        c == dec_digit(d as nat),
{
    if d == 0 {
        '0'
    } else if d == 1 {
        '1'
    } else if d == 2 {
        '2'
    } else if d == 3 {
        '3'
    } else if d == 4 {
        '4'
    } else if d == 5 {
        '5'
    } else if d == 6 {
        '6'
    } else if d == 7 {
        '7'
    } else if d == 8 {
        '8'
    } else {
        '9'
    }
}

/// Renders `n` in decimal.
pub fn usize_dec_string(n: usize) -> (r: String)
    ensures
        r@ == spec_dec_string(n as nat),
    decreases n,
{
    if n < 10 {
        let mut s = String::new();
        push_char(&mut s, dec_digit_char(n));
        proof {
            assert(s@ =~= spec_dec_string(n as nat));
        }
        s
    } else {
        let mut s = usize_dec_string(n / 10);
        push_char(&mut s, dec_digit_char(n % 10));
        proof {
            assert(s@ =~= spec_dec_string(n as nat));
        }
        s
    }
}

/// Whether `c` is a decimal digit.
pub open spec fn spec_is_digit(c: char) -> bool {
    '0' <= c <= '9'
}

/// The numeric value of the digit `c`.
pub open spec fn spec_char_digit(c: char) -> int
    recommends
        spec_is_digit(c),
{
    c as int - '0' as int
}

/// The index of the first `c` in `s` at or after `from`, or `s.len()`.
pub open spec fn spec_find_char(s: Seq<char>, c: char, from: int) -> int
    recommends
        0 <= from <= s.len(),
    decreases s.len() - from when 0 <= from <= s.len()
{
    if from >= s.len() {
        s.len() as int
    } else if s[from] == c {
        from
    } else {
        spec_find_char(s, c, from + 1)
    }
}

/// The index of the first `c` in `line` at or after `from`, or the length.
pub fn find_char(line: &str, c: char, from: usize) -> (r: usize)
    requires
        from <= line@.len(),
    ensures
        r == spec_find_char(line@, c, from as int),
        from <= r <= line@.len(),
{
    let n = line.unicode_len();
    let mut i = from;
    while i < n
        invariant
            from <= i <= n,
            n == line@.len(),
            spec_find_char(line@, c, from as int) == spec_find_char(line@, c, i as int),
            forall|j: int| from <= j < i ==> line@[j] != c,
        decreases n - i,
    {
        if line.get_char(i) == c {
            return i;
        }
        i = i + 1;
    }
    n
}

/// Decimal rendering of `n` padded with zeroes to at least two digits.
pub open spec fn spec_pad2(n: nat) -> Seq<char> {
    if n < 10 {
        seq!['0'] + spec_dec_string(n)
    } else {
        spec_dec_string(n)
    }
}

/// Decimal rendering of `n` padded with zeroes to at least four digits.
pub open spec fn spec_pad4(n: nat) -> Seq<char> {
    if n < 10 {
        seq!['0', '0', '0'] + spec_dec_string(n)
    } else if n < 100 {
        seq!['0', '0'] + spec_dec_string(n)
    } else if n < 1000 {
        seq!['0'] + spec_dec_string(n)
    } else {
        spec_dec_string(n)
    }
}

/// Renders `n` in decimal, zero-padded to at least two digits.
pub fn pad2(n: usize) -> (r: String)
    ensures
        r@ == spec_pad2(n as nat),
{
    let mut s = String::new();
    if n < 10 {
        push_char(&mut s, '0');
    }
    s.append(usize_dec_string(n).as_str());
    proof {
        assert(s@ =~= spec_pad2(n as nat));
    }
    s
}

/// Renders `n` in decimal, zero-padded to at least four digits.
pub fn pad4(n: usize) -> (r: String)
    ensures
        r@ == spec_pad4(n as nat),
{
    let mut s = String::new();
    if n < 10 {
        push_char(&mut s, '0');
        push_char(&mut s, '0');
        push_char(&mut s, '0');
    } else if n < 100 {
        push_char(&mut s, '0');
        push_char(&mut s, '0');
    } else if n < 1000 {
        push_char(&mut s, '0');
    }
    s.append(usize_dec_string(n).as_str());
    proof {
        assert(s@ =~= spec_pad4(n as nat));
    }
    s
}

} // verus!
