//! A chainable builder for regular-expression patterns.
//!
//! A [`Part`] accumulates pattern text through natural-language methods;
//! [`RegExp`] concatenates parts into a final pattern.  Every method's
//! contract states the exact character sequence it appends, so what a
//! chain of calls produces is pinned down completely.  Patterns built here
//! feed the regex-based targeting conditions of the evaluator.

use crate::strings::{push_char, spec_dec_string, usize_dec_string};
use vstd::prelude::*;

verus! {

/// Failure of pattern construction.
#[derive(Clone, Copy, Debug, PartialEq, Eq, Structural)]
pub enum RgxError {
    PatternError,
}

/// Whether `c` must be escaped to stand for itself in a pattern.
pub open spec fn spec_is_special(c: char) -> bool {
    ||| c == '.'
    ||| c == '+'
    ||| c == '*'
    ||| c == '?'
    ||| c == '^'
    ||| c == '$'
    ||| c == '('
    ||| c == ')'
    ||| c == '['
    ||| c == ']'
    ||| c == '{'
    ||| c == '}'
    ||| c == '|'
    ||| c == '\\'
}

/// `s` with every special character preceded by a backslash.
pub open spec fn spec_escape(s: Seq<char>) -> Seq<char>
    decreases s.len(),
{
    if s.len() == 0 {
        Seq::empty()
    } else {
        spec_escape(s.drop_last()) + (if spec_is_special(s.last()) {
            seq!['\\', s.last()]
        } else {
            seq![s.last()]
        })
    }
}

/// Whether `c` must be escaped.
fn is_special(c: char) -> (r: bool)
    ensures
        r == spec_is_special(c),
{
    match c {
        '.' | '+' | '*' | '?' | '^' | '$' | '(' | ')' | '[' | ']' | '{' | '}' | '|' | '\\' => true,
        _ => false,
    }
}

/// Escapes every special regex character of `s` with a backslash.
pub fn escape_special_characters(s: &str) -> (r: String)
    ensures
        r@ == spec_escape(s@),
{
    let n = s.unicode_len();
    let mut escaped = String::new();
    proof {
        assert(s@.subrange(0, 0) =~= Seq::<char>::empty());
    }
    for i in 0..n
        invariant
            n == s@.len(),
            escaped@ == spec_escape(s@.subrange(0, i as int)),
    {
        let ghost prefix = s@.subrange(0, i as int);
        let c = s.get_char(i);
        if is_special(c) {
            push_char(&mut escaped, '\\');
        }
        push_char(&mut escaped, c);
        proof {
            let ext = s@.subrange(0, i + 1);
            assert(ext.drop_last() =~= prefix);
            assert(ext.last() == s@[i as int]);
            assert(escaped@ =~= spec_escape(ext));
        }
    }
    proof {
        assert(s@.subrange(0, n as int) =~= s@);
    }
    escaped
}

/// A building block of a pattern: the pattern text accumulated so far.
#[derive(Clone, Debug)]
pub struct Part {
    pub pattern: String,
}

/// The patterns of `parts` joined by `|`.
pub open spec fn spec_join_patterns(parts: Seq<Part>) -> Seq<char>
    decreases parts.len(),
{
    if parts.len() == 0 {
        Seq::empty()
    } else if parts.len() == 1 {
        parts[0].pattern@
    } else {
        spec_join_patterns(parts.drop_last()) + seq!['|'] + parts.last().pattern@
    }
}

/// The patterns of `parts` concatenated.
pub open spec fn spec_concat_patterns(parts: Seq<Part>) -> Seq<char>
    decreases parts.len(),
{
    if parts.len() == 0 {
        Seq::empty()
    } else {
        spec_concat_patterns(parts.drop_last()) + parts.last().pattern@
    }
}

impl Part {
    /// A part starting from `pattern`, or from nothing.
    pub fn new(pattern: Option<&str>) -> (r: Part)
        ensures
            r.pattern@ == match pattern {
                Some(p) => p@,
                None => Seq::<char>::empty(),
            },
    {
        match pattern {
            Some(p) => Part { pattern: p.to_owned() },
            None => Part { pattern: String::new() },
        }
    }

    /// Repeats the pattern exactly `count` times: appends `{count}`.
    pub fn times(self, count: usize) -> (r: Part)
        ensures
            r.pattern@ == self.pattern@ + seq!['{'] + spec_dec_string(count as nat) + seq!['}'],
    {
        let mut pattern = self.pattern;
        push_char(&mut pattern, '{');
        pattern.append(usize_dec_string(count).as_str());
        push_char(&mut pattern, '}');
        proof {
            assert(pattern@ =~= self.pattern@ + seq!['{'] + spec_dec_string(count as nat)
                + seq!['}']);
        }
        Part { pattern }
    }

    /// Matches the start of the string: appends `^`.
    pub fn starts_with(self) -> (r: Part)
        ensures
            r.pattern@ == self.pattern@ + seq!['^'],
    {
        let mut pattern = self.pattern;
        push_char(&mut pattern, '^');
        proof {
            assert(pattern@ =~= self.pattern@ + seq!['^']);
        }
        Part { pattern }
    }

    /// Matches the end of the string: appends `$`.
    pub fn ends_with(self) -> (r: Part)
        ensures
            r.pattern@ == self.pattern@ + seq!['$'],
    {
        let mut pattern = self.pattern;
        push_char(&mut pattern, '$');
        proof {
            assert(pattern@ =~= self.pattern@ + seq!['$']);
        }
        Part { pattern }
    }

    /// Opens a capture group named `name`: appends `(?P<name>`.
    pub fn group_as(self, name: &str) -> (r: Part)
        ensures
            r.pattern@ == self.pattern@ + seq!['(', '?', 'P', '<'] + name@ + seq!['>'],
    {
        let mut pattern = self.pattern;
        push_char(&mut pattern, '(');
        push_char(&mut pattern, '?');
        push_char(&mut pattern, 'P');
        push_char(&mut pattern, '<');
        pattern.append(name);
        push_char(&mut pattern, '>');
        proof {
            assert(pattern@ =~= self.pattern@ + seq!['(', '?', 'P', '<'] + name@ + seq!['>']);
        }
        Part { pattern }
    }

    /// Concatenates the current pattern with another.
    pub fn add(self, other: &Part) -> (r: Part)
        ensures
            r.pattern@ == self.pattern@ + other.pattern@,
    {
        let mut pattern = self.pattern;
        pattern.append(other.pattern.as_str());
        Part { pattern }
    }

    /// Matches any single digit: appends `\d`.
    pub fn digit(self) -> (r: Part)
        ensures
            r.pattern@ == self.pattern@ + seq!['\\', 'd'],
    {
        let mut pattern = self.pattern;
        push_char(&mut pattern, '\\');
        push_char(&mut pattern, 'd');
        proof {
            assert(pattern@ =~= self.pattern@ + seq!['\\', 'd']);
        }
        Part { pattern }
    }

    /// Matches the exact string `s`: appends `s` with special characters
    /// escaped.
    pub fn exactly(self, s: &str) -> (r: Part)
        ensures
            r.pattern@ == self.pattern@ + spec_escape(s@),
    {
        let mut pattern = self.pattern;
        pattern.append(escape_special_characters(s).as_str());
        Part { pattern }
    }

    /// Matches any alphanumeric character: appends `\w`.
    pub fn alfanumeric(self) -> (r: Part)
        ensures
            r.pattern@ == self.pattern@ + seq!['\\', 'w'],
    {
        let mut pattern = self.pattern;
        push_char(&mut pattern, '\\');
        push_char(&mut pattern, 'w');
        proof {
            assert(pattern@ =~= self.pattern@ + seq!['\\', 'w']);
        }
        Part { pattern }
    }

    /// Matches any alphabetic character: appends `([a-zA-Z])`.
    pub fn alphabetic(self) -> (r: Part)
        ensures
            r.pattern@ == self.pattern@ + seq!['(', '[', 'a', '-', 'z', 'A', '-', 'Z', ']', ')'],
    {
        let mut pattern = self.pattern;
        push_char(&mut pattern, '(');
        push_char(&mut pattern, '[');
        push_char(&mut pattern, 'a');
        push_char(&mut pattern, '-');
        push_char(&mut pattern, 'z');
        push_char(&mut pattern, 'A');
        push_char(&mut pattern, '-');
        push_char(&mut pattern, 'Z');
        push_char(&mut pattern, ']');
        push_char(&mut pattern, ')');
        proof {
            assert(pattern@ =~= self.pattern@ + seq!['(', '[', 'a', '-', 'z', 'A', '-', 'Z', ']', ')']);
        }
        Part { pattern }
    }

    /// Matches any one of `parts`: appends their patterns joined by `|`,
    /// in parentheses.
    pub fn any_of(self, parts: Vec<Part>) -> (r: Result<Part, RgxError>)
        ensures
            r matches Ok(p) && p.pattern@ == self.pattern@ + seq!['('] + spec_join_patterns(parts@)
                + seq![')'],
    {
        let mut pattern = self.pattern;
        push_char(&mut pattern, '(');
        let n = parts.len();
        let ghost base = pattern@;
        for i in 0..n
            invariant
                n == parts@.len(),
                pattern@ == base + spec_join_patterns(parts@.subrange(0, i as int)),
        {
            let ghost prefix = parts@.subrange(0, i as int);
            if i > 0 {
                push_char(&mut pattern, '|');
            }
            pattern.append(parts[i].pattern.as_str());
            proof {
                let ext = parts@.subrange(0, i + 1);
                assert(ext.drop_last() =~= prefix);
                assert(ext.last() == parts@[i as int]);
                if i == 0 {
                    assert(ext.len() == 1);
                    assert(ext[0] == parts@[0]);
                }
                assert(pattern@ =~= base + spec_join_patterns(ext));
            }
        }
        push_char(&mut pattern, ')');
        proof {
            assert(parts@.subrange(0, n as int) =~= parts@);
            assert(pattern@ =~= self.pattern@ + seq!['('] + spec_join_patterns(parts@)
                + seq![')']);
        }
        Ok(Part { pattern })
    }

    /// Matches any character: appends `.`.
    pub fn any_character(self) -> (r: Part)
        ensures
            r.pattern@ == self.pattern@ + seq!['.'],
    {
        let mut pattern = self.pattern;
        push_char(&mut pattern, '.');
        proof {
            assert(pattern@ =~= self.pattern@ + seq!['.']);
        }
        Part { pattern }
    }

    /// Repeats the preceding pattern one or more times: appends `+`.
    pub fn infinity(self) -> (r: Part)
        ensures
            r.pattern@ == self.pattern@ + seq!['+'],
    {
        let mut pattern = self.pattern;
        push_char(&mut pattern, '+');
        proof {
            assert(pattern@ =~= self.pattern@ + seq!['+']);
        }
        Part { pattern }
    }
}

/// A complete pattern assembled from parts.
#[derive(Clone, Debug)]
pub struct RegExp {
    pub pattern: String,
}

impl RegExp {
    /// Concatenates the parts' patterns, in order.
    pub fn new(parts: Vec<Part>) -> (r: Result<RegExp, RgxError>)
        ensures
            r matches Ok(e) && e.pattern@ == spec_concat_patterns(parts@),
    {
        let mut pattern = String::new();
        let n = parts.len();
        proof {
            assert(parts@.subrange(0, 0) =~= Seq::<Part>::empty());
        }
        for i in 0..n
            invariant
                n == parts@.len(),
                pattern@ == spec_concat_patterns(parts@.subrange(0, i as int)),
        {
            let ghost prefix = parts@.subrange(0, i as int);
            pattern.append(parts[i].pattern.as_str());
            proof {
                let ext = parts@.subrange(0, i + 1);
                assert(ext.drop_last() =~= prefix);
                assert(ext.last() == parts@[i as int]);
            }
        }
        proof {
            assert(parts@.subrange(0, n as int) =~= parts@);
        }
        Ok(RegExp { pattern })
    }

    /// The assembled pattern text.
    pub fn compile(&self) -> (r: Result<String, RgxError>)
        ensures
            r matches Ok(p) && p@ == self.pattern@,
    {
        Ok(self.pattern.clone())
    }
}

/// Matches any single digit (`\d`).
pub fn digit() -> (r: Part)
    ensures
        r.pattern@ == seq!['\\', 'd'],
{
    let p = Part::new(None).digit();
    proof {
        assert(p.pattern@ =~= seq!['\\', 'd']);
    }
    p
}

/// Matches the exact string `s`, escaping special regex characters.
pub fn exactly(s: &str) -> (r: Part)
    ensures
        r.pattern@ == spec_escape(s@),
{
    let p = Part::new(None).exactly(s);
    proof {
        assert(p.pattern@ =~= spec_escape(s@));
    }
    p
}

/// Matches the start of the string.
pub fn starts_with() -> (r: Part)
    ensures
        r.pattern@ == seq!['^'],
{
    let p = Part::new(None).starts_with();
    proof {
        assert(p.pattern@ =~= seq!['^']);
    }
    p
}

/// Matches the end of the string.
pub fn ends_with() -> (r: Part)
    ensures
        r.pattern@ == seq!['$'],
{
    let p = Part::new(None).ends_with();
    proof {
        assert(p.pattern@ =~= seq!['$']);
    }
    p
}

/// Matches any one of the provided patterns.
pub fn any_of(parts: Vec<Part>) -> (r: Result<Part, RgxError>)
    ensures
        r matches Ok(p) && p.pattern@ == seq!['('] + spec_join_patterns(parts@) + seq![')'],
{
    let base = Part::new(None);
    let r = base.any_of(parts);
    match r {
        Ok(p) => {
            proof {
                assert(p.pattern@ =~= seq!['('] + spec_join_patterns(parts@) + seq![')']);
            }
            Ok(p)
        },
        Err(e) => Err(e),
    }
}

/// Matches any alphanumeric character.
pub fn alfanumeric() -> (r: Part)
    ensures
        r.pattern@ == seq!['\\', 'w'],
{
    let p = Part::new(None).alfanumeric();
    proof {
        assert(p.pattern@ =~= seq!['\\', 'w']);
    }
    p
}

/// Matches any alphabetic character.
pub fn alphabetic() -> (r: Part)
    ensures
        r.pattern@ == seq!['(', '[', 'a', '-', 'z', 'A', '-', 'Z', ']', ')'],
{
    let p = Part::new(None).alphabetic();
    proof {
        assert(p.pattern@ =~= seq!['(', '[', 'a', '-', 'z', 'A', '-', 'Z', ']', ')']);
    }
    p
}

} // verus!
