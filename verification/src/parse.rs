//! Splitting one wire-format line into its field name and value, and decimal
//! parsing of `retry:` values.
//!
//! A line is a sequence of bytes (UTF-8 text without the terminating
//! newline). It is split at the first colon; a value beginning with a single
//! space has exactly that one space stripped. A line without a colon is all
//! field name, with an empty value.

use vstd::prelude::*;

verus! {

/// The byte `:` separating a field name from its value.
pub const COLON: u8 = 58;

/// The byte for an ASCII space.
pub const SPACE: u8 = 32;

/// The byte `+`, an optional sign accepted in front of a decimal number.
pub const PLUS: u8 = 43;

/// Index of the first colon of `line`, if any.
pub open spec fn find_colon(line: Seq<u8>) -> Option<int>
    decreases line.len(),
{
    if line.len() == 0 {
        None
    } else if line[0] == COLON {
        Some(0int)
    } else {
        match find_colon(line.drop_first()) {
            None => None,
            Some(i) => Some(i + 1),
        }
    }
}

/// The field name of a line: everything before the first colon, or the whole
/// line when it has no colon.
pub open spec fn spec_field(line: Seq<u8>) -> Seq<u8> {
    match find_colon(line) {
        None => line,
        Some(i) => line.subrange(0, i),
    }
}

/// The raw value of a line: everything after the first colon, or empty when
/// the line has no colon.
pub open spec fn spec_raw_value(line: Seq<u8>) -> Seq<u8> {
    match find_colon(line) {
        None => Seq::empty(),
        Some(i) => line.subrange(i + 1, line.len() as int),
    }
}

/// Strips exactly one leading space, if present.
pub open spec fn strip_one_space(v: Seq<u8>) -> Seq<u8> {
    if v.len() > 0 && v[0] == SPACE {
        v.drop_first()
    } else {
        v
    }
}

/// The value of a line, after the one-space trimming rule.
pub open spec fn spec_value(line: Seq<u8>) -> Seq<u8> {
    strip_one_space(spec_raw_value(line))
}

proof fn lemma_find_colon_at(line: Seq<u8>, i: int)
    requires
        0 <= i < line.len(),
        line[i] == COLON,
        forall|j: int| 0 <= j < i ==> line[j] != COLON,
    ensures
        find_colon(line) == Some(i),
    decreases i,
{
    if i > 0 {
        lemma_find_colon_at(line.drop_first(), i - 1);
    }
}

proof fn lemma_find_colon_none(line: Seq<u8>)
    requires
        forall|j: int| 0 <= j < line.len() ==> line[j] != COLON,
    ensures
        find_colon(line) is None,
    decreases line.len(),
{
    if line.len() > 0 {
        lemma_find_colon_none(line.drop_first());
    }
}

/// Position of the first colon of `line`, if any.
fn find_colon_index(line: &Vec<u8>) -> (r: Option<usize>)
    ensures
        match r {
            Some(i) => i < line@.len() && find_colon(line@) == Some(i as int),
            None => find_colon(line@) is None,
        },
{
    let mut i: usize = 0;
    while i < line.len()
        invariant
            i <= line@.len(),
            forall|j: int| 0 <= j < i ==> line@[j] != COLON,
        decreases line@.len() - i,
    {
        if line[i] == COLON {
            proof {
                lemma_find_colon_at(line@, i as int);
            }
            return Some(i);
        }
        i += 1;
    }
    proof {
        lemma_find_colon_none(line@);
    }
    None
}

/// Copies the bytes of `v[from..to]` into a fresh vector.
fn copy_range(v: &Vec<u8>, from: usize, to: usize) -> (r: Vec<u8>)
    requires
        from <= to <= v@.len(),
    ensures
        r@ == v@.subrange(from as int, to as int),
{
    let mut r: Vec<u8> = Vec::new();
    let mut i: usize = from;
    while i < to
        invariant
            from <= i <= to <= v@.len(),
            r@ == v@.subrange(from as int, i as int),
        decreases to - i,
    {
        r.push(v[i]);
        proof {
            assert(v@.subrange(from as int, i + 1) =~= v@.subrange(from as int, i as int).push(
                v@[i as int],
            ));
        }
        i += 1;
    }
    r
}

/// Splits a line into field name and value: the field is everything before
/// the first colon (the whole line when there is none), the value everything
/// after it, with exactly one leading space stripped when present.
pub fn parse_line(line: &Vec<u8>) -> (r: (Vec<u8>, Vec<u8>))
    ensures
        r.0@ == spec_field(line@),
        r.1@ == spec_value(line@),
{
    let n = line.len();
    let (field_end, raw_start) = match find_colon_index(line) {
        Some(i) => (i, i + 1),
        None => (n, n),
    };
    let field = copy_range(line, 0, field_end);
    let value_start = if raw_start < line.len() && line[raw_start] == SPACE {
        raw_start + 1
    } else {
        raw_start
    };
    let value = copy_range(line, value_start, line.len());
    proof {
        assert(field@ =~= spec_field(line@));
        assert(value@ =~= spec_value(line@));
    }
    (field, value)
}

/// Whether `b` is an ASCII decimal digit.
pub open spec fn is_ascii_digit(b: u8) -> bool {
    48 <= b && b <= 57
}

/// Whether every byte of `s` is an ASCII decimal digit.
pub open spec fn all_digits(s: Seq<u8>) -> bool {
    forall|i: int| 0 <= i < s.len() ==> is_ascii_digit(s[i])
}

/// The number denoted by a sequence of decimal digits, most significant
/// first.
pub open spec fn digits_val(s: Seq<u8>) -> nat
    decreases s.len(),
{
    if s.len() == 0 {
        0
    } else {
        digits_val(s.drop_last()) * 10 + ((s.last() - 48) as nat)
    }
}

/// What `retry:` values mean: an optional leading `+`, then one or more
/// decimal digits whose value fits in a `u64`; anything else does not parse.
/// This matches how the standard decimal parse of an unsigned integer
/// behaves.
pub open spec fn spec_parse_retry(s: Seq<u8>) -> Option<u64> {
    let digits = if s.len() > 0 && s[0] == PLUS {
        s.drop_first()
    } else {
        s
    };
    if digits.len() > 0 && all_digits(digits) && digits_val(digits) <= u64::MAX {
        Some(digits_val(digits) as u64)
    } else {
        None
    }
}

proof fn lemma_digits_val_prefix_le(s: Seq<u8>, i: int)
    requires
        0 <= i <= s.len(),
    ensures
        digits_val(s.subrange(0, i)) <= digits_val(s),
    decreases s.len() - i,
{
    if i == s.len() {
        assert(s.subrange(0, i) =~= s);
    } else {
        assert(s.subrange(0, i + 1).drop_last() =~= s.subrange(0, i));
        lemma_digits_val_prefix_le(s, i + 1);
    }
}

/// Parses a `retry:` value as a count of milliseconds, exactly when
/// `spec_parse_retry` says it parses.
pub fn parse_retry_millis(value: &Vec<u8>) -> (r: Option<u64>)
    ensures
        r == spec_parse_retry(value@),
{
    let start: usize = if value.len() > 0 && value[0] == PLUS {
        1
    } else {
        0
    };
    let ghost digits = value@.subrange(start as int, value@.len() as int);
    proof {
        assert(digits =~= if value@.len() > 0 && value@[0] == PLUS {
            value@.drop_first()
        } else {
            value@
        });
    }
    if start == value.len() {
        return None;
    }
    let mut acc: u64 = 0;
    let mut i: usize = start;
    while i < value.len()
        invariant
            start <= i <= value@.len(),
            start <= 1,
            digits == value@.subrange(start as int, value@.len() as int),
            digits == (if value@.len() > 0 && value@[0] == PLUS {
                value@.drop_first()
            } else {
                value@
            }),
            all_digits(value@.subrange(start as int, i as int)),
            acc as nat == digits_val(value@.subrange(start as int, i as int)),
        decreases value@.len() - i,
    {
        let b = value[i];
        if !(48 <= b && b <= 57) {
            proof {
                assert(digits[i - start] == value@[i as int]);
                assert(!is_ascii_digit(digits[i - start]));
                assert(!all_digits(digits));
                assert(spec_parse_retry(value@) is None);
            }
            return None;
        }
        let d: u64 = (b - 48) as u64;
        let ghost prefix = value@.subrange(start as int, i as int);
        let ghost prefix1 = value@.subrange(start as int, i + 1);
        proof {
            assert(prefix1.drop_last() =~= prefix);
            assert(digits_val(prefix1) == digits_val(prefix) * 10 + ((b - 48) as nat));
        }
        if acc > (u64::MAX - d) / 10 {
            proof {
                assert(acc * 10 + d > u64::MAX) by (nonlinear_arith)
                    requires
                        acc > (u64::MAX - d) / 10,
                        d <= 9,
                {
                }
                assert(prefix1 =~= digits.subrange(0, i + 1 - start));
                lemma_digits_val_prefix_le(digits, i + 1 - start);
                assert(digits_val(digits) > u64::MAX);
                assert(spec_parse_retry(value@) is None);
            }
            return None;
        }
        proof {
            assert(acc * 10 + d <= u64::MAX) by (nonlinear_arith)
                requires
                    acc <= (u64::MAX - d) / 10,
                    d <= 9,
            {
            }
        }
        acc = acc * 10 + d;
        i += 1;
    }
    proof {
        assert(value@.subrange(start as int, i as int) =~= digits);
    }
    Some(acc)
}

} // verus!
