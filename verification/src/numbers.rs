//! Reading the numbers of `git log` output: change counts and timestamps.

use vstd::prelude::*;
use crate::agent_config::{all_digits, digit_value, digits_value, is_digit, lemma_digits_prefix};

verus! {

/// A line count of `git log --numstat`: decimal digits, or `-` (a binary
/// file, counted as 0).
pub open spec fn spec_parse_count(t: Seq<char>) -> Option<usize> {
    if t == seq!['-'] {
        Some(0usize)
    } else if t.len() > 0 && all_digits(t) && digits_value(t) <= usize::MAX {
        Some(digits_value(t) as usize)
    } else {
        None
    }
}

/// Seconds since the epoch as `git log` writes them (`%at`): an optional
/// `-`, then decimal digits, within the range of `i64`.
pub open spec fn spec_parse_seconds(t: Seq<char>) -> Option<i64> {
    let neg = t.len() > 0 && t[0] == '-';
    let b = if neg { t.drop_first() } else { t };
    if b.len() > 0 && all_digits(b) && (if neg {
        digits_value(b) <= 0x8000_0000_0000_0000
    } else {
        digits_value(b) <= 0x7fff_ffff_ffff_ffff
    }) {
        Some((if neg { -(digits_value(b) as int) } else { digits_value(b) as int }) as i64)
    } else {
        None
    }
}

/// Reads the digits of `s[from..to]`, giving up once their value exceeds
/// `limit`: `Some(value)` exactly when the text is one or more digits whose
/// value is at most `limit`.
fn digits_at_most(s: &Vec<char>, from: usize, to: usize, limit: u128) -> (r: Option<u128>)
    requires
        from <= to <= s@.len(),
        limit < 0x1_0000_0000_0000_0000,
    ensures
        ({
            let t = s@.subrange(from as int, to as int);
            r == (if t.len() > 0 && all_digits(t) && digits_value(t) <= limit {
                Some(digits_value(t) as u128)
            } else {
                None
            })
        }),
{
    let ghost t = s@.subrange(from as int, to as int);
    if from == to {
        return None;
    }
    let mut value: u128 = 0;
    let mut i: usize = from;
    while i < to
        invariant
            from <= i <= to <= s@.len(),
            t == s@.subrange(from as int, to as int),
            limit < 0x1_0000_0000_0000_0000,
            value == digits_value(t.take(i - from)),
            value <= limit,
            all_digits(t.take(i - from)),
        decreases to - i,
    {
        let c = s[i];
        proof {
            assert(t.take(i - from + 1).drop_last() =~= t.take(i - from));
            assert(t[i - from] == c);
        }
        if !('0' <= c && c <= '9') {
            assert(!is_digit(t[i - from]));
            return None;
        }
        value = value * 10 + (c as u128 - '0' as u128);
        assert(all_digits(t.take(i - from + 1)));
        if value > limit {
            proof {
                if all_digits(t) {
                    lemma_digits_prefix(t, i - from + 1);
                }
            }
            return None;
        }
        i = i + 1;
    }
    proof {
        assert(t.take(i - from) =~= t);
    }
    Some(value)
}

/// Reads a line count of `--numstat` output from `s[from..to]`.
pub fn parse_count(s: &Vec<char>, from: usize, to: usize) -> (r: Option<usize>)
    requires
        from <= to <= s@.len(),
    ensures
        r == spec_parse_count(s@.subrange(from as int, to as int)),
{
    let ghost t = s@.subrange(from as int, to as int);
    if from < to && to - from == 1 && s[from] == '-' {
        assert(t =~= seq!['-']);
        return Some(0);
    }
    assert(t != seq!['-']) by {
        if t == seq!['-'] {
            assert(t.len() == 1 && t[0] == s@[from as int]);
        }
    }
    match digits_at_most(s, from, to, usize::MAX as u128) {
        Some(v) => Some(v as usize),
        None => None,
    }
}

/// Reads seconds since the epoch from `s[from..to]`.
pub fn parse_seconds(s: &Vec<char>, from: usize, to: usize) -> (r: Option<i64>)
    requires
        from <= to <= s@.len(),
    ensures
        r == spec_parse_seconds(s@.subrange(from as int, to as int)),
{
    let ghost t = s@.subrange(from as int, to as int);
    let neg = from < to && s[from] == '-';
    let start: usize = if neg { from + 1 } else { from };
    proof {
        if neg {
            assert(t.drop_first() =~= s@.subrange(start as int, to as int));
        } else {
            assert(t =~= s@.subrange(start as int, to as int));
        }
    }
    if neg {
        match digits_at_most(s, start, to, 0x8000_0000_0000_0000u128) {
            Some(v) => {
                if v == 0x8000_0000_0000_0000u128 {
                    Some(i64::MIN)
                } else {
                    let m: i64 = v as i64;
                    Some(-m)
                }
            },
            None => None,
        }
    } else {
        match digits_at_most(s, start, to, 0x7fff_ffff_ffff_ffffu128) {
            Some(v) => Some(v as i64),
            None => None,
        }
    }
}

} // verus!
