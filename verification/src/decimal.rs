//! Reading whole numbers from decimal text, as `str::parse` reads them: an
//! optional sign, then one or more ASCII digits, and nothing else.
use vstd::prelude::*;

use crate::text::chars_of;

verus! {

pub open spec fn is_digit(c: char) -> bool {
    '0' <= c <= '9'
}

/// The value of a digit.
pub open spec fn digit_of(c: char) -> int {
    c as u32 as int - 48
}

pub open spec fn all_digits(s: Seq<char>) -> bool {
    forall|i: int| 0 <= i < s.len() ==> is_digit(#[trigger] s[i])
}

/// The number that a run of digits denotes; zero for the empty run.
pub open spec fn decimal(s: Seq<char>) -> int
    decreases s.len(),
{
    if s.len() == 0 {
        0
    } else {
        10 * decimal(s.drop_last()) + digit_of(s.last())
    }
}

/// The number that a text denotes without a sign: the text must be a run of
/// one or more digits.
pub open spec fn magnitude(s: Seq<char>) -> Option<int> {
    if s.len() > 0 && all_digits(s) {
        Some(decimal(s))
    } else {
        None
    }
}

/// Whether a text starts with the character.
pub open spec fn starts_with(s: Seq<char>, c: char) -> bool {
    s.len() > 0 && s[0] == c
}

/// The unsigned 64-bit number that a text denotes: an optional `+`, then
/// digits, the value within range.
pub open spec fn parsed_u64(s: Seq<char>) -> Option<u64> {
    let digits = if starts_with(s, '+') {
        s.drop_first()
    } else {
        s
    };
    match magnitude(digits) {
        Some(v) => if v <= u64::MAX {
            Some(v as u64)
        } else {
            None
        },
        None => None,
    }
}

/// The signed 64-bit number that a text denotes: an optional `+` or `-`,
/// then digits, the value within range.
pub open spec fn parsed_i64(s: Seq<char>) -> Option<i64> {
    let digits = if starts_with(s, '+') || starts_with(s, '-') {
        s.drop_first()
    } else {
        s
    };
    match magnitude(digits) {
        Some(v) => {
            let n = if starts_with(s, '-') {
                -v
            } else {
                v
            };
            if i64::MIN <= n <= i64::MAX {
                Some(n as i64)
            } else {
                None
            }
        },
        None => None,
    }
}

/// A run of digits denotes no less than any of its beginnings.
pub proof fn lemma_decimal_grows(s: Seq<char>, k: int)
    requires
        all_digits(s),
        0 <= k <= s.len(),
    ensures
        0 <= decimal(s.take(k)) <= decimal(s),
    decreases s.len(),
{
    if s.len() == 0 {
        assert(s.take(k) =~= s);
    } else if k == s.len() {
        assert(s.take(k) =~= s);
        assert(is_digit(s[s.len() - 1]));
        lemma_decimal_grows(s.drop_last(), 0);
    } else {
        assert(is_digit(s[s.len() - 1]));
        assert(s.drop_last().take(k) =~= s.take(k));
        lemma_decimal_grows(s.drop_last(), k);
    }
}

/// The number that the characters from `from` on denote without a sign,
/// where it is at most `limit`.
fn read_magnitude(cs: &Vec<char>, from: usize, limit: u64) -> (r: Option<u64>)
    requires
        from <= cs@.len(),
    ensures
        r == match magnitude(cs@.skip(from as int)) {
            Some(v) => if v <= limit {
                Some(v as u64)
            } else {
                None
            },
            None => None,
        },
        r matches Some(v) ==> v <= limit && magnitude(cs@.skip(from as int)) == Some(v as int),
{
    let n = cs.len();
    let ghost digits = cs@.skip(from as int);
    if from == n {
        return None;
    }
    let mut acc: u64 = 0;
    let mut i: usize = from;
    assert(digits.take(0) =~= Seq::empty());
    while i < n
        invariant
            from <= i <= n,
            n == cs@.len(),
            digits == cs@.skip(from as int),
            all_digits(digits.take(i - from)),
            acc == decimal(digits.take(i - from)),
            acc <= limit,
        decreases n - i,
    {
        let c = cs[i];
        let ghost upto = digits.take(i - from + 1);
        proof {
            assert(upto.drop_last() =~= digits.take(i - from));
            assert(upto.last() == c);
            assert(digits[i - from] == c);
        }
        if !('0' <= c && c <= '9') {
            return None;
        }
        let d: u64 = (c as u32 - 48) as u64;
        let next: u128 = acc as u128 * 10 + d as u128;
        proof {
            assert forall|k: int| 0 <= k < upto.len() implies is_digit(#[trigger] upto[k]) by {
                if k < i - from {
                    assert(upto[k] == digits.take(i - from)[k]);
                }
            }
            assert(next == decimal(upto));
        }
        if next > limit as u128 {
            proof {
                if all_digits(digits) {
                    lemma_decimal_grows(digits, i - from + 1);
                }
            }
            return None;
        }
        acc = next as u64;
        i += 1;
    }
    assert(digits.take(n - from) =~= digits);
    proof {
        lemma_decimal_grows(digits, 0);
    }
    Some(acc)
}

/// Reads an unsigned 64-bit number.
pub fn parse_u64(text: &str) -> (r: Option<u64>)
    ensures
        r == parsed_u64(text@),
{
    let cs = chars_of(text);
    let from: usize = if cs.len() > 0 && cs[0] == '+' {
        1
    } else {
        0
    };
    proof {
        if from == 1 {
            assert(text@.drop_first() =~= cs@.skip(1));
        } else {
            assert(text@ =~= cs@.skip(0));
        }
    }
    read_magnitude(&cs, from, u64::MAX)
}

/// Reads a signed 64-bit number.
pub fn parse_i64(text: &str) -> (r: Option<i64>)
    ensures
        r == parsed_i64(text@),
{
    let cs = chars_of(text);
    let negative = cs.len() > 0 && cs[0] == '-';
    let from: usize = if cs.len() > 0 && (cs[0] == '+' || cs[0] == '-') {
        1
    } else {
        0
    };
    proof {
        if from == 1 {
            assert(text@.drop_first() =~= cs@.skip(1));
        } else {
            assert(text@ =~= cs@.skip(0));
        }
    }
    proof {
        let digits = cs@.skip(from as int);
        if all_digits(digits) {
            lemma_decimal_grows(digits, 0);
        }
    }
    if negative {
        match read_magnitude(&cs, from, 0x8000_0000_0000_0000) {
            Some(v) => if v == 0x8000_0000_0000_0000 {
                Some(i64::MIN)
            } else {
                Some(-(v as i64))
            },
            None => None,
        }
    } else {
        match read_magnitude(&cs, from, 0x7FFF_FFFF_FFFF_FFFF) {
            Some(v) => Some(v as i64),
            None => None,
        }
    }
}

} // verus!
