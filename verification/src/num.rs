//! Decimal integers as `str::parse` reads them: an optional sign, then one or
//! more ASCII digits, with the value inside the target type's range.

use vstd::prelude::*;
use vstd::string::*;

verus! {

pub open spec fn is_digit(c: char) -> bool {
    '0' <= c && c <= '9'
}

pub open spec fn digit_value(c: char) -> nat {
    (c as nat - '0' as nat) as nat
}

pub open spec fn all_digits(s: Seq<char>) -> bool {
    forall|i: int| 0 <= i < s.len() ==> #[trigger] is_digit(s[i])
}

/// The value of a string of decimal digits.
pub open spec fn digits_value(s: Seq<char>) -> nat
    decreases s.len(),
{
    if s.len() == 0 {
        0
    } else {
        digits_value(s.drop_last()) * 10 + digit_value(s.last())
    }
}

/// The digits after an optional leading `+`.
pub open spec fn unsigned_digits(s: Seq<char>) -> Seq<char> {
    if s.len() > 0 && s[0] == '+' {
        s.drop_first()
    } else {
        s
    }
}

/// What an unsigned `from_str` with maximum `max` yields.
pub open spec fn parse_unsigned_spec(s: Seq<char>, max: nat) -> Option<nat> {
    let d = unsigned_digits(s);
    if d.len() > 0 && all_digits(d) && digits_value(d) <= max {
        Some(digits_value(d))
    } else {
        None
    }
}

/// What a signed `from_str` with range `min..=max` yields: `-` negates, `+` is allowed.
pub open spec fn parse_signed_spec(s: Seq<char>, min: int, max: int) -> Option<int> {
    if s.len() > 0 && s[0] == '-' {
        let d = s.drop_first();
        if d.len() > 0 && all_digits(d) && -digits_value(d) >= min {
            Some(-digits_value(d))
        } else {
            None
        }
    } else {
        match parse_unsigned_spec(s, max as nat) {
            Some(v) => if max >= 0 { Some(v as int) } else { None },
            None => None,
        }
    }
}

proof fn lemma_digits_value_monotone(s: Seq<char>, i: int, j: int)
    requires
        0 <= i <= j <= s.len(),
    ensures
        digits_value(s.take(i)) <= digits_value(s.take(j)),
    decreases j - i,
{
    if i < j {
        lemma_digits_value_monotone(s, i, j - 1);
        assert(s.take(j).drop_last() =~= s.take(j - 1));
    }
}

/// Reads `d` as digits; `None` unless it is non-empty, all digits, and at most `limit`.
fn parse_digits(d: &str, limit: u64) -> (r: Option<u64>)
    ensures
        match r {
            Some(v) => d@.len() > 0 && all_digits(d@) && digits_value(d@) <= limit && v
                == digits_value(d@),
            None => !(d@.len() > 0 && all_digits(d@) && digits_value(d@) <= limit),
        },
{
    let n = d.unicode_len();
    if n == 0 {
        return None;
    }
    let mut v: u64 = 0;
    let mut i: usize = 0;
    proof {
        assert(d@.take(0) =~= Seq::<char>::empty());
    }
    while i < n
        invariant
            n == d@.len(),
            i <= n,
            v == digits_value(d@.take(i as int)),
            v <= limit,
            all_digits(d@.take(i as int)),
        decreases n - i,
    {
        let c = d.get_char(i);
        proof {
            assert(d@.take(i + 1).drop_last() =~= d@.take(i as int));
            assert(d@.take(i + 1).last() == c);
        }
        if !('0' <= c && c <= '9') {
            proof {
                assert(!is_digit(d@[i as int]));
            }
            return None;
        }
        let dig = (c as u32 - '0' as u32) as u64;
        if dig > limit || v > (limit - dig) / 10 {
            proof {
                assert(digits_value(d@.take(i + 1)) > limit) by (nonlinear_arith)
                    requires
                        digits_value(d@.take(i + 1)) == v * 10 + dig,
                        dig > limit || v > (limit - dig) / 10,
                        dig <= 9,
                ;
                lemma_digits_value_monotone(d@, i + 1, n as int);
                assert(d@.take(n as int) =~= d@);
            }
            return None;
        }
        proof {
            assert(v * 10 + dig <= limit) by (nonlinear_arith)
                requires
                    v <= (limit - dig) / 10,
                    dig <= limit,
            ;
            assert(all_digits(d@.take(i + 1))) by {
                assert forall|k: int| 0 <= k < i + 1 implies #[trigger] is_digit(d@.take(i + 1)[k]) by {
                    if k < i {
                        assert(d@.take(i + 1)[k] == d@.take(i as int)[k]);
                    }
                }
            }
        }
        v = v * 10 + dig;
        i = i + 1;
    }
    proof {
        assert(d@.take(n as int) =~= d@);
    }
    Some(v)
}

/// An unsigned integer no larger than `max`, as `from_str` reads it.
pub fn parse_unsigned(s: &str, max: u64) -> (r: Option<u64>)
    ensures
        match r {
            Some(v) => parse_unsigned_spec(s@, max as nat) == Some(v as nat),
            None => parse_unsigned_spec(s@, max as nat) is None,
        },
{
    let n = s.unicode_len();
    if n > 0 && s.get_char(0) == '+' {
        let rest = s.substring_char(1, n);
        proof {
            assert(rest@ =~= s@.drop_first());
        }
        parse_digits(rest, max)
    } else {
        parse_digits(s, max)
    }
}

/// A signed integer in `-(neg_max as int) ..= pos_max`, as `from_str` reads it.
pub fn parse_signed(s: &str, neg_max: u64, pos_max: u64) -> (r: Option<(bool, u64)>)
    ensures
        match r {
            Some((neg, mag)) => parse_signed_spec(s@, -(neg_max as int), pos_max as int) == Some(
                if neg { -(mag as int) } else { mag as int },
            ),
            None => parse_signed_spec(s@, -(neg_max as int), pos_max as int) is None,
        },
{
    let n = s.unicode_len();
    if n > 0 && s.get_char(0) == '-' {
        let rest = s.substring_char(1, n);
        proof {
            assert(rest@ =~= s@.drop_first());
        }
        match parse_digits(rest, neg_max) {
            Some(m) => Some((true, m)),
            None => None,
        }
    } else {
        match parse_unsigned(s, pos_max) {
            Some(m) => Some((false, m)),
            None => None,
        }
    }
}

} // verus!
