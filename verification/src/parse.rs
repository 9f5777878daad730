//! Parsing the `{id}` path segment as the identity type.
//!
//! A segment is an id exactly when it is an optional sign followed by
//! one or more decimal digits and its value fits the store's id type; a
//! segment that is not an id maps to a 400 reply at the edge.

use vstd::prelude::*;

verus! {

/// Whether `c` is a decimal digit, `'0'` through `'9'`.
pub open spec fn is_digit(c: char) -> bool {
    48 <= c as int && c as int <= 57
}

/// The value of a decimal digit.
pub open spec fn digit_value(c: char) -> int {
    c as int - 48
}

/// Whether every character of `s` is a decimal digit.
pub open spec fn all_digits(s: Seq<char>) -> bool {
    forall|i: int| 0 <= i < s.len() ==> is_digit(#[trigger] s[i])
}

/// The number a sequence of digits denotes, most significant first.
pub open spec fn dec_value(s: Seq<char>) -> int
    decreases s.len(),
{
    if s.len() == 0 {
        0
    } else {
        10 * dec_value(s.drop_last()) + digit_value(s.last())
    }
}

/// Whether `s` opens with an explicit sign.
pub open spec fn has_sign(s: Seq<char>) -> bool {
    s.len() > 0 && (s[0] == '-' || s[0] == '+')
}

/// `s` without its sign, if it has one.
pub open spec fn digits_of(s: Seq<char>) -> Seq<char> {
    if has_sign(s) {
        s.subrange(1, s.len() as int)
    } else {
        s
    }
}

/// The sign `s` denotes: -1 under a leading `'-'`, else 1.
pub open spec fn sign_of(s: Seq<char>) -> int {
    if s.len() > 0 && s[0] == '-' {
        -1
    } else {
        1
    }
}

/// Whether `s` is an integer literal: an optional sign, then one or
/// more digits and nothing else.
pub open spec fn is_int_literal(s: Seq<char>) -> bool {
    digits_of(s).len() > 0 && all_digits(digits_of(s))
}

/// The value an integer literal denotes.
pub open spec fn int_literal_value(s: Seq<char>) -> int {
    sign_of(s) * dec_value(digits_of(s))
}

/// Whether `s` denotes an id: an integer literal whose value fits i64.
pub open spec fn is_i64_literal(s: Seq<char>) -> bool {
    is_int_literal(s) && i64::MIN <= int_literal_value(s) <= i64::MAX
}

/// A sequence of digits denotes a number that is not negative.
proof fn lemma_dec_value_nonneg(s: Seq<char>)
    requires
        all_digits(s),
    ensures
        0 <= dec_value(s),
    decreases s.len(),
{
    if s.len() > 0 {
        assert forall|i: int| 0 <= i < s.drop_last().len() implies is_digit(
            #[trigger] s.drop_last()[i],
        ) by {
            assert(s.drop_last()[i] == s[i]);
        }
        lemma_dec_value_nonneg(s.drop_last());
    }
}

/// Reading one more digit multiplies the prefix value by ten and adds
/// the digit.
proof fn lemma_dec_value_step(s: Seq<char>, n: int)
    requires
        0 <= n < s.len(),
    ensures
        dec_value(s.take(n + 1)) == 10 * dec_value(s.take(n)) + digit_value(s[n]),
{
    let t = s.take(n + 1);
    assert(t.drop_last() =~= s.take(n));
    assert(t.last() == s[n]);
}

/// The value of a digit sequence is at least the value of any prefix.
proof fn lemma_dec_value_mono(s: Seq<char>, n: int)
    requires
        all_digits(s),
        0 <= n <= s.len(),
    ensures
        dec_value(s.take(n)) <= dec_value(s),
    decreases s.len() - n,
{
    if n == s.len() {
        assert(s.take(n) =~= s);
    } else {
        assert forall|i: int| 0 <= i < s.take(n).len() implies is_digit(
            #[trigger] s.take(n)[i],
        ) by {
            assert(s.take(n)[i] == s[i]);
        }
        lemma_dec_value_nonneg(s.take(n));
        lemma_dec_value_step(s, n);
        lemma_dec_value_mono(s, n + 1);
    }
}

/// Parse a path segment as an id. Returns the denoted value exactly
/// when the segment is an integer literal that fits i64, and nothing
/// otherwise: no clipping, no partial reads.
#[verifier::loop_isolation(false)]
pub fn parse_id(s: &str) -> (r: Option<i64>)
    ensures
        match r {
            Option::Some(v) => is_i64_literal(s@) && v as int == int_literal_value(s@),
            Option::None => !is_i64_literal(s@),
        },
{
    let len = s.unicode_len();
    if len == 0 {
        return Option::None;
    }
    let c0 = s.get_char(0);
    let neg = c0 == '-';
    let signed = neg || c0 == '+';
    let start: usize = if signed {
        1
    } else {
        0
    };
    let ghost ds = digits_of(s@);
    proof {
        assert(ds.len() == len - start);
    }
    if start == len {
        return Option::None;
    }
    let bound: u64 = 922337203685477580;
    let last_max: u64 = if neg {
        8
    } else {
        7
    };
    let ghost limit: int = 9223372036854775800 + last_max as int;
    let mut acc: u64 = 0;
    let mut i: usize = start;
    while i < len
        invariant
            start <= i <= len,
            all_digits(ds.take(i - start)),
            acc == dec_value(ds.take(i - start)),
            acc as int <= limit,
        decreases len - i,
    {
        let c = s.get_char(i);
        proof {
            assert(ds[i - start] == s@[i as int]);
        }
        let u = c as u32;
        if u < 48 || u > 57 {
            proof {
                assert(!is_digit(ds[i - start]));
                assert(!all_digits(ds));
            }
            return Option::None;
        }
        let d: u64 = (u - 48) as u64;
        if acc > bound || (acc == bound && d > last_max) {
            proof {
                lemma_dec_value_step(ds, i - start);
                assert(dec_value(ds.take(i - start + 1)) > limit);
                if all_digits(ds) {
                    lemma_dec_value_mono(ds, i - start + 1);
                    assert(dec_value(ds) > limit);
                }
                assert(!is_i64_literal(s@));
            }
            return Option::None;
        }
        proof {
            lemma_dec_value_step(ds, i - start);
            assert forall|k: int| 0 <= k < ds.take(i - start + 1).len() implies is_digit(
                #[trigger] ds.take(i - start + 1)[k],
            ) by {
                if k < i - start {
                    assert(ds.take(i - start + 1)[k] == ds.take(i - start)[k]);
                } else {
                    assert(ds.take(i - start + 1)[k] == ds[i - start]);
                }
            }
        }
        acc = acc * 10 + d;
        i = i + 1;
    }
    proof {
        assert(ds.take(i - start) =~= ds);
        assert(is_int_literal(s@));
    }
    if neg {
        if acc == 9223372036854775808u64 {
            Option::Some(i64::MIN)
        } else {
            Option::Some(-(acc as i64))
        }
    } else {
        Option::Some(acc as i64)
    }
}

} // verus!
