//! Currency amounts and their decimal text form.
//!
//! An amount is held exactly, as a signed count of hundredths of the currency
//! unit, so that what a dialogue reads back is precisely what was entered.

use vstd::prelude::*;
use crate::text::str_chars;

verus! {

/// A currency amount, as a signed count of hundredths of the unit.
#[derive(Clone, Copy, Debug, PartialEq, Eq, Structural)]
pub struct Amount {
    pub pence: i64,
}

/// Whether `c` is a decimal digit.
pub open spec fn is_digit(c: char) -> bool {
    48 <= c as u32 <= 57
}

/// The value of the digit `c`.
pub open spec fn digit_val(c: char) -> int {
    c as u32 - 48
}

/// Whether every character of `s` is a decimal digit.
pub open spec fn all_digits(s: Seq<char>) -> bool {
    forall|i: int| 0 <= i < s.len() ==> is_digit(#[trigger] s[i])
}

/// The value of the digit string `s`, most significant digit first.
pub open spec fn num_of(s: Seq<char>) -> int
    decreases s.len(),
{
    if s.len() == 0 {
        0
    } else {
        num_of(s.drop_last()) * 10 + digit_val(s.last())
    }
}

/// The position of the first `'.'` in `s`, or `-1` when there is none.
pub open spec fn dot_index(s: Seq<char>) -> int
    decreases s.len(),
{
    if s.len() == 0 {
        -1
    } else if s[0] == '.' {
        0
    } else {
        let r = dot_index(s.drop_first());
        if r < 0 {
            -1
        } else {
            r + 1
        }
    }
}

/// The non-negative pence value of an unsigned amount literal: digits with an
/// optional dot followed by one or two fractional digits. `None` when `b` is
/// not of that shape.
pub open spec fn pence_of_body(b: Seq<char>) -> Option<int> {
    let di = dot_index(b);
    if di < 0 {
        if b.len() > 0 && all_digits(b) {
            Some(100 * num_of(b))
        } else {
            None
        }
    } else {
        let ip = b.take(di);
        let fp = b.skip(di + 1);
        if ip.len() > 0 && all_digits(ip) && 1 <= fp.len() <= 2 && all_digits(fp) {
            Some(
                100 * num_of(ip) + (if fp.len() == 1 {
                    10 * digit_val(fp[0])
                } else {
                    10 * digit_val(fp[0]) + digit_val(fp[1])
                }),
            )
        } else {
            None
        }
    }
}

/// The signed pence value of an unsigned body, `None` when the body is not an
/// amount literal or its magnitude does not fit the amount type.
pub open spec fn signed_pence(b: Seq<char>, neg: bool) -> Option<int> {
    match pence_of_body(b) {
        Some(m) => if m <= i64::MAX {
            Some(
                if neg {
                    -m
                } else {
                    m
                },
            )
        } else {
            None
        },
        None => None,
    }
}

/// The pence value of the amount literal `s`: an optional sign, then digits,
/// then optionally a dot and one or two fractional digits. `None` when `s` is
/// not of that shape or does not fit the amount type.
pub open spec fn amount_of(s: Seq<char>) -> Option<int> {
    if s.len() > 0 && s[0] == '-' {
        signed_pence(s.drop_first(), true)
    } else if s.len() > 0 && s[0] == '+' {
        signed_pence(s.drop_first(), false)
    } else {
        signed_pence(s, false)
    }
}

/// The value of a digit string is never negative.
pub proof fn lemma_num_of_nonneg(s: Seq<char>)
    requires
        all_digits(s),
    ensures
        num_of(s) >= 0,
    decreases s.len(),
{
    if s.len() > 0 {
        assert(all_digits(s.drop_last()));
        lemma_num_of_nonneg(s.drop_last());
    }
}

/// A digit string is worth at least any of its prefixes.
pub proof fn lemma_num_of_take_le(s: Seq<char>, i: int)
    requires
        all_digits(s),
        0 <= i <= s.len(),
    ensures
        num_of(s.take(i)) <= num_of(s),
    decreases s.len() - i,
{
    if i < s.len() {
        assert(s.take(i + 1).drop_last() =~= s.take(i));
        assert(s.take(i + 1).last() == s[i]);
        assert(all_digits(s.take(i)));
        lemma_num_of_nonneg(s.take(i));
        assert(num_of(s.take(i)) <= num_of(s.take(i + 1)));
        lemma_num_of_take_le(s, i + 1);
    } else {
        assert(s.take(i) =~= s);
    }
}

/// What `dot_index` returns: `-1` when `s` has no dot, else the position of
/// the first one.
pub proof fn lemma_dot_index_spec(s: Seq<char>)
    ensures
        dot_index(s) == -1 ==> forall|j: int| 0 <= j < s.len() ==> s[j] != '.',
        dot_index(s) >= 0 ==> 0 <= dot_index(s) < s.len() && s[dot_index(s)] == '.' && (forall|
            j: int,
        |
            0 <= j < dot_index(s) ==> s[j] != '.'),
    decreases s.len(),
{
    if s.len() == 0 {
    } else if s[0] == '.' {
    } else {
        let t = s.drop_first();
        lemma_dot_index_spec(t);
        if dot_index(t) == -1 {
            assert forall|j: int| 0 <= j < s.len() implies s[j] != '.' by {
                if j > 0 {
                    assert(t[j - 1] == s[j]);
                }
            }
        } else {
            let di = dot_index(t);
            assert(s[di + 1] == t[di]);
            assert forall|j: int| 0 <= j < di + 1 implies s[j] != '.' by {
                if j > 0 {
                    assert(t[j - 1] == s[j]);
                }
            }
        }
    }
}

/// The first dot of `s` sits at `k` exactly when `s[k]` is a dot and nothing
/// before it is.
pub proof fn lemma_dot_index_eq(s: Seq<char>, k: int)
    requires
        0 <= k < s.len(),
        s[k] == '.',
        forall|j: int| 0 <= j < k ==> s[j] != '.',
    ensures
        dot_index(s) == k,
{
    lemma_dot_index_spec(s);
    if dot_index(s) == -1 {
        assert(false);
    } else {
        let di = dot_index(s);
        if di < k {
            assert(s[di] != '.');
            assert(false);
        } else if di > k {
            assert(s[k] != '.');
            assert(false);
        }
    }
}

/// No dot anywhere means `dot_index` is `-1`.
pub proof fn lemma_dot_index_none(s: Seq<char>)
    requires
        forall|j: int| 0 <= j < s.len() ==> s[j] != '.',
    ensures
        dot_index(s) == -1,
{
    lemma_dot_index_spec(s);
    if dot_index(s) >= 0 {
        assert(s[dot_index(s)] != '.');
        assert(false);
    }
}

/// Parses the amount literal `s`: an optional `+` or `-` sign, then digits,
/// then optionally a dot and one or two fractional digits. Returns the exact
/// pence value, or `None` when `s` is not of that shape or does not fit.
#[verifier::loop_isolation(false)]
#[verifier::rlimit(50)]
pub fn parse_amount(s: &str) -> (r: Option<Amount>)
    ensures
        match r {
            Some(a) => amount_of(s@) == Some(a.pence as int),
            None => amount_of(s@) is None,
        },
{
    let chars = str_chars(s);
    let n = chars.len();
    let mut start: usize = 0;
    let mut neg: bool = false;
    if n > 0 && chars[0] == '-' {
        neg = true;
        start = 1;
    } else if n > 0 && chars[0] == '+' {
        start = 1;
    }
    let ghost body: Seq<char> = s@.subrange(start as int, n as int);
    proof {
        if start == 1 {
            assert(body =~= s@.drop_first());
        } else {
            assert(body =~= s@);
        }
        assert(amount_of(s@) == signed_pence(body, neg));
    }

    // Locate the first dot, if any.
    let mut dot: Option<usize> = None;
    let mut j = start;
    while j < n
        invariant
            start <= j <= n,
            n == s@.len(),
            chars@ == s@,
            dot is None ==> forall|k: int| start <= k < j ==> s@[k] != '.',
            dot matches Some(d) ==> start <= d < n && s@[d as int] == '.' && (forall|k: int|
                start <= k < d ==> s@[k] != '.'),
        decreases n - j,
    {
        if dot.is_none() && chars[j] == '.' {
            dot = Some(j);
        }
        j = j + 1;
    }
    proof {
        match dot {
            Some(d) => {
                assert(forall|k: int|
                    0 <= k < body.len() ==> body[k] == s@[k + start]);
                lemma_dot_index_eq(body, d - start);
            },
            None => {
                assert(forall|k: int|
                    0 <= k < body.len() ==> body[k] == s@[k + start]);
                lemma_dot_index_none(body);
            },
        }
    }

    // The integer part runs from `start` up to the dot, or to the end.
    let ip_end: usize = match dot {
        Some(d) => d,
        None => n,
    };
    let ghost ip: Seq<char> = s@.subrange(start as int, ip_end as int);
    proof {
        match dot {
            Some(d) => {
                assert(ip =~= body.take(dot_index(body)));
            },
            None => {
                assert(ip =~= body);
            },
        }
    }

    let mut acc: u64 = 0;
    let mut i = start;
    while i < ip_end
        invariant
            start <= i <= ip_end <= n,
            n == s@.len(),
            chars@ == s@,
            ip == s@.subrange(start as int, ip_end as int),
            forall|k: int| start <= k < i ==> is_digit(#[trigger] s@[k]),
            acc as int == num_of(s@.subrange(start as int, i as int)),
            acc <= 92233720368547758u64,
        decreases ip_end - i,
    {
        let c = chars[i];
        let u = c as u32;
        if !(48 <= u && u <= 57) {
            proof {
                assert(!is_digit(ip[i - start]));
                assert(!all_digits(ip));
                assert(pence_of_body(body) is None);
            }
            return None;
        }
        let d: u64 = (u - 48) as u64;
        let acc2 = acc * 10 + d;
        proof {
            assert(s@.subrange(start as int, i + 1 as int).drop_last() =~= s@.subrange(
                start as int,
                i as int,
            ));
            assert(s@.subrange(start as int, i + 1 as int).last() == s@[i as int]);
        }
        if acc2 > 92233720368547758u64 {
            proof {
                if all_digits(ip) {
                    assert(ip.take(i + 1 - start as int) =~= s@.subrange(
                        start as int,
                        i + 1 as int,
                    ));
                    lemma_num_of_take_le(ip, i + 1 - start as int);
                    assert(num_of(ip) >= acc2 as int);
                    match pence_of_body(body) {
                        Some(m) => {
                            if dot is Some {
                                let fp = body.skip(dot_index(body) + 1);
                                if all_digits(fp) && 1 <= fp.len() <= 2 {
                                    assert(m > i64::MAX);
                                }
                            } else {
                                assert(m > i64::MAX);
                            }
                        },
                        None => {},
                    }
                }
                assert(signed_pence(body, neg) is None);
            }
            return None;
        }
        acc = acc2;
        i = i + 1;
    }
    if i == start {
        proof {
            assert(ip.len() == 0);
            assert(pence_of_body(body) is None);
        }
        return None;
    }
    proof {
        assert(ip =~= s@.subrange(start as int, i as int));
        assert(all_digits(ip));
        assert(acc as int == num_of(ip));
    }

    let total: u64;
    match dot {
        None => {
            total = acc * 100;
            proof {
                assert(pence_of_body(body) == Some(100 * num_of(ip)));
                assert(total as int == 100 * num_of(ip));
                assert(total <= i64::MAX as u64);
            }
        },
        Some(d) => {
            let fstart = d + 1;
            let flen = n - fstart;
            let ghost fp: Seq<char> = s@.subrange(fstart as int, n as int);
            proof {
                assert(fp =~= body.skip(dot_index(body) + 1));
            }
            if flen == 0 || flen > 2 {
                proof {
                    assert(pence_of_body(body) is None);
                }
                return None;
            }
            let c1 = chars[fstart];
            let u1 = c1 as u32;
            if !(48 <= u1 && u1 <= 57) {
                proof {
                    assert(!is_digit(fp[0]));
                    assert(!all_digits(fp));
                    assert(pence_of_body(body) is None);
                }
                return None;
            }
            let v1: u64 = (u1 - 48) as u64;
            let frac: u64;
            if flen == 1 {
                frac = 10 * v1;
                proof {
                    assert(all_digits(fp));
                }
            } else {
                let c2 = chars[fstart + 1];
                let u2 = c2 as u32;
                if !(48 <= u2 && u2 <= 57) {
                    proof {
                        assert(!is_digit(fp[1]));
                        assert(!all_digits(fp));
                        assert(pence_of_body(body) is None);
                    }
                    return None;
                }
                let v2: u64 = (u2 - 48) as u64;
                frac = 10 * v1 + v2;
                proof {
                    assert forall|k: int| 0 <= k < fp.len() implies is_digit(#[trigger] fp[k]) by {
                        assert(k == 0 || k == 1);
                    }
                    assert(all_digits(fp));
                }
            }
            total = acc * 100 + frac;
            proof {
                assert(pence_of_body(body) == Some(100 * num_of(ip) + frac as int));
                assert(total as int == 100 * num_of(ip) + frac as int);
            }
            if total > 9223372036854775807u64 {
                proof {
                    assert(signed_pence(body, neg) is None);
                }
                return None;
            }
        },
    }
    let magnitude = total as i64;
    let pence: i64 = if neg {
        -magnitude
    } else {
        magnitude
    };
    proof {
        assert(signed_pence(body, neg) == Some(pence as int));
    }
    Some(Amount { pence })
}

} // verus!
