//! Numerals: the textual number fields of the geometry format.
//!
//! Face corners reference positions by unsigned decimal numerals; the
//! coordinate fields of `v`, `vt` and `vn` lines are decimal numerals with
//! an optional sign, fraction and exponent.  The library validates both
//! shapes and evaluates index numerals; turning a coordinate numeral into
//! a machine float is left to the unverified shell.

use vstd::prelude::*;

verus! {

/// Is `b` the code of a decimal digit?
pub open spec fn is_digit(b: u8) -> bool {
    48 <= b <= 57
}

/// Every byte of `s` is a digit.
pub open spec fn all_digits(s: Seq<u8>) -> bool {
    forall|k: int| 0 <= k < s.len() ==> is_digit(s[k])
}

/// The value of the digit string `s` read as a decimal number.
pub open spec fn dec_val(s: Seq<u8>) -> int
    decreases s.len(),
{
    if s.len() == 0 {
        0
    } else {
        dec_val(s.drop_last()) * 10 + (s.last() - 48)
    }
}

/// A well-formed face index numeral: at least one digit, digits only, and
/// small enough for the index type.
pub open spec fn is_index_numeral(s: Seq<u8>) -> bool {
    s.len() >= 1 && all_digits(s) && dec_val(s) <= u32::MAX
}

proof fn lemma_dec_val_nonneg(s: Seq<u8>)
    requires
        all_digits(s),
    ensures
        dec_val(s) >= 0,
    decreases s.len(),
{
    if s.len() > 0 {
        assert(forall|k: int| 0 <= k < s.len() - 1 ==> s.drop_last()[k] == s[k]);
        lemma_dec_val_nonneg(s.drop_last());
    }
}

/// Reading more digits never makes the value smaller.
proof fn lemma_dec_val_monotonic(s: Seq<u8>, i: int, j: int)
    requires
        all_digits(s),
        0 <= i <= j <= s.len(),
    ensures
        dec_val(s.take(i)) <= dec_val(s.take(j)),
    decreases j - i,
{
    if i < j {
        lemma_dec_val_monotonic(s, i, j - 1);
        assert(s.take(j).drop_last() =~= s.take(j - 1));
        assert(forall|k: int| 0 <= k < j - 1 ==> s.take(j - 1)[k] == s[k]);
        lemma_dec_val_nonneg(s.take(j - 1));
        assert(dec_val(s.take(j)) == dec_val(s.take(j - 1)) * 10 + (s[j - 1] - 48));
    }
}

/// Evaluate the first `end` bytes of `t` as a face index numeral.
/// Returns its value exactly when that prefix is a well-formed index
/// numeral.
pub fn parse_index_prefix(t: &Vec<u8>, end: usize) -> (r: Option<u32>)
    requires
        end <= t@.len(),
    ensures
        match r {
            Some(v) => is_index_numeral(t@.take(end as int)) && v == dec_val(t@.take(end as int)),
            None => !is_index_numeral(t@.take(end as int)),
        },
{
    let ghost p = t@.take(end as int);
    if end == 0 {
        return None;
    }
    let mut val: u64 = 0;
    let mut i: usize = 0;
    while i < end
        invariant
            i <= end <= t@.len(),
            p == t@.take(end as int),
            all_digits(p.take(i as int)),
            val == dec_val(p.take(i as int)),
            val <= u32::MAX,
        decreases end - i,
    {
        let b: u8 = t[i];
        proof {
            assert(p[i as int] == t@[i as int]);
        }
        if !(48 <= b && b <= 57) {
            assert(!all_digits(p)) by {
                assert(!is_digit(p[i as int]));
            }
            return None;
        }
        proof {
            assert(p.take(i as int + 1).drop_last() =~= p.take(i as int));
        }
        val = val * 10 + ((b - 48) as u64);
        i = i + 1;
        if val > u32::MAX as u64 {
            proof {
                if all_digits(p) {
                    lemma_dec_val_monotonic(p, i as int, p.len() as int);
                    assert(p.take(p.len() as int) =~= p);
                }
            }
            return None;
        }
    }
    proof {
        assert(p.take(end as int) =~= p);
    }
    Some(val as u32)
}

/// Is `b` a decimal point?
pub open spec fn is_dot(b: u8) -> bool {
    b == 46
}

/// How many decimal points `s` holds.
pub open spec fn count_dots(s: Seq<u8>) -> int
    decreases s.len(),
{
    if s.len() == 0 {
        0
    } else {
        count_dots(s.drop_last()) + if is_dot(s.last()) {
            1int
        } else {
            0int
        }
    }
}

/// `s` holds at least one digit.
pub open spec fn has_digit(s: Seq<u8>) -> bool {
    exists|k: int| 0 <= k < s.len() && is_digit(s[k])
}

/// The significand of a coordinate numeral: digits with at most one
/// decimal point among them, and at least one digit.
pub open spec fn is_mantissa(s: Seq<u8>) -> bool {
    &&& forall|k: int| 0 <= k < s.len() ==> is_digit(s[k]) || is_dot(s[k])
    &&& count_dots(s) <= 1
    &&& has_digit(s)
}

/// `s` without a single leading plus or minus sign.
pub open spec fn strip_sign(s: Seq<u8>) -> Seq<u8> {
    if s.len() > 0 && (s[0] == 43 || s[0] == 45) {
        s.drop_first()
    } else {
        s
    }
}

/// Does `b` introduce an exponent?
pub open spec fn is_exp_marker(b: u8) -> bool {
    b == 101 || b == 69
}

/// What may follow an exponent marker: an optional sign and then digits.
pub open spec fn is_exp_tail(s: Seq<u8>) -> bool {
    strip_sign(s).len() >= 1 && all_digits(strip_sign(s))
}

/// A well-formed coordinate numeral: an optional sign, a significand, and
/// an optional exponent part.
pub open spec fn is_coord_numeral(s: Seq<u8>) -> bool {
    let u = strip_sign(s);
    ||| is_mantissa(u)
    ||| exists|i: int|
        0 <= i < u.len() && is_exp_marker(u[i]) && is_mantissa(u.take(i)) && is_exp_tail(
            u.skip(i + 1),
        )
}

/// Check the range `[lo, hi)` of `t` for the significand shape.
fn check_mantissa_range(t: &Vec<u8>, lo: usize, hi: usize) -> (r: bool)
    requires
        lo <= hi <= t@.len(),
    ensures
        r == is_mantissa(t@.subrange(lo as int, hi as int)),
{
    let ghost s = t@.subrange(lo as int, hi as int);
    let mut dots: u64 = 0;
    let mut saw_digit = false;
    let mut i: usize = lo;
    while i < hi
        invariant
            lo <= i <= hi <= t@.len(),
            s == t@.subrange(lo as int, hi as int),
            dots == count_dots(s.take(i - lo)),
            dots <= i - lo,
            saw_digit == has_digit(s.take(i - lo)),
            forall|k: int| 0 <= k < i - lo ==> is_digit(s[k]) || is_dot(s[k]),
        decreases hi - i,
    {
        let b: u8 = t[i];
        proof {
            assert(s[i - lo] == t@[i as int]);
            assert(s.take(i - lo + 1).drop_last() =~= s.take(i - lo));
            assert(forall|k: int|
                0 <= k < i - lo ==> #[trigger] s.take(i - lo + 1)[k] == s.take(i - lo)[k]);
        }
        if 48 <= b && b <= 57 {
            proof {
                assert(has_digit(s.take(i - lo + 1))) by {
                    assert(is_digit(s.take(i - lo + 1)[i - lo]));
                }
            }
            saw_digit = true;
        } else if b == 46 {
            proof {
                if has_digit(s.take(i - lo + 1)) {
                    let k = choose|k: int|
                        0 <= k < i - lo + 1 && is_digit(#[trigger] s.take(i - lo + 1)[k]);
                    assert(k != i - lo);
                    assert(is_digit(s.take(i - lo)[k]));
                }
                if has_digit(s.take(i - lo)) {
                    let k = choose|k: int| 0 <= k < i - lo && is_digit(#[trigger] s.take(i - lo)[k]);
                    assert(is_digit(s.take(i - lo + 1)[k]));
                }
            }
            dots = dots + 1;
        } else {
            assert(!is_mantissa(s)) by {
                assert(!(is_digit(s[i - lo]) || is_dot(s[i - lo])));
            }
            return false;
        }
        i = i + 1;
    }
    proof {
        assert(s.take(hi - lo) =~= s);
    }
    dots <= 1 && saw_digit
}

/// Check the range `[lo, hi)` of `t` for the exponent-tail shape.
fn check_exp_tail_range(t: &Vec<u8>, lo: usize, hi: usize) -> (r: bool)
    requires
        lo <= hi <= t@.len(),
    ensures
        r == is_exp_tail(t@.subrange(lo as int, hi as int)),
{
    let ghost s = t@.subrange(lo as int, hi as int);
    let start: usize = if lo < hi && (t[lo] == 43 || t[lo] == 45) {
        lo + 1
    } else {
        lo
    };
    let ghost d = strip_sign(s);
    proof {
        if lo < hi {
            assert(s[0] == t@[lo as int]);
        }
        assert(d =~= t@.subrange(start as int, hi as int));
    }
    if start == hi {
        return false;
    }
    let mut i: usize = start;
    while i < hi
        invariant
            start <= i <= hi <= t@.len(),
            d == t@.subrange(start as int, hi as int),
            d == strip_sign(t@.subrange(lo as int, hi as int)),
            lo <= start,
            forall|k: int| 0 <= k < i - start ==> is_digit(d[k]),
        decreases hi - i,
    {
        let b: u8 = t[i];
        proof {
            assert(d[i - start] == t@[i as int]);
        }
        if !(48 <= b && b <= 57) {
            assert(!all_digits(d)) by {
                assert(!is_digit(d[i - start]));
            }
            return false;
        }
        i = i + 1;
    }
    true
}

/// Check whether the whole of `t` is a well-formed coordinate numeral.
pub fn check_coord_numeral(t: &Vec<u8>) -> (r: bool)
    ensures
        r == is_coord_numeral(t@),
{
    let n: usize = t.len();
    let start: usize = if n > 0 && (t[0] == 43 || t[0] == 45) {
        1
    } else {
        0
    };
    let ghost u = strip_sign(t@);
    proof {
        assert(u =~= t@.subrange(start as int, n as int));
    }
    // Find the first exponent marker, if any.
    let mut j: usize = start;
    while j < n && t[j] != 101 && t[j] != 69
        invariant
            start <= j <= n == t@.len(),
            u == t@.subrange(start as int, n as int),
            forall|k: int| 0 <= k < j - start ==> !is_exp_marker(u[k]),
        decreases n - j,
    {
        proof {
            assert(u[j - start] == t@[j as int]);
        }
        j = j + 1;
    }
    let marker: usize = j;
    if marker == n {
        // No exponent marker anywhere: only the plain significand shape
        // can apply.
        let r = check_mantissa_range(t, start, n);
        proof {
            if !r {
                assert forall|i: int| 0 <= i < u.len() implies !(is_exp_marker(u[i])
                    && is_mantissa(u.take(i)) && is_exp_tail(u.skip(i + 1))) by {
                    assert(!is_exp_marker(u[i]));
                }
            }
        }
        r
    } else {
        // The marker is the only place an exponent split can happen; check
        // the significand and the exponent tail around it.
        let ghost mi = marker - start;
        proof {
            assert(u[mi] == t@[marker as int]);
            assert(u.take(mi) =~= t@.subrange(start as int, marker as int));
            assert(u.skip(mi + 1) =~= t@.subrange(marker as int + 1, n as int));
        }
        let front = check_mantissa_range(t, start, marker);
        let back = check_exp_tail_range(t, marker + 1, n);
        let r = front && back;
        proof {
            if r {
                assert(0 <= mi < u.len() && is_exp_marker(u[mi]) && is_mantissa(u.take(mi))
                    && is_exp_tail(u.skip(mi + 1)));
            } else {
                // No other split index can work: before the marker there is
                // no exponent marker, and any later split would keep the
                // marker inside its significand.
                assert forall|i: int| 0 <= i < u.len() implies !(is_exp_marker(u[i])
                    && is_mantissa(u.take(i)) && is_exp_tail(u.skip(i + 1))) by {
                    if i < mi {
                        assert(!is_exp_marker(u[i]));
                    } else if i > mi {
                        assert(!is_mantissa(u.take(i))) by {
                            assert(u.take(i)[mi] == u[mi]);
                            assert(!(is_digit(u[mi]) || is_dot(u[mi])));
                        }
                    }
                }
                assert(!is_mantissa(u)) by {
                    assert(!(is_digit(u[mi]) || is_dot(u[mi])));
                }
            }
        }
        r
    }
}

} // verus!
