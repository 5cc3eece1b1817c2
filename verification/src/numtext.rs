//! Recognisers for the numeric text that the standard library's `parse`
//! accepts: decimal integers within the range of `i64` or `u64`, and the
//! decimal floating-point grammar of `f64`.

use vstd::prelude::*;

use crate::text;

verus! {

/// An ASCII decimal digit.
pub open spec fn is_digit(c: char) -> bool {
    '0' <= c && c <= '9'
}

/// Every character of `s` is a digit.
pub open spec fn all_digits(s: Seq<char>) -> bool {
    forall|i: int| 0 <= i < s.len() ==> is_digit(#[trigger] s[i])
}

/// `s` is a non-empty run of digits.
pub open spec fn is_digits(s: Seq<char>) -> bool {
    s.len() > 0 && all_digits(s)
}

/// The value of the decimal numeral `s`.
pub open spec fn digits_value(s: Seq<char>) -> nat
    decreases s.len(),
{
    if s.len() == 0 {
        0
    } else {
        digits_value(s.drop_last()) * 10 + ((s.last() as int) - 48) as nat
    }
}

/// Text that `str::parse::<i64>` accepts: an optional sign, then digits whose
/// value lies in the range of `i64`.
pub open spec fn is_i64_text(s: Seq<char>) -> bool {
    if s.len() > 0 && s[0] == '-' {
        is_digits(s.drop_first()) && digits_value(s.drop_first()) <= 9223372036854775808
    } else if s.len() > 0 && s[0] == '+' {
        is_digits(s.drop_first()) && digits_value(s.drop_first()) <= 9223372036854775807
    } else {
        is_digits(s) && digits_value(s) <= 9223372036854775807
    }
}

/// Text that `str::parse::<u64>` accepts: an optional `+`, then digits whose
/// value lies in the range of `u64`.
pub open spec fn is_u64_text(s: Seq<char>) -> bool {
    if s.len() > 0 && s[0] == '+' {
        is_digits(s.drop_first()) && digits_value(s.drop_first()) <= 18446744073709551615
    } else {
        is_digits(s) && digits_value(s) <= 18446744073709551615
    }
}

/// Digits with at most one `.` and at least one digit.
pub open spec fn is_mantissa(m: Seq<char>) -> bool {
    ||| is_digits(m)
    ||| exists|j: int|
        0 <= j < m.len() && m[j] == '.' && all_digits(m.take(j)) && all_digits(m.skip(j + 1))
            && m.len() >= 2
}

/// The part after `e` of an exponent: an optional sign, then digits.
pub open spec fn is_exponent(x: Seq<char>) -> bool {
    ||| is_digits(x)
    ||| x.len() > 0 && (x[0] == '+' || x[0] == '-') && is_digits(x.drop_first())
}

/// A mantissa, optionally followed by `e` and an exponent.
pub open spec fn is_decimal(b: Seq<char>) -> bool {
    ||| is_mantissa(b)
    ||| exists|k: int|
        0 <= k < b.len() && b[k] == 'e' && is_mantissa(b.take(k)) && is_exponent(b.skip(k + 1))
}

/// `t` without a leading sign.
pub open spec fn unsigned_part(t: Seq<char>) -> Seq<char> {
    if t.len() > 0 && (t[0] == '+' || t[0] == '-') {
        t.drop_first()
    } else {
        t
    }
}

/// Text that `str::parse::<f64>` accepts: ignoring ASCII case, an optional
/// sign followed by `inf`, `infinity`, `nan` or a decimal number.
pub open spec fn is_float_text(s: Seq<char>) -> bool {
    let b = unsigned_part(text::ascii_lower(s));
    b == "inf"@ || b == "infinity"@ || b == "nan"@ || is_decimal(b)
}

proof fn lemma_digits_value_prefix(s: Seq<char>, i: int)
    requires
        all_digits(s),
        0 <= i <= s.len(),
    ensures
        digits_value(s.take(i)) <= digits_value(s),
    decreases s.len(),
{
    if i < s.len() {
        let p = s.drop_last();
        assert(all_digits(p)) by {
            assert forall|k: int| 0 <= k < p.len() implies is_digit(#[trigger] p[k]) by {
                assert(p[k] == s[k]);
            }
        }
        lemma_digits_value_prefix(p, i);
        assert(p.take(i) == s.take(i));
    } else {
        assert(s.take(i) == s);
    }
}

/// Whether `v[lo..hi]` holds only digits.
fn all_digits_in(v: &Vec<char>, lo: usize, hi: usize) -> (r: bool)
    requires
        lo <= hi <= v.len(),
    ensures
        r == all_digits(v@.subrange(lo as int, hi as int)),
{
    let ghost s = v@.subrange(lo as int, hi as int);
    let mut i = lo;
    while i < hi
        invariant
            lo <= i <= hi <= v.len(),
            s == v@.subrange(lo as int, hi as int),
            forall|k: int| 0 <= k < i - lo ==> is_digit(#[trigger] s[k]),
        decreases hi - i,
    {
        if !('0' <= v[i] && v[i] <= '9') {
            assert(s[i - lo] == v@[i as int]);
            return false;
        }
        assert(s[i - lo] == v@[i as int]);
        i = i + 1;
    }
    true
}

/// Whether `v[lo..hi]` is a numeral of value at most `limit`.
fn digits_within(v: &Vec<char>, lo: usize, hi: usize, limit: u64) -> (r: bool)
    requires
        lo <= hi <= v.len(),
        limit >= 9,
    ensures
        r == (is_digits(v@.subrange(lo as int, hi as int)) && digits_value(
            v@.subrange(lo as int, hi as int),
        ) <= limit),
{
    let ghost s = v@.subrange(lo as int, hi as int);
    if lo == hi || !all_digits_in(v, lo, hi) {
        return false;
    }
    let mut acc: u64 = 0;
    let mut i = lo;
    while i < hi
        invariant
            lo <= i <= hi <= v.len(),
            limit >= 9,
            s == v@.subrange(lo as int, hi as int),
            all_digits(s),
            acc == digits_value(s.take(i - lo)),
            acc <= limit,
        decreases hi - i,
    {
        let c = v[i];
        assert(c == s[i - lo]);
        assert(is_digit(s[i - lo]));
        let d = (c as u32 - 48) as u64;
        let ghost t = s.take(i - lo + 1);
        assert(t.drop_last() == s.take(i - lo));
        assert(t.last() == c);
        if acc > (limit - d) / 10 {
            proof {
                assert(acc * 10 + d > limit) by (nonlinear_arith)
                    requires
                        acc > (limit - d) / 10,
                        d <= 9,
                        limit >= 9,
                ;
                lemma_digits_value_prefix(s, i - lo + 1);
            }
            return false;
        }
        assert(acc * 10 + d <= limit) by (nonlinear_arith)
            requires
                acc <= (limit - d) / 10,
                d <= 9,
                limit >= 9,
        ;
        acc = acc * 10 + d;
        i = i + 1;
    }
    assert(s.take(hi - lo) == s);
    true
}

/// Whether `v[lo..hi]` is a mantissa.
fn mantissa_in(v: &Vec<char>, lo: usize, hi: usize) -> (r: bool)
    requires
        lo <= hi <= v.len(),
    ensures
        r == is_mantissa(v@.subrange(lo as int, hi as int)),
{
    let ghost m = v@.subrange(lo as int, hi as int);
    let mut dot: Option<usize> = None;
    let mut i = lo;
    while i < hi
        invariant
            lo <= i <= hi <= v.len(),
            m == v@.subrange(lo as int, hi as int),
            match dot {
                None => forall|k: int| 0 <= k < i - lo ==> is_digit(#[trigger] m[k]),
                Some(q) => lo <= q < i && m[q - lo] == '.' && forall|k: int|
                    0 <= k < i - lo && k != q - lo ==> is_digit(#[trigger] m[k]),
            },
        decreases hi - i,
    {
        let c = v[i];
        assert(m[i - lo] == c);
        if c == '.' {
            if dot.is_some() {
                let q = dot.unwrap();
                proof {
                    assert(!is_digits(m));
                    assert forall|j: int|
                        0 <= j < m.len() && m[j] == '.' implies !(all_digits(m.take(j))
                        && all_digits(m.skip(j + 1))) by {
                        if j < q - lo {
                            assert(m.skip(j + 1)[q - lo - j - 1] == m[q - lo]);
                        } else if j > q - lo {
                            assert(m.take(j)[q - lo] == m[q - lo]);
                        } else {
                            assert(m.skip(j + 1)[i - lo - j - 1] == m[i - lo]);
                        }
                    }
                }
                return false;
            }
            dot = Some(i);
        } else if !('0' <= c && c <= '9') {
            proof {
                assert(!is_digit(m[i - lo]));
                assert(!is_digits(m));
                assert forall|j: int|
                    0 <= j < m.len() && m[j] == '.' implies !(all_digits(m.take(j)) && all_digits(
                    m.skip(j + 1),
                )) by {
                    if j < i - lo {
                        assert(m.skip(j + 1)[i - lo - j - 1] == m[i - lo]);
                    } else {
                        assert(m.take(j)[i - lo] == m[i - lo]);
                    }
                }
            }
            return false;
        }
        i = i + 1;
    }
    match dot {
        None => {
            if hi == lo {
                assert(!is_digits(m));
                assert(m.len() == 0);
                return false;
            }
            assert(is_digits(m));
            true
        },
        Some(q) => {
            let ghost j = (q - lo) as int;
            proof {
                assert(!is_digits(m)) by {
                    assert(!is_digit(m[j]));
                }
                assert(all_digits(m.take(j))) by {
                    assert forall|k: int| 0 <= k < m.take(j).len() implies is_digit(
                        #[trigger] m.take(j)[k],
                    ) by {
                        assert(m.take(j)[k] == m[k]);
                    }
                }
                assert(all_digits(m.skip(j + 1))) by {
                    assert forall|k: int| 0 <= k < m.skip(j + 1).len() implies is_digit(
                        #[trigger] m.skip(j + 1)[k],
                    ) by {
                        assert(m.skip(j + 1)[k] == m[j + 1 + k]);
                    }
                }
                if m.len() < 2 {
                    assert forall|jj: int|
                        !(0 <= jj < m.len() && m[jj] == '.' && all_digits(m.take(jj)) && all_digits(
                            m.skip(jj + 1),
                        ) && m.len() >= 2) by {}
                }
            }
            hi - lo >= 2
        },
    }
}

/// Whether `v[lo..hi]` is an exponent (what follows the `e`).
fn exponent_in(v: &Vec<char>, lo: usize, hi: usize) -> (r: bool)
    requires
        lo <= hi <= v.len(),
    ensures
        r == is_exponent(v@.subrange(lo as int, hi as int)),
{
    let ghost x = v@.subrange(lo as int, hi as int);
    if lo < hi && (v[lo] == '+' || v[lo] == '-') {
        assert(x[0] == v@[lo as int]);
        assert(x.drop_first() == v@.subrange(lo + 1, hi as int));
        assert(!is_digit(x[0]));
        lo + 1 < hi && all_digits_in(v, lo + 1, hi)
    } else {
        if lo < hi {
            assert(x[0] == v@[lo as int]);
        }
        lo < hi && all_digits_in(v, lo, hi)
    }
}

/// Whether `v[lo..hi]` is a decimal number.
fn decimal_in(v: &Vec<char>, lo: usize, hi: usize) -> (r: bool)
    requires
        lo <= hi <= v.len(),
    ensures
        r == is_decimal(v@.subrange(lo as int, hi as int)),
{
    let ghost b = v@.subrange(lo as int, hi as int);
    let mut k = lo;
    while k < hi && v[k] != 'e'
        invariant
            lo <= k <= hi <= v.len(),
            b == v@.subrange(lo as int, hi as int),
            forall|j: int| 0 <= j < k - lo ==> #[trigger] b[j] != 'e',
        decreases hi - k,
    {
        assert(b[k - lo] == v@[k as int]);
        k = k + 1;
    }
    if k == hi {
        assert(forall|j: int| 0 <= j < b.len() ==> !(#[trigger] b[j] == 'e'));
        return mantissa_in(v, lo, hi);
    }
    let ghost k0 = k - lo;
    assert(b[k0] == 'e');
    assert(b.take(k0) == v@.subrange(lo as int, k as int));
    assert(b.skip(k0 + 1) == v@.subrange(k + 1, hi as int));
    proof {
        // A mantissa holds no `e`, so `b` is none and any exponent split is at the first `e`.
        assert(!is_mantissa(b)) by {
            assert(!is_digit(b[k0]));
            assert forall|j: int|
                0 <= j < b.len() && b[j] == '.' implies !(all_digits(b.take(j)) && all_digits(
                b.skip(j + 1),
            )) by {
                if k0 < j {
                    assert(b.take(j)[k0] == b[k0]);
                } else {
                    assert(b.skip(j + 1)[k0 - j - 1] == b[k0]);
                }
            }
        }
        assert forall|j: int| 0 <= j < b.len() && b[j] == 'e' && j != k0 implies !is_mantissa(
            b.take(j),
        ) by {
            assert(j > k0);
            let t = b.take(j);
            assert(t[k0] == 'e');
            assert(!is_digit(t[k0]));
            assert forall|jj: int|
                0 <= jj < t.len() && t[jj] == '.' implies !(all_digits(t.take(jj)) && all_digits(
                t.skip(jj + 1),
            )) by {
                if k0 < jj {
                    assert(t.take(jj)[k0] == t[k0]);
                } else {
                    assert(t.skip(jj + 1)[k0 - jj - 1] == t[k0]);
                }
            }
        }
    }
    mantissa_in(v, lo, k) && exponent_in(v, k + 1, hi)
}

/// Whether `s` parses as an `i64`.
pub fn i64_text(s: &Vec<char>) -> (r: bool)
    ensures
        r == is_i64_text(s@),
{
    let n = s.len();
    assert(s@.subrange(0, n as int) == s@);
    if n > 0 && s[0] == '-' {
        assert(s@.drop_first() == s@.subrange(1, n as int));
        digits_within(s, 1, n, 9223372036854775808)
    } else if n > 0 && s[0] == '+' {
        assert(s@.drop_first() == s@.subrange(1, n as int));
        digits_within(s, 1, n, 9223372036854775807)
    } else {
        digits_within(s, 0, n, 9223372036854775807)
    }
}

/// Whether `s` parses as a `u64`.
pub fn u64_text(s: &Vec<char>) -> (r: bool)
    ensures
        r == is_u64_text(s@),
{
    let n = s.len();
    assert(s@.subrange(0, n as int) == s@);
    if n > 0 && s[0] == '+' {
        assert(s@.drop_first() == s@.subrange(1, n as int));
        digits_within(s, 1, n, 18446744073709551615)
    } else {
        digits_within(s, 0, n, 18446744073709551615)
    }
}

/// Whether `v[lo..hi]` spells `w`.
fn spells(v: &Vec<char>, lo: usize, hi: usize, w: &str) -> (r: bool)
    requires
        lo <= hi <= v.len(),
    ensures
        r == (v@.subrange(lo as int, hi as int) == w@),
{
    let wv = crate::text::chars_of(w);
    if hi - lo != wv.len() {
        return false;
    }
    let mut i: usize = 0;
    while i < wv.len()
        invariant
            i <= wv.len() == hi - lo,
            lo <= hi <= v.len(),
            wv@ == w@,
            forall|k: int| 0 <= k < i ==> v@[lo + k] == #[trigger] wv@[k],
        decreases wv.len() - i,
    {
        if v[lo + i] != wv[i] {
            assert(v@.subrange(lo as int, hi as int)[i as int] != w@[i as int]);
            return false;
        }
        i = i + 1;
    }
    assert(v@.subrange(lo as int, hi as int) == w@);
    true
}

/// Whether `s` parses as an `f64`.
pub fn float_text(s: &Vec<char>) -> (r: bool)
    ensures
        r == is_float_text(s@),
{
    let t = crate::text::ascii_lower_exec(s);
    let n = t.len();
    let lo: usize = if n > 0 && (t[0] == '+' || t[0] == '-') {
        1
    } else {
        0
    };
    assert(unsigned_part(t@) == t@.subrange(lo as int, n as int));
    spells(&t, lo, n, "inf") || spells(&t, lo, n, "infinity") || spells(&t, lo, n, "nan")
        || decimal_in(&t, lo, n)
}

} // verus!
