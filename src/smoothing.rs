//! The outlier filter: a z-score judgment of the newest raw frequency
//! against the other present entries of a short trailing window.
//!
//! Frequencies are whole millihertz. With `n` values to judge against,
//! `s` their sum and `q` the sum of their squares, the mean is `s / n` and the
//! Bessel-corrected variance is `(n*q - s*s) / (n * (n - 1))`. A value `v` is
//! more than `Z_SCORE_LIMIT` standard deviations above the mean exactly when
//! the variance is positive, `n*v > s`, and
//! `(n*v - s)^2 * (n - 1) > Z_SCORE_LIMIT^2 * n * (n*q - s*s)`,
//! which is how the judgment is computed here, in integers and without
//! rounding. A zero variance never rejects.
use vstd::prelude::*;

verus! {

/// Number of most recent raw entries that the filter looks at.
pub const SMOOTHING_WINDOW: usize = 5;

/// The filter judges only when more than this many entries of the window are
/// present.
pub const MIN_PRESENT: usize = 3;

/// A value more than this many standard deviations above the mean is dropped.
pub const Z_SCORE_LIMIT: u128 = 2;

/// The present values of `s`, in order.
pub open spec fn present_values(s: Seq<Option<u32>>) -> Seq<u32>
    decreases s.len(),
{
    if s.len() == 0 {
        Seq::empty()
    } else {
        let rest = present_values(s.drop_last());
        match s.last() {
            Some(v) => rest.push(v),
            None => rest,
        }
    }
}

pub open spec fn sum(s: Seq<u32>) -> int
    decreases s.len(),
{
    if s.len() == 0 {
        0
    } else {
        sum(s.drop_last()) + s.last()
    }
}

pub open spec fn sum_of_squares(s: Seq<u32>) -> int
    decreases s.len(),
{
    if s.len() == 0 {
        0
    } else {
        sum_of_squares(s.drop_last()) + s.last() * s.last()
    }
}

/// `v` lies more than `Z_SCORE_LIMIT` sample standard deviations above the
/// mean of `xs` (see the module documentation for the integer form).
pub open spec fn is_outlier(v: u32, xs: Seq<u32>) -> bool {
    let n = xs.len() as int;
    let s = sum(xs);
    let q = sum_of_squares(xs);
    let d = n * v - s;
    let z = Z_SCORE_LIMIT as int;
    &&& n * q > s * s
    &&& d > 0
    &&& d * d * (n - 1) > z * z * n * (n * q - s * s)
}

/// What the filter makes of the newest entry of `window`: absent when it is
/// absent, or when more than `MIN_PRESENT` entries of the window are present
/// and it is an outlier among the other present entries; otherwise the newest
/// entry as it is.
pub open spec fn judged(window: Seq<Option<u32>>) -> Option<u32> {
    match window.last() {
        Some(v) => if present_values(window).len() > MIN_PRESENT && is_outlier(
            v,
            present_values(window.drop_last()),
        ) {
            None
        } else {
            Some(v)
        },
        None => None,
    }
}

proof fn lemma_bounds(n: u128, s: u128, q: u128, v: u128)
    requires
        n <= 5,
        s <= n * 4294967295,
        q <= n * 18446744065119617025,
        v <= 4294967295,
    ensures
        n * q <= 25 * 18446744065119617025,
        s * s <= 25 * 18446744065119617025,
        n * v <= 5 * 4294967295,
{
    assert(n * q <= 25 * 18446744065119617025) by (nonlinear_arith)
        requires
            n <= 5,
            q <= n * 18446744065119617025,
    ;
    assert(s * s <= 25 * 18446744065119617025) by (nonlinear_arith)
        requires
            n <= 5,
            s <= n * 4294967295,
    ;
    assert(n * v <= 5 * 4294967295) by (nonlinear_arith)
        requires
            n <= 5,
            v <= 4294967295,
    ;
}

/// Whether `v` lies more than `Z_SCORE_LIMIT` sample standard deviations
/// above the mean of `xs`; never when their variance is zero.
pub fn exceeds_z_limit(v: u32, xs: &[u32]) -> (r: bool)
    requires
        xs@.len() <= SMOOTHING_WINDOW,
    ensures
        r == is_outlier(v, xs@),
{
    let len = xs.len();
    let mut n: u128 = 0;
    let mut s: u128 = 0;
    let mut q: u128 = 0;
    while n < len as u128
        invariant
            len == xs@.len(),
            len <= 5,
            n <= len,
            s == sum(xs@.subrange(0, n as int)),
            q == sum_of_squares(xs@.subrange(0, n as int)),
            s <= n * 4294967295,
            q <= n * 18446744065119617025,
        decreases len - n,
    {
        let w = xs[n as usize] as u128;
        proof {
            assert(xs@.subrange(0, n + 1).drop_last() =~= xs@.subrange(0, n as int));
            assert(w * w <= 18446744065119617025) by (nonlinear_arith)
                requires
                    w <= 4294967295,
            ;
        }
        s = s + w;
        q = q + w * w;
        n = n + 1;
    }
    proof {
        assert(xs@.subrange(0, len as int) =~= xs@);
        lemma_bounds(n, s, q, v as u128);
    }
    if n * q <= s * s {
        return false;
    }
    let nv = n * (v as u128);
    if nv <= s {
        return false;
    }
    let d = nv - s;
    let spread = n * q - s * s;
    proof {
        assert(d * d <= 25 * 18446744065119617025) by (nonlinear_arith)
            requires
                d <= 5 * 4294967295,
        ;
        assert(d * d * (n - 1) <= 100 * 18446744065119617025) by (nonlinear_arith)
            requires
                d * d <= 25 * 18446744065119617025,
                1 <= n <= 5,
        ;
        assert(Z_SCORE_LIMIT * Z_SCORE_LIMIT * n * spread <= 500 * 18446744065119617025)
            by (nonlinear_arith)
            requires
                spread <= 25 * 18446744065119617025,
                n <= 5,
                Z_SCORE_LIMIT == 2,
        ;
    }
    d * d * (n - 1) > Z_SCORE_LIMIT * Z_SCORE_LIMIT * n * spread
}

/// Judges the newest entry of a trailing window of raw frequencies: it comes
/// back unchanged unless more than `MIN_PRESENT` entries of the window are
/// present and it lies more than `Z_SCORE_LIMIT` sample standard deviations
/// above the mean of the other present entries, in which case it comes back
/// absent.
pub fn judge_window(window: &[Option<u32>]) -> (r: Option<u32>)
    requires
        1 <= window@.len() <= SMOOTHING_WINDOW,
    ensures
        r == judged(window@),
        present_values(window@).len() <= MIN_PRESENT ==> r == window@.last(),
{
    let last = window.len() - 1;
    let mut others: Vec<u32> = Vec::new();
    let mut i: usize = 0;
    while i < last
        invariant
            last + 1 == window@.len(),
            last < 5,
            0 <= i <= last,
            others@ == present_values(window@.subrange(0, i as int)),
            others@.len() <= i,
        decreases last - i,
    {
        proof {
            assert(window@.subrange(0, i + 1).drop_last() =~= window@.subrange(0, i as int));
        }
        match window[i] {
            Some(v) => {
                others.push(v);
            },
            None => {},
        }
        i = i + 1;
    }
    proof {
        assert(window@.subrange(0, last as int) =~= window@.drop_last());
    }
    match window[last] {
        None => None,
        Some(v) => {
            if others.len() >= MIN_PRESENT && exceeds_z_limit(v, others.as_slice()) {
                None
            } else {
                Some(v)
            }
        },
    }
}

} // verus!
