//! The pitch estimator's decision on one analysis window.
//!
//! The transform itself runs on floating-point values outside this library.
//! Its magnitudes come in here as keys: the IEEE-754 single-precision bit
//! pattern of each magnitude. For non-negative values, which magnitudes are,
//! the order of the bit patterns as unsigned integers is the order of the
//! values, so the strongest bin and the comparison with the threshold are
//! decided exactly on the keys. A key above `INFINITY_KEY` is a NaN (or has
//! its sign bit set) and ranks as a magnitude of zero: it is never the
//! strongest bin over a real peak and never exceeds the threshold.
use vstd::prelude::*;

verus! {

/// Sample rate the capture is configured for, in hertz.
pub const REFERENCE_SAMPLE_RATE: u32 = 384000;

/// The analysis window is this many sub-windows...
pub const SUB_WINDOWS: u32 = 20;

/// ...of one `SUB_WINDOW_DIVISOR`-th of a second each.
pub const SUB_WINDOW_DIVISOR: u32 = 50;

/// Key of the smallest magnitude that still counts as silence: the
/// single-precision bit pattern of 5.0.
pub const MAGNITUDE_THRESHOLD_KEY: u32 = 0x40A0_0000;

/// Bit pattern of single-precision positive infinity, the largest key that
/// stands for a non-negative magnitude.
pub const INFINITY_KEY: u32 = 0x7F80_0000;

/// Highest sample rate whose detected frequencies, in millihertz, fit a `u32`.
pub const MAX_SAMPLE_RATE: u32 = 8000000;

/// Samples in one analysis window at `sample_rate`.
pub open spec fn window_size_for(sample_rate: int) -> int {
    (sample_rate / SUB_WINDOW_DIVISOR as int) * SUB_WINDOWS as int
}

/// The frequency of spectral bin `bin` of a `window_size`-point transform of
/// audio sampled at `sample_rate` hertz, in millihertz, rounded down: `bin`
/// times the bin width `sample_rate / window_size`.
pub open spec fn frequency_mhz(bin: int, sample_rate: int, window_size: int) -> int {
    bin * sample_rate * 1000 / window_size
}

/// The order a key takes part in: its own value, or zero for a NaN.
pub open spec fn rank(key: u32) -> u32 {
    if key > INFINITY_KEY {
        0
    } else {
        key
    }
}

/// `i` is the first of the largest-ranked keys among the first `k`.
pub open spec fn is_strongest(keys: Seq<u32>, k: int, i: int) -> bool {
    &&& 0 <= i < k
    &&& forall|j: int| 0 <= j < k ==> rank(keys[j]) <= rank(keys[i])
    &&& forall|j: int| 0 <= j < i ==> rank(keys[j]) < rank(keys[i])
}

/// The pitch reported when bin `b` is the strongest: its frequency when its
/// rank is above `MAGNITUDE_THRESHOLD_KEY`, else none.
pub open spec fn pitch_at(keys: Seq<u32>, sample_rate: int, b: int) -> Option<u32> {
    if rank(keys[b]) > MAGNITUDE_THRESHOLD_KEY {
        Some(frequency_mhz(b, sample_rate, keys.len() as int) as u32)
    } else {
        None
    }
}

/// Number of samples in one analysis window at `sample_rate`.
pub fn analysis_window_size(sample_rate: u32) -> (n: usize)
    ensures
        n == window_size_for(sample_rate as int),
{
    let sub = sample_rate / SUB_WINDOW_DIVISOR;
    assert(sub <= 85899345);
    (sub * SUB_WINDOWS) as usize
}

/// The rank of `key`.
fn rank_of(key: u32) -> (r: u32)
    ensures
        r == rank(key),
{
    if key > INFINITY_KEY {
        0
    } else {
        key
    }
}

/// The first of the largest-ranked keys among the first `k`.
pub fn strongest_bin(keys: &[u32], k: usize) -> (i: usize)
    requires
        1 <= k <= keys@.len(),
    ensures
        is_strongest(keys@, k as int, i as int),
{
    let mut best: usize = 0;
    let mut j: usize = 1;
    while j < k
        invariant
            1 <= j <= k,
            k <= keys@.len(),
            is_strongest(keys@, j as int, best as int),
        decreases k - j,
    {
        if rank_of(keys[j]) > rank_of(keys[best]) {
            best = j;
        }
        j = j + 1;
    }
    best
}

proof fn lemma_frequency_fits(bin: int, sample_rate: int, window_size: int)
    requires
        0 <= bin,
        2 * bin < window_size,
        1 <= sample_rate <= MAX_SAMPLE_RATE,
    ensures
        0 <= frequency_mhz(bin, sample_rate, window_size) < 500 * sample_rate,
{
    let p = bin * sample_rate * 1000;
    assert(0 <= p) by (nonlinear_arith)
        requires
            0 <= bin,
            1 <= sample_rate,
            p == bin * sample_rate * 1000,
    ;
    assert(p < 500 * sample_rate * window_size) by (nonlinear_arith)
        requires
            2 * bin < window_size,
            1 <= sample_rate,
            p == bin * sample_rate * 1000,
    ;
    assert(p / window_size < 500 * sample_rate) by (nonlinear_arith)
        requires
            0 <= p < 500 * sample_rate * window_size,
            window_size > 0,
    ;
}

/// Frequency of bin `bin` in millihertz.
pub fn bin_frequency(bin: usize, sample_rate: u32, window_size: usize) -> (f: u32)
    requires
        2 * bin < window_size,
        1 <= sample_rate <= MAX_SAMPLE_RATE,
    ensures
        f == frequency_mhz(bin as int, sample_rate as int, window_size as int),
{
    proof {
        lemma_frequency_fits(bin as int, sample_rate as int, window_size as int);
        assert((bin as u128) * (sample_rate as u128) <= 0x1_0000_0000_0000_0000 * 0x1_0000_0000)
            by (nonlinear_arith)
            requires
                bin < 0x1_0000_0000_0000_0000,
                sample_rate < 0x1_0000_0000,
        ;
    }
    let p = (bin as u128) * (sample_rate as u128) * 1000;
    (p / (window_size as u128)) as u32
}

/// The pitch found in one analysis window, given the magnitude keys of its
/// full transform: the frequency of the strongest bin of the lower half of the
/// spectrum when its rank is above `MAGNITUDE_THRESHOLD_KEY`, else none.
pub fn detect_pitch(keys: &[u32], sample_rate: u32) -> (r: Option<u32>)
    requires
        keys@.len() >= 2,
        1 <= sample_rate <= MAX_SAMPLE_RATE,
    ensures
        r is None <==> forall|j: int|
            0 <= j < keys@.len() / 2 ==> rank(keys@[j]) <= MAGNITUDE_THRESHOLD_KEY,
        forall|b: int|
            is_strongest(keys@, (keys@.len() / 2) as int, b) ==> r == pitch_at(
                keys@,
                sample_rate as int,
                b,
            ),
{
    let half = keys.len() / 2;
    let b = strongest_bin(keys, half);
    if rank_of(keys[b]) > MAGNITUDE_THRESHOLD_KEY {
        Some(bin_frequency(b, sample_rate, keys.len()))
    } else {
        None
    }
}

} // verus!
