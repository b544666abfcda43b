//! AMDF pitch estimation: difference-signal accumulation, boundary-aware
//! local-minimum search, and period extraction.
//!
//! An AMDF magnitude is the average absolute difference between the signal
//! and a lagged copy of itself. Magnitudes are kept as exact rationals — the
//! accumulated sum together with the length of the overlapping window — so
//! that comparisons between lags are exact, with no rounding.

use vstd::prelude::*;

use crate::errors::AudioError;

verus! {

/// A pitch analyzer over one mono buffer of 16-bit samples.
pub struct Analyzer {
    pub data: Vec<i16>,
}

/// One AMDF magnitude, the exact rational `sum / window`.
#[derive(Clone, Copy, Debug, PartialEq, Eq, Structural)]
pub struct AmdfValue {
    /// Sum of the absolute sample differences over the overlapping window.
    pub sum: u64,
    /// Length of the overlapping window the sum was taken over; never zero
    /// in a series the analyzer builds.
    pub window: usize,
}

/// A candidate fundamental period: a local minimum of the AMDF series.
#[derive(Clone, Copy, Debug, PartialEq, Eq, Structural)]
pub struct Minimum {
    /// The lag at which the series dips.
    pub position: usize,
    /// The AMDF magnitude at that lag.
    pub value: AmdfValue,
}

/// `|a - b|` of two samples, as an unbounded integer.
pub open spec fn abs_diff(a: i16, b: i16) -> int {
    if a >= b {
        a - b
    } else {
        b - a
    }
}

/// Sum of `|s[n] - s[n + k]|` for `n` in `[0, m)`.
pub open spec fn amdf_sum(s: Seq<i16>, k: int, m: int) -> int
    decreases m,
{
    if m <= 0 {
        0
    } else {
        amdf_sum(s, k, m - 1) + abs_diff(s[m - 1], s[m - 1 + k])
    }
}

/// The AMDF series of a buffer of `N` samples: one entry per lag in
/// `[0, N-2]`, each the average difference over the window of `N - lag`
/// overlapping terms, kept unreduced as `(sum, window)`.
pub open spec fn spec_amdf_series(s: Seq<i16>) -> Seq<AmdfValue> {
    if s.len() == 0 {
        Seq::empty()
    } else {
        Seq::new(
            (s.len() - 1) as nat,
            |k: int|
                AmdfValue {
                    sum: amdf_sum(s, k, s.len() - k) as u64,
                    window: (s.len() - k) as usize,
                },
        )
    }
}

/// Exact order on AMDF magnitudes: `a.sum / a.window < b.sum / b.window`,
/// compared by cross multiplication.
pub open spec fn spec_amdf_lt(a: AmdfValue, b: AmdfValue) -> bool {
    a.sum * b.window < b.sum * a.window
}

/// Compares two AMDF magnitudes exactly.
pub fn amdf_lt(a: &AmdfValue, b: &AmdfValue) -> (r: bool)
    ensures
        r == spec_amdf_lt(*a, *b),
{
    proof {
        assert((a.sum as int) * (b.window as int) <= 0xffff_ffff_ffff_ffff * 0xffff_ffff_ffff_ffff
            && (b.sum as int) * (a.window as int) <= 0xffff_ffff_ffff_ffff
            * 0xffff_ffff_ffff_ffff) by (nonlinear_arith)
            requires
                a.sum <= 0xffff_ffff_ffff_ffff,
                b.sum <= 0xffff_ffff_ffff_ffff,
                a.window <= 0xffff_ffff_ffff_ffff,
                b.window <= 0xffff_ffff_ffff_ffff,
        ;
    }
    (a.sum as u128) * (b.window as u128) < (b.sum as u128) * (a.window as u128)
}

/// Lag `i` is a local minimum of the series: it lies strictly inside the
/// admissible range — never lag 0, never one of the last two lags — and dips
/// strictly below both neighbors. Flat regions yield no minimum.
pub open spec fn spec_is_minimum(series: Seq<AmdfValue>, i: int) -> bool {
    &&& 1 <= i
    &&& i + 3 <= series.len()
    &&& spec_amdf_lt(series[i], series[i - 1])
    &&& spec_amdf_lt(series[i], series[i + 1])
}

/// Some lag of the series is a local minimum.
pub open spec fn spec_has_minimum(series: Seq<AmdfValue>) -> bool {
    exists|i: int| spec_is_minimum(series, i)
}

/// Lag `i` is the first local minimum of the series.
pub open spec fn spec_is_first_minimum(series: Seq<AmdfValue>, i: int) -> bool {
    &&& spec_is_minimum(series, i)
    &&& forall|j: int| spec_is_minimum(series, j) ==> i <= j
}

impl Analyzer {
    /// Computes the AMDF series of the buffer: for each lag, the absolute
    /// differences between the signal and its lagged copy are summed over the
    /// overlapping window and averaged by the window length, kept exact as
    /// `(sum, window)`.
    pub fn amdf(&self) -> (r: Vec<AmdfValue>)
        requires
            self.data@.len() <= 0x1_0000_0000,
        ensures
            r@ == spec_amdf_series(self.data@),
    {
        let n = self.data.len();
        let mut amdf: Vec<AmdfValue> = Vec::new();
        if n == 0 {
            proof {
                assert(amdf@ =~= spec_amdf_series(self.data@));
            }
            return amdf;
        }
        for offset in 0..n - 1
            invariant
                n == self.data@.len(),
                1 <= n <= 0x1_0000_0000,
                amdf@.len() == offset,
                forall|k: int| 0 <= k < offset ==> amdf@[k] == spec_amdf_series(self.data@)[k],
        {
            let window = n - offset;
            let mut sum: u64 = 0;
            for i in 0..window
                invariant
                    n == self.data@.len(),
                    n <= 0x1_0000_0000,
                    offset < n,
                    window == n - offset,
                    sum == amdf_sum(self.data@, offset as int, i as int),
                    sum <= i * 65535,
            {
                let a = self.data[i];
                let b = self.data[i + offset];
                let d: i32 = a as i32 - b as i32;
                let ad: i32 = if d < 0 {
                    -d
                } else {
                    d
                };
                sum = sum + ad as u64;
            }
            amdf.push(AmdfValue { sum, window });
        }
        proof {
            assert(amdf@ =~= spec_amdf_series(self.data@));
        }
        amdf
    }
}

/// Finds every local minimum of an AMDF series, in order of ascending lag.
/// Lag 0 and the last two lags are structurally excluded from candidacy.
pub fn find_peaks(amdf: Vec<AmdfValue>) -> (r: Vec<Minimum>)
    ensures
        forall|j: int|
            0 <= j < r@.len() ==> {
                let m = #[trigger] r@[j];
                spec_is_minimum(amdf@, m.position as int) && m.value == amdf@[m.position as int]
            },
        forall|j1: int, j2: int|
            0 <= j1 < j2 < r@.len() ==> r@[j1].position < r@[j2].position,
        forall|i: int|
            #[trigger] spec_is_minimum(amdf@, i) ==> exists|j: int|
                0 <= j < r@.len() && r@[j].position == i,
{
    let mut local_minima: Vec<Minimum> = Vec::new();
    let len = amdf.len();
    if len < 4 {
        return local_minima;
    }
    for i in 1..len - 2
        invariant
            len == amdf@.len(),
            4 <= len,
            forall|j: int|
                0 <= j < local_minima@.len() ==> {
                    let m = #[trigger] local_minima@[j];
                    &&& spec_is_minimum(amdf@, m.position as int)
                    &&& m.value == amdf@[m.position as int]
                    &&& m.position < i
                },
            forall|j1: int, j2: int|
                0 <= j1 < j2 < local_minima@.len() ==> local_minima@[j1].position
                    < local_minima@[j2].position,
            forall|p: int|
                1 <= p < i && #[trigger] spec_is_minimum(amdf@, p) ==> exists|j: int|
                    0 <= j < local_minima@.len() && local_minima@[j].position == p,
    {
        let below_prev = amdf_lt(&amdf[i], &amdf[i - 1]);
        let below_next = amdf_lt(&amdf[i], &amdf[i + 1]);
        let ghost prev_minima = local_minima@;
        if below_prev && below_next {
            local_minima.push(Minimum { position: i, value: amdf[i] });
        }
        proof {
            assert forall|p: int|
                1 <= p < i + 1 && #[trigger] spec_is_minimum(amdf@, p) implies exists|j: int|
                0 <= j < local_minima@.len() && local_minima@[j].position == p by {
                if p == i {
                    assert(local_minima@[local_minima@.len() - 1].position == p);
                } else {
                    let j = choose|j: int|
                        0 <= j < prev_minima.len() && prev_minima[j].position == p;
                    assert(local_minima@[j].position == p);
                }
            }
        }
    }
    local_minima
}

/// The fundamental period: the lag of the first local minimum, the smallest
/// non-zero lag at which the difference signal re-converges. An empty minima
/// sequence means no discernible pitch, reported as `NoPeriodFound`, never as
/// a crash.
pub fn estimate_period(minima: &Vec<Minimum>) -> (r: Result<usize, AudioError>)
    ensures
        minima@.len() == 0 ==> r == Err::<usize, AudioError>(AudioError::NoPeriodFound),
        minima@.len() > 0 ==> r == Ok::<usize, AudioError>(minima@[0].position),
{
    if minima.len() == 0 {
        Err(AudioError::NoPeriodFound)
    } else {
        Ok(minima[0].position)
    }
}

impl Analyzer {
    /// Estimates the fundamental frequency of the buffer in millihertz:
    /// `sample_rate * 1000` divided (flooring) by the fundamental period in
    /// samples, the lag of the first AMDF local minimum. A buffer whose AMDF
    /// series has no local minimum — silence, noise, non-periodic input —
    /// yields `NoPeriodFound`.
    pub fn calc_freq(&self, sample_rate: u32) -> (r: Result<u64, AudioError>)
        requires
            self.data@.len() <= 0x1_0000_0000,
        ensures
            ({
                let series = spec_amdf_series(self.data@);
                match r {
                    Ok(f) => (exists|i: int|
                        #[trigger] spec_is_first_minimum(series, i) && f == sample_rate * 1000
                            / i) && forall|i: int|
                        #[trigger] spec_is_first_minimum(series, i) ==> f == sample_rate * 1000
                            / i,
                    Err(e) => e == AudioError::NoPeriodFound && !spec_has_minimum(series),
                }
            }),
    {
        let amdf_data = self.amdf();
        let ghost series = amdf_data@;
        let local_minima = find_peaks(amdf_data);
        let period = match estimate_period(&local_minima) {
            Ok(p) => p,
            Err(e) => {
                return Err(e);
            },
        };
        proof {
            assert(spec_is_minimum(series, local_minima@[0].position as int));
            assert forall|i: int| #[trigger] spec_is_minimum(series, i) implies period as int
                <= i by {
                let j = choose|j: int|
                    0 <= j < local_minima@.len() && local_minima@[j].position == i;
                if j > 0 {
                    assert(local_minima@[0].position < local_minima@[j].position);
                }
            }
            assert(spec_is_first_minimum(series, period as int));
        }
        let freq_millihz = sample_rate as u64 * 1000 / period as u64;
        Ok(freq_millihz)
    }
}

/// AMDF at lag zero sums self-differences only, so it is zero.
proof fn lemma_amdf_sum_zero_lag(s: Seq<i16>, m: int)
    ensures
        amdf_sum(s, 0, m) == 0,
    decreases m,
{
    if m > 0 {
        lemma_amdf_sum_zero_lag(s, m - 1);
    }
}

/// The AMDF of every buffer that has a lag-0 entry at all (two samples or
/// more; the series of an `N`-sample buffer has `N - 1` entries) is 0 at
/// lag 0: the signal does not differ from its unshifted self. Lag 0 is a
/// structural artifact, never a period candidate.
pub proof fn lemma_amdf_zero_lag(s: Seq<i16>)
    requires
        2 <= s.len() <= usize::MAX,
    ensures
        spec_amdf_series(s)[0].sum == 0,
        spec_amdf_series(s)[0].window == s.len(),
{
    lemma_amdf_sum_zero_lag(s, s.len() as int);
}

/// A local minimum never lies at lag 0 nor within the last two lags of the
/// series: those boundary lags lack the neighbor context for candidacy.
pub proof fn lemma_minimum_positions_guarded(series: Seq<AmdfValue>, i: int)
    requires
        spec_is_minimum(series, i),
    ensures
        1 <= i,
        i + 3 <= series.len(),
{
}

/// The series never falls from one lag to the next.
pub open spec fn spec_nondecreasing(series: Seq<AmdfValue>) -> bool {
    forall|i: int| #![trigger series[i]]
        0 <= i < series.len() - 1 ==> !spec_amdf_lt(series[i + 1], series[i])
}

/// The series never rises from one lag to the next.
pub open spec fn spec_nonincreasing(series: Seq<AmdfValue>) -> bool {
    forall|i: int| #![trigger series[i]]
        0 <= i < series.len() - 1 ==> !spec_amdf_lt(series[i], series[i + 1])
}

/// A monotone series — nondecreasing or nonincreasing; a constant series is
/// both — has no local minimum: peak picking over it yields the empty
/// sequence, and period estimation on that reports `NoPeriodFound`.
pub proof fn lemma_monotone_no_minima(series: Seq<AmdfValue>)
    requires
        spec_nondecreasing(series) || spec_nonincreasing(series),
    ensures
        !spec_has_minimum(series),
        forall|i: int| !spec_is_minimum(series, i),
{
    assert forall|i: int| !spec_is_minimum(series, i) by {
        if spec_is_minimum(series, i) {
            if spec_nondecreasing(series) {
                assert(!spec_amdf_lt(series[(i - 1) + 1], series[i - 1]));
            } else {
                assert(!spec_amdf_lt(series[i], series[i + 1]));
            }
        }
    }
}

} // verus!
