use std::collections::HashMap;
use vstd::prelude::*;
use crate::profile::{duration_nanos, Profile, ProfileError, ProfileStats};

verus! {

broadcast use vstd::std_specs::hash::group_hash_axioms;

/// Why a histogram could not be computed.
#[derive(Debug, Clone, Copy, PartialEq, Eq)]
pub enum HistogramError {
    /// The profiler could not produce its statistics.
    Profile(ProfileError),
    /// The range and bin count give no bin of positive width, or a value lies
    /// below the range.
    InvalidRange,
}

/// The bin that holds `v`: its offset from the low end divided by the bin
/// width, with everything past the last bin counted in the last bin.
pub open spec fn bin_index(v: nat, lo: nat, width: nat, bins: nat) -> nat
    recommends
        lo <= v,
        width > 0,
        bins > 0,
{
    let i = ((v - lo) as nat) / width;
    if i >= bins {
        (bins - 1) as nat
    } else {
        i
    }
}

/// The key under which `v` is counted: the low edge of its bin.
pub open spec fn bin_key(v: nat, lo: nat, width: nat, bins: nat) -> nat {
    lo + bin_index(v, lo, width, bins) * width
}

/// How many values of `data` are counted under `key`.
pub open spec fn bin_count(data: Seq<u128>, key: nat, lo: nat, width: nat, bins: nat) -> nat
    decreases data.len(),
{
    if data.len() == 0 {
        0
    } else {
        bin_count(data.drop_last(), key, lo, width, bins) + if bin_key(
            data.last() as nat,
            lo,
            width,
            bins,
        ) == key {
            1nat
        } else {
            0nat
        }
    }
}

/// The histogram of `data`: each bin that holds at least one value, keyed by
/// its low edge, mapped to the number of values it holds.
pub open spec fn histogram(data: Seq<u128>, lo: nat, width: nat, bins: nat) -> Map<u128, usize> {
    Map::new(
        |k: u128| bin_count(data, k as nat, lo, width, bins) > 0,
        |k: u128| bin_count(data, k as nat, lo, width, bins) as usize,
    )
}

/// The width of each of `bins` bins over `[lo, hi]`, rounded down.
pub open spec fn bin_width(lo: nat, hi: nat, bins: nat) -> nat {
    ((hi - lo) as nat) / bins
}

/// The range and bin count admit the data: there is at least one bin, the
/// range is not reversed, and, unless there is no data, the bins have a
/// positive width and no value lies below the range.
pub open spec fn histogram_defined(lo: nat, hi: nat, bins: nat, data: Seq<u128>) -> bool {
    &&& bins > 0
    &&& lo <= hi
    &&& data.len() > 0 ==> bin_width(lo, hi, bins) > 0
    &&& data.len() > 0 ==> forall|i: int| 0 <= i < data.len() ==> lo <= #[trigger] data[i]
}

proof fn lemma_bin_count_push(data: Seq<u128>, v: u128, key: nat, lo: nat, width: nat, bins: nat)
    ensures
        bin_count(data.push(v), key, lo, width, bins) == bin_count(data, key, lo, width, bins) + if bin_key(
            v as nat,
            lo,
            width,
            bins,
        ) == key {
            1nat
        } else {
            0nat
        },
{
    assert(data.push(v).drop_last() =~= data);
}

proof fn lemma_bin_count_le(data: Seq<u128>, key: nat, lo: nat, width: nat, bins: nat)
    ensures
        bin_count(data, key, lo, width, bins) <= data.len(),
    decreases data.len(),
{
    if data.len() > 0 {
        lemma_bin_count_le(data.drop_last(), key, lo, width, bins);
    }
}

/// Counts each value of `data` under the low edge of its bin, with `bins`
/// bins of equal width spanning `[lo, hi]`.
pub fn histogram_counts(lo: u128, hi: u128, bins: usize, data: &Vec<u128>) -> (r: HashMap<
    u128,
    usize,
>)
    requires
        histogram_defined(lo as nat, hi as nat, bins as nat, data@),
    ensures
        r@ == histogram(data@, lo as nat, bin_width(lo as nat, hi as nat, bins as nat), bins as nat),
{
    let width: u128 = (hi - lo) / (bins as u128);
    let ghost w: nat = width as nat;
    let mut counts: HashMap<u128, usize> = HashMap::new();
    let n: usize = data.len();
    let mut i: usize = 0;
    proof {
        assert(counts@ =~= histogram(data@.take(0), lo as nat, w, bins as nat));
    }
    while i < n
        invariant
            i <= n,
            n == data@.len(),
            histogram_defined(lo as nat, hi as nat, bins as nat, data@),
            w == bin_width(lo as nat, hi as nat, bins as nat),
            width == w,
            counts@ == histogram(data@.take(i as int), lo as nat, w, bins as nat),
        decreases n - i,
    {
        let value: u128 = data[i];
        let mut idx: u128 = (value - lo) / width;
        if idx >= bins as u128 {
            idx = bins as u128 - 1;
        }
        proof {
            assert(idx * width <= hi - lo) by (nonlinear_arith)
                requires
                    idx <= bins - 1,
                    width == (hi - lo) / (bins as int),
                    bins > 0,
                    lo <= hi,
            ;
        }
        let key: u128 = idx * width + lo;
        let ghost prev = data@.take(i as int);
        proof {
            assert(data@.take(i + 1) =~= prev.push(value));
            assert(key as nat == bin_key(value as nat, lo as nat, w, bins as nat));
            lemma_bin_count_le(prev, key as nat, lo as nat, w, bins as nat);
        }
        let found: Option<usize> = match counts.get(&key) {
            Some(c) => Some(*c),
            None => None,
        };
        match found {
            Some(c) => {
                counts.insert(key, c + 1);
            },
            None => {
                counts.insert(key, 1);
            },
        }
        proof {
            let next = prev.push(value);
            assert forall|k: u128| #![auto]
                bin_count(next, k as nat, lo as nat, w, bins as nat) == bin_count(
                    prev,
                    k as nat,
                    lo as nat,
                    w,
                    bins as nat,
                ) + if k == key {
                    1nat
                } else {
                    0nat
                } by {
                lemma_bin_count_push(prev, value, k as nat, lo as nat, w, bins as nat);
            }
            assert(counts@ =~= histogram(next, lo as nat, w, bins as nat));
        }
        i = i + 1;
    }
    proof {
        assert(data@.take(n as int) =~= data@);
    }
    counts
}

/// The whole microseconds of a duration, as `Duration::as_micros` gives them.
pub open spec fn duration_micros(d: std::time::Duration) -> nat {
    duration_nanos(d) / 1000
}

fn micros_of(d: &std::time::Duration) -> (r: u128)
    ensures
        r == duration_micros(*d),
{
    d.as_nanos() / 1000
}

/// Builds the histogram of `data` over the range that `stats` reports, from
/// its shortest to its longest duration in whole microseconds, with `bins`
/// bins; it is refused where that range and bin count do not admit the data.
pub fn histogram_from_stats(stats: &ProfileStats, bins: usize, data: &Vec<u128>) -> (r: Result<
    HashMap<u128, usize>,
    HistogramError,
>)
    ensures
        histogram_defined(
            duration_micros(stats.min_stop),
            duration_micros(stats.max_stop),
            bins as nat,
            data@,
        ) ==> (r matches Ok(m) && m@ == histogram(
            data@,
            duration_micros(stats.min_stop),
            bin_width(duration_micros(stats.min_stop), duration_micros(stats.max_stop), bins as nat),
            bins as nat,
        )),
        !histogram_defined(
            duration_micros(stats.min_stop),
            duration_micros(stats.max_stop),
            bins as nat,
            data@,
        ) ==> r == Err::<HashMap<u128, usize>, HistogramError>(HistogramError::InvalidRange),
{
    let lo: u128 = micros_of(&stats.min_stop);
    let hi: u128 = micros_of(&stats.max_stop);
    if bins == 0 || hi < lo {
        return Err(HistogramError::InvalidRange);
    }
    let n: usize = data.len();
    if n > 0 {
        if (hi - lo) / (bins as u128) == 0 {
            return Err(HistogramError::InvalidRange);
        }
        let mut i: usize = 0;
        while i < n
            invariant
                i <= n,
                n == data@.len(),
                forall|j: int| 0 <= j < i ==> lo <= #[trigger] data@[j],
                lo == duration_micros(stats.min_stop),
                hi == duration_micros(stats.max_stop),
            decreases n - i,
        {
            if data[i] < lo {
                assert(data@[i as int] < lo);
                return Err(HistogramError::InvalidRange);
            }
            i = i + 1;
        }
    }
    Ok(histogram_counts(lo, hi, bins, data))
}

/// What building the histogram of `data` with `bins` bins over the range of
/// statistics `st` gives: the histogram from the shortest to the longest
/// duration in whole microseconds where that range admits the data, and
/// `InvalidRange` where it does not.
pub open spec fn histogram_outcome(
    st: ProfileStats,
    bins: nat,
    data: Seq<u128>,
    r: Result<HashMap<u128, usize>, HistogramError>,
) -> bool {
    let lo = duration_micros(st.min_stop);
    let hi = duration_micros(st.max_stop);
    if histogram_defined(lo, hi, bins, data) {
        r matches Ok(m) && m@ == histogram(data, lo, bin_width(lo, hi, bins), bins)
    } else {
        r == Err::<HashMap<u128, usize>, HistogramError>(HistogramError::InvalidRange)
    }
}

/// As `histogram_outcome`, for the list of non-empty bins, lowest first.
pub open spec fn series_outcome(
    st: ProfileStats,
    bins: nat,
    data: Seq<u128>,
    r: Result<Vec<(u128, usize)>, HistogramError>,
) -> bool {
    let lo = duration_micros(st.min_stop);
    let hi = duration_micros(st.max_stop);
    if histogram_defined(lo, hi, bins, data) {
        r matches Ok(v) && v@ == series_of(
            histogram(data, lo, bin_width(lo, hi, bins), bins),
            lo,
            bin_width(lo, hi, bins),
            bins,
        )
    } else {
        r == Err::<Vec<(u128, usize)>, HistogramError>(HistogramError::InvalidRange)
    }
}

/// The histogram depends on the statistics only through their range: two
/// computations over statistics with the same shortest and longest duration
/// either both fail with the same error or both give the same counts.
pub proof fn law_histogram_outcome_by_range(
    a: ProfileStats,
    b: ProfileStats,
    bins: nat,
    data: Seq<u128>,
    ra: Result<HashMap<u128, usize>, HistogramError>,
    rb: Result<HashMap<u128, usize>, HistogramError>,
)
    requires
        a.min_stop == b.min_stop,
        a.max_stop == b.max_stop,
        histogram_outcome(a, bins, data, ra),
        histogram_outcome(b, bins, data, rb),
    ensures
        ra is Ok <==> rb is Ok,
        ra matches Ok(ma) ==> (rb matches Ok(mb) && ma@ == mb@),
        ra is Err ==> ra == rb,
{
}

/// A histogram of latency samples, over the range of a profiler's recorded
/// durations.
pub struct ProfilerHistogram<P: Profile> {
    profiler: P,
    bins: usize,
    data: Vec<u128>,
}

impl<P: Profile> ProfilerHistogram<P> {
    /// The profiler whose statistics give the range.
    pub closed spec fn profiler(&self) -> P {
        self.profiler
    }

    /// The number of bins.
    pub closed spec fn bins(&self) -> nat {
        self.bins as nat
    }

    /// The samples, in microseconds.
    pub closed spec fn data(&self) -> Seq<u128> {
        self.data@
    }

    /// A histogram of `data` with ten bins.
    pub fn new(profiler: P, data: Vec<u128>) -> (r: Self)
        ensures
            r.profiler() == profiler,
            r.data() == data@,
            r.bins() == 10,
    {
        ProfilerHistogram { profiler, bins: 10, data }
    }

    /// Sets the number of bins.
    pub fn bin(&mut self, step_size: usize) -> (r: &Self)
        ensures
            final(self).bins() == step_size,
            final(self).profiler() == old(self).profiler(),
            final(self).data() == old(self).data(),
            *r == *final(self),
    {
        self.bins = step_size;
        self
    }

    /// The non-empty bins of the histogram, lowest first (see `compute`).
    pub fn series(&self) -> (r: Result<Vec<(u128, usize)>, HistogramError>)
        requires
            self.profiler().can_summarize(),
        ensures
            self.profiler().reported_stats() matches Err(e) ==> r == Err::<
                Vec<(u128, usize)>,
                HistogramError,
            >(HistogramError::Profile(e)),
            self.profiler().reported_stats() matches Ok(st) ==> series_outcome(
                st,
                self.bins(),
                self.data(),
                r,
            ),
    {
        let stats = match self.profiler.get_stats() {
            Ok(stats) => stats,
            Err(e) => {
                return Err(HistogramError::Profile(e));
            },
        };
        let counts = match histogram_from_stats(&stats, self.bins, &self.data) {
            Ok(counts) => counts,
            Err(e) => {
                assert(series_outcome(
                    stats,
                    self.bins(),
                    self.data(),
                    Err(e),
                ));
                return Err(e);
            },
        };
        let lo: u128 = micros_of(&stats.min_stop);
        let hi: u128 = micros_of(&stats.max_stop);
        let width: u128 = (hi - lo) / (self.bins as u128);
        proof {
            assert(self.bins * width <= hi - lo) by (nonlinear_arith)
                requires
                    width == (hi - lo) / (self.bins as int),
                    self.bins > 0,
                    lo <= hi,
            ;
        }
        let v = sorted_bins(&counts, lo, width, self.bins);
        let r = Ok(v);
        proof {
            assert(series_outcome(
                stats,
                self.bins(),
                self.data(),
                r,
            ));
        }
        r
    }

    /// Counts the samples per bin, over the range from the shortest to the
    /// longest duration that the profiler reports (see `histogram_from_stats`).
    pub fn compute(&self) -> (r: Result<HashMap<u128, usize>, HistogramError>)
        requires
            self.profiler().can_summarize(),
        ensures
            self.profiler().reported_stats() matches Err(e) ==> r == Err::<
                HashMap<u128, usize>,
                HistogramError,
            >(HistogramError::Profile(e)),
            self.profiler().reported_stats() matches Ok(st) ==> histogram_outcome(
                st,
                self.bins(),
                self.data(),
                r,
            ),
    {
        match self.profiler.get_stats() {
            Ok(stats) => {
                let r = histogram_from_stats(&stats, self.bins, &self.data);
                proof {
                    assert(histogram_outcome(
                        stats,
                        self.bins(),
                        self.data(),
                        r,
                    ));
                }
                r
            },
            Err(e) => Err(HistogramError::Profile(e)),
        }
    }
}

/// The bins of histogram `m` that hold any value, as (low edge, count) pairs
/// in order of the first `j` bins.
pub open spec fn series_of(m: Map<u128, usize>, lo: nat, width: nat, j: nat) -> Seq<(u128, usize)>
    decreases j,
{
    if j == 0 {
        Seq::empty()
    } else {
        let prev = series_of(m, lo, width, (j - 1) as nat);
        let k = (lo + (j - 1) * width) as u128;
        if m.contains_key(k) {
            prev.push((k, m[k]))
        } else {
            prev
        }
    }
}

/// The non-empty bins of `counts`, lowest first, for `bins` bins of `width`
/// starting at `lo`.
pub fn sorted_bins(counts: &HashMap<u128, usize>, lo: u128, width: u128, bins: usize) -> (r: Vec<
    (u128, usize),
>)
    requires
        lo + bins * width <= u128::MAX,
    ensures
        r@ == series_of(counts@, lo as nat, width as nat, bins as nat),
{
    let mut out: Vec<(u128, usize)> = Vec::new();
    let mut j: usize = 0;
    while j < bins
        invariant
            j <= bins,
            lo + bins * width <= u128::MAX,
            out@ == series_of(counts@, lo as nat, width as nat, j as nat),
        decreases bins - j,
    {
        proof {
            assert(lo + j * width <= lo + bins * width) by (nonlinear_arith)
                requires
                    j < bins,
            ;
        }
        let key: u128 = lo + (j as u128) * width;
        match counts.get(&key) {
            Some(c) => {
                out.push((key, *c));
            },
            None => {},
        }
        j = j + 1;
    }
    out
}

/// The smallest and the largest count of a list of bins, if it is not empty.
pub fn count_range(series: &Vec<(u128, usize)>) -> (r: Option<(usize, usize)>)
    ensures
        series@.len() == 0 ==> r is None,
        series@.len() > 0 ==> (r matches Some((lo, hi)) && (exists|i: int|
            0 <= i < series@.len() && #[trigger] series@[i].1 == lo) && (exists|i: int|
            0 <= i < series@.len() && #[trigger] series@[i].1 == hi) && forall|i: int|
            0 <= i < series@.len() ==> lo <= #[trigger] series@[i].1 <= hi),
{
    let n: usize = series.len();
    if n == 0 {
        return None;
    }
    let mut lo: usize = series[0].1;
    let mut hi: usize = series[0].1;
    let mut i: usize = 1;
    while i < n
        invariant
            1 <= i <= n,
            n == series@.len(),
            exists|t: int| 0 <= t < i && #[trigger] series@[t].1 == lo,
            exists|t: int| 0 <= t < i && #[trigger] series@[t].1 == hi,
            forall|t: int| 0 <= t < i ==> lo <= #[trigger] series@[t].1 <= hi,
        decreases n - i,
    {
        let c: usize = series[i].1;
        if c < lo {
            lo = c;
        }
        if c >= hi {
            hi = c;
        }
        i = i + 1;
    }
    Some((lo, hi))
}

/// The low edge of bin `j`.
pub open spec fn bin_edge(lo: nat, width: nat, j: nat) -> nat {
    lo + j * width
}

/// Sum of the counts of the first `j` bins of `data`.
pub open spec fn bins_total(data: Seq<u128>, lo: nat, width: nat, bins: nat, j: nat) -> nat
    decreases j,
{
    if j == 0 {
        0
    } else {
        bins_total(data, lo, width, bins, (j - 1) as nat) + bin_count(
            data,
            (lo + (j - 1) * width) as nat,
            lo,
            width,
            bins,
        )
    }
}

/// Sum of the counts that a histogram map holds for the first `j` bins.
pub open spec fn histogram_total(m: Map<u128, usize>, lo: nat, width: nat, j: nat) -> nat
    decreases j,
{
    if j == 0 {
        0
    } else {
        let k = (lo + (j - 1) * width) as u128;
        histogram_total(m, lo, width, (j - 1) as nat) + if m.contains_key(k) {
            m[k] as nat
        } else {
            0nat
        }
    }
}

proof fn lemma_bin_index_bound(v: nat, lo: nat, width: nat, bins: nat)
    requires
        lo <= v,
        width > 0,
        bins > 0,
    ensures
        bin_index(v, lo, width, bins) < bins,
{
}

proof fn lemma_same_key(a: nat, b: nat, lo: nat, width: nat)
    requires
        width > 0,
        lo + a * width == lo + b * width,
    ensures
        a == b,
{
    assert(a == b) by (nonlinear_arith)
        requires
            width > 0,
            a * width == b * width,
    ;
}

proof fn lemma_bins_total_push(data: Seq<u128>, v: u128, lo: nat, width: nat, bins: nat, j: nat)
    requires
        lo <= v,
        width > 0,
        bins > 0,
    ensures
        bins_total(data.push(v), lo, width, bins, j) == bins_total(data, lo, width, bins, j) + if bin_index(
            v as nat,
            lo,
            width,
            bins,
        ) < j {
            1nat
        } else {
            0nat
        },
    decreases j,
{
    if j > 0 {
        let t = (j - 1) as nat;
        lemma_bins_total_push(data, v, lo, width, bins, t);
        lemma_bin_count_push(data, v, lo + t * width, lo, width, bins);
        let idx = bin_index(v as nat, lo, width, bins);
        if bin_key(v as nat, lo, width, bins) == lo + t * width {
            lemma_same_key(idx, t, lo, width);
        }
    }
}

proof fn lemma_bins_total(data: Seq<u128>, lo: nat, width: nat, bins: nat)
    requires
        width > 0,
        bins > 0,
        forall|i: int| 0 <= i < data.len() ==> lo <= #[trigger] data[i],
    ensures
        bins_total(data, lo, width, bins, bins) == data.len(),
    decreases data.len(),
{
    if data.len() == 0 {
        lemma_bins_total_empty(data, lo, width, bins, bins);
    } else {
        let prev = data.drop_last();
        assert forall|i: int| 0 <= i < prev.len() implies lo <= #[trigger] prev[i] by {
            assert(prev[i] == data[i]);
        }
        lemma_bins_total(prev, lo, width, bins);
        assert(prev.push(data.last()) =~= data);
        assert(lo <= data[data.len() - 1]);
        lemma_bin_index_bound(data.last() as nat, lo, width, bins);
        lemma_bins_total_push(prev, data.last(), lo, width, bins, bins);
    }
}

proof fn lemma_bins_total_empty(data: Seq<u128>, lo: nat, width: nat, bins: nat, j: nat)
    requires
        data.len() == 0,
    ensures
        bins_total(data, lo, width, bins, j) == 0,
    decreases j,
{
    if j > 0 {
        lemma_bins_total_empty(data, lo, width, bins, (j - 1) as nat);
    }
}

proof fn lemma_histogram_total(data: Seq<u128>, lo: nat, hi: nat, bins: nat, j: nat)
    requires
        histogram_defined(lo, hi, bins, data),
        bin_width(lo, hi, bins) > 0,
        hi <= u128::MAX,
        data.len() <= usize::MAX,
        j <= bins,
    ensures
        histogram_total(histogram(data, lo, bin_width(lo, hi, bins), bins), lo, bin_width(lo, hi, bins), j)
            == bins_total(data, lo, bin_width(lo, hi, bins), bins, j),
    decreases j,
{
    let w = bin_width(lo, hi, bins);
    if j > 0 {
        let t = (j - 1) as nat;
        lemma_histogram_total(data, lo, hi, bins, t);
        assert(t * w <= hi - lo) by (nonlinear_arith)
            requires
                t < bins,
                w == (hi - lo) / (bins as int),
                bins > 0,
                lo <= hi,
        ;
        let k = (lo + t * w) as u128;
        assert(k as nat == lo + t * w);
        lemma_bin_count_le(data, k as nat, lo, w, bins);
    }
}

/// Every value of `data` is counted exactly once: the counts of the
/// histogram's bins add up to the number of values, and every key of the
/// histogram is the low edge of one of the bins, within the range.
pub proof fn law_histogram_conserves_samples(data: Seq<u128>, lo: u128, hi: u128, bins: usize)
    requires
        histogram_defined(lo as nat, hi as nat, bins as nat, data),
        data.len() > 0,
        data.len() <= usize::MAX,
    ensures
        histogram_total(
            histogram(data, lo as nat, bin_width(lo as nat, hi as nat, bins as nat), bins as nat),
            lo as nat,
            bin_width(lo as nat, hi as nat, bins as nat),
            bins as nat,
        ) == data.len(),
        forall|k: u128|
            #[trigger] histogram(
                data,
                lo as nat,
                bin_width(lo as nat, hi as nat, bins as nat),
                bins as nat,
            ).contains_key(k) ==> lo <= k <= hi && exists|j: nat|
                j < bins && k == #[trigger] bin_edge(lo as nat, bin_width(lo as nat, hi as nat, bins as nat), j),
{
    let w = bin_width(lo as nat, hi as nat, bins as nat);
    lemma_bins_total(data, lo as nat, w, bins as nat);
    lemma_histogram_total(data, lo as nat, hi as nat, bins as nat, bins as nat);
    assert forall|k: u128|
        #[trigger] histogram(data, lo as nat, w, bins as nat).contains_key(k) implies lo <= k <= hi
            && exists|j: nat| j < bins && k == #[trigger] bin_edge(lo as nat, w, j) by {
        lemma_counted_key(data, k as nat, lo as nat, w, bins as nat);
        let i = choose|i: int| 0 <= i < data.len() && bin_key(data[i] as nat, lo as nat, w, bins as nat) == k;
        assert(lo <= data[i]);
        let j = bin_index(data[i] as nat, lo as nat, w, bins as nat);
        lemma_bin_index_bound(data[i] as nat, lo as nat, w, bins as nat);
        assert(j * w <= hi - lo) by (nonlinear_arith)
            requires
                j < bins,
                w == (hi - lo) / (bins as int),
                bins > 0,
                lo <= hi,
        ;
        assert(k == bin_edge(lo as nat, w, j));
    }
}

proof fn lemma_counted_key(data: Seq<u128>, key: nat, lo: nat, width: nat, bins: nat)
    requires
        bin_count(data, key, lo, width, bins) > 0,
    ensures
        exists|i: int| 0 <= i < data.len() && bin_key(data[i] as nat, lo, width, bins) == key,
    decreases data.len(),
{
    if bin_key(data.last() as nat, lo, width, bins) == key {
        assert(data[data.len() - 1] == data.last());
    } else {
        lemma_counted_key(data.drop_last(), key, lo, width, bins);
        let i = choose|i: int| 0 <= i < data.drop_last().len() && bin_key(data.drop_last()[i] as nat, lo, width, bins) == key;
        assert(data[i] == data.drop_last()[i]);
    }
}

proof fn lemma_series(m: Map<u128, usize>, lo: nat, width: nat, j: nat)
    requires
        width > 0,
        lo + j * width <= u128::MAX,
    ensures
        forall|i: int|
            0 <= i < series_of(m, lo, width, j).len() ==> {
                let e = #[trigger] series_of(m, lo, width, j)[i];
                &&& m.contains_key(e.0)
                &&& m[e.0] == e.1
                &&& lo <= e.0 < lo + j * width
            },
        forall|i: int, i2: int|
            0 <= i < i2 < series_of(m, lo, width, j).len() ==> (#[trigger] series_of(
                m,
                lo,
                width,
                j,
            )[i]).0 < (#[trigger] series_of(m, lo, width, j)[i2]).0,
        forall|t: nat|
            t < j && #[trigger] m.contains_key(bin_edge(lo, width, t) as u128) ==> exists|i: int|
                0 <= i < series_of(m, lo, width, j).len() && series_of(m, lo, width, j)[i] == (
                    bin_edge(lo, width, t) as u128,
                    m[bin_edge(lo, width, t) as u128],
                ),
    decreases j,
{
    if j > 0 {
        let t0 = (j - 1) as nat;
        assert(lo + t0 * width <= lo + j * width) by (nonlinear_arith)
            requires
                t0 < j,
        ;
        lemma_series(m, lo, width, t0);
        let prev = series_of(m, lo, width, t0);
        let cur = series_of(m, lo, width, j);
        let k = (lo + t0 * width) as u128;
        assert(lo + t0 * width + width == lo + j * width) by (nonlinear_arith)
            requires
                t0 + 1 == j,
        ;
        assert forall|i: int| 0 <= i < prev.len() implies cur[i] == prev[i] by {}
        assert forall|t: nat|
            t < j && #[trigger] m.contains_key(bin_edge(lo, width, t) as u128) implies exists|i: int|
                0 <= i < cur.len() && cur[i] == (
                    bin_edge(lo, width, t) as u128,
                    m[bin_edge(lo, width, t) as u128],
                ) by {
            if t < t0 {
                let i = choose|i: int|
                    0 <= i < prev.len() && prev[i] == (
                        bin_edge(lo, width, t) as u128,
                        m[bin_edge(lo, width, t) as u128],
                    );
                assert(cur[i] == prev[i]);
            } else {
                assert(bin_edge(lo, width, t) == lo + t0 * width);
                assert(cur[cur.len() - 1] == (k, m[k]));
            }
        }
    }
}

/// The list of non-empty bins is the histogram in order: the keys strictly
/// increase, each pair is a key of the histogram with its count, and every
/// key of the histogram is listed.
pub proof fn law_series_is_sorted_histogram(data: Seq<u128>, lo: u128, hi: u128, bins: usize)
    requires
        histogram_defined(lo as nat, hi as nat, bins as nat, data),
        data.len() > 0,
        data.len() <= usize::MAX,
    ensures
        ({
            let w = bin_width(lo as nat, hi as nat, bins as nat);
            let m = histogram(data, lo as nat, w, bins as nat);
            let s = series_of(m, lo as nat, w, bins as nat);
            &&& forall|i: int, i2: int| 0 <= i < i2 < s.len() ==> (#[trigger] s[i]).0 < (#[trigger] s[i2]).0
            &&& forall|i: int| 0 <= i < s.len() ==> m.contains_key((#[trigger] s[i]).0) && m[s[i].0] == s[i].1
            &&& forall|k: u128| #[trigger] m.contains_key(k) ==> s.contains((k, m[k]))
        }),
{
    let w = bin_width(lo as nat, hi as nat, bins as nat);
    let m = histogram(data, lo as nat, w, bins as nat);
    let s = series_of(m, lo as nat, w, bins as nat);
    assert(bins * w <= hi - lo) by (nonlinear_arith)
        requires
            w == (hi - lo) / (bins as int),
            bins > 0,
            lo <= hi,
    ;
    lemma_series(m, lo as nat, w, bins as nat);
    law_histogram_conserves_samples(data, lo, hi, bins);
    assert forall|k: u128| #[trigger] m.contains_key(k) implies s.contains((k, m[k])) by {
        let t = choose|t: nat| t < bins && k == #[trigger] bin_edge(lo as nat, w, t);
        assert(bin_edge(lo as nat, w, t) as u128 == k);
        assert(m.contains_key(bin_edge(lo as nat, w, t) as u128));
        let i = choose|i: int| 0 <= i < s.len() && s[i] == (bin_edge(lo as nat, w, t) as u128, m[bin_edge(lo as nat, w, t) as u128]);
        assert(s[i] == (k, m[k]));
    }
}

}
