use std::time::Duration;
use std::time::Instant;
use vstd::prelude::*;
use crate::support::{chars_of, decimal, push_decimal};

verus! {

/// A point in time as the monotonic clock reads it; nothing of it is visible
/// to proofs.
#[verifier::external_type_specification]
#[verifier::external_body]
pub struct ExInstant(Instant);

/// The total number of whole nanoseconds in a `Duration`, as
/// `Duration::as_nanos` reports it.
pub uninterp spec fn duration_nanos(d: Duration) -> nat;

/// The longest `Duration`: `u64::MAX` seconds and 999_999_999 nanoseconds.
pub open spec fn max_duration_nanos() -> nat {
    18_446_744_073_709_551_615_999_999_999
}

/// `Duration::as_nanos` gives the whole nanoseconds of the duration, which
/// never exceed the longest representable duration.
pub assume_specification[ Duration::as_nanos ](d: &Duration) -> (r: u128)
    ensures
        r == duration_nanos(*d),
        r <= max_duration_nanos(),
;

/// The `Duration` that `Duration::from_micros` builds from a count of
/// microseconds.
pub uninterp spec fn micros_duration(micros: u64) -> Duration;

/// `Duration::from_micros` builds the duration of the given number of
/// microseconds; the same count always gives the same `Duration`.
pub assume_specification[ Duration::from_micros ](micros: u64) -> (r: Duration)
    ensures
        r == micros_duration(micros),
        duration_nanos(r) == micros * 1000,
;

/// Reads the monotonic clock through `Instant::now`; the reading is not known.
#[verifier::external_body]
pub(crate) fn instant_now() -> Instant {
    Instant::now()
}

/// The time elapsed since `i`, through `Instant::elapsed`; the result depends
/// on the clock and is not known.
#[verifier::external_body]
pub(crate) fn instant_elapsed(i: &Instant) -> Duration {
    i.elapsed()
}

/// Summary statistics of the recorded durations of a profiler.
#[derive(Clone, Copy)]
pub struct ProfileStats {
    pub avg_stops: Duration,
    pub min_stop: Duration,
    pub max_stop: Duration,
}

/// Why statistics could not be produced.
#[derive(Debug, Clone, Copy, PartialEq, Eq)]
pub enum ProfileError {
    /// No duration has been recorded yet.
    EmptyProfiler,
}

/// A stopwatch that records the durations between a start and a stop.
pub trait Profile {
    /// Whether a recording stop may be taken: an implementation that needs a
    /// prior start says so here.
    open spec fn can_record(&self) -> bool {
        true
    }

    /// Whether statistics can be computed without overflow.
    open spec fn can_summarize(&self) -> bool {
        true
    }

    /// Tests at run time whether statistics can be computed without overflow.
    fn stats_in_range(&self) -> (r: bool)
        ensures
            r == self.can_summarize(),
    ;

    fn start(&mut self) -> Instant;

    fn stop(&mut self) -> Duration;

    fn stop_and_record(&mut self) -> Duration
        requires
            old(self).can_record(),
    ;

    /// What `get_stats` reports: the statistics, or why there are none.
    spec fn reported_stats(&self) -> Result<ProfileStats, ProfileError>;

    fn get_stats(&self) -> (r: Result<ProfileStats, ProfileError>)
        requires
            self.can_summarize(),
        ensures
            r == self.reported_stats(),
    ;
}

/// Sum of the nanoseconds of a sequence of durations.
pub open spec fn nanos_total(s: Seq<Duration>) -> nat
    decreases s.len(),
{
    if s.len() == 0 {
        0
    } else {
        nanos_total(s.drop_last()) + duration_nanos(s.last())
    }
}

/// The longest duration of a non-empty sequence; among equally long ones, the
/// last (as `Iterator::max` picks).
pub open spec fn max_stop_of(s: Seq<Duration>) -> Duration
    recommends
        s.len() > 0,
    decreases s.len(),
{
    if s.len() <= 1 {
        s[0]
    } else {
        let m = max_stop_of(s.drop_last());
        if duration_nanos(s.last()) >= duration_nanos(m) {
            s.last()
        } else {
            m
        }
    }
}

/// The shortest duration of a non-empty sequence; among equally short ones,
/// the first (as `Iterator::min` picks).
pub open spec fn min_stop_of(s: Seq<Duration>) -> Duration
    recommends
        s.len() > 0,
    decreases s.len(),
{
    if s.len() <= 1 {
        s[0]
    } else {
        let m = min_stop_of(s.drop_last());
        if duration_nanos(s.last()) < duration_nanos(m) {
            s.last()
        } else {
            m
        }
    }
}

/// The mean of a non-empty sequence of durations in whole microseconds: the
/// whole microseconds of the total, divided by the count and rounded down.
pub open spec fn avg_micros(s: Seq<Duration>) -> nat
    recommends
        s.len() > 0,
{
    (nanos_total(s) / 1000) / s.len()
}

/// The statistics that a non-empty sequence of durations gives: the mean
/// (truncated to a `u64` count of microseconds, as `Duration::from_micros`
/// receives it), the shortest and the longest.
pub open spec fn stats_match(s: Seq<Duration>, st: ProfileStats) -> bool {
    &&& duration_nanos(st.avg_stops) == ((avg_micros(s) as u64) as nat) * 1000
    &&& st.min_stop == min_stop_of(s)
    &&& st.max_stop == max_stop_of(s)
}

/// The statistics that `HrtProfiler::get_stats` reports for a non-empty
/// sequence of durations: the mean as a whole count of microseconds
/// (truncated to a `u64`, as `Duration::from_micros` receives it), the
/// shortest and the longest.
pub open spec fn hrt_stats(s: Seq<Duration>) -> ProfileStats {
    ProfileStats {
        avg_stops: micros_duration(avg_micros(s) as u64),
        min_stop: min_stop_of(s),
        max_stop: max_stop_of(s),
    }
}

/// A prefix of a sequence has at most the total duration of the whole.
pub proof fn lemma_nanos_total_prefix(s: Seq<Duration>, k: int)
    requires
        0 <= k <= s.len(),
    ensures
        nanos_total(s.take(k)) <= nanos_total(s),
    decreases s.len() - k,
{
    if k < s.len() {
        lemma_nanos_total_prefix(s.drop_last(), k);
        assert(s.drop_last().take(k) =~= s.take(k));
    } else {
        assert(s.take(k) =~= s);
    }
}

proof fn lemma_max_stop(s: Seq<Duration>)
    requires
        s.len() > 0,
    ensures
        s.contains(max_stop_of(s)),
        forall|i: int| 0 <= i < s.len() ==> duration_nanos(#[trigger] s[i]) <= duration_nanos(max_stop_of(s)),
    decreases s.len(),
{
    if s.len() > 1 {
        lemma_max_stop(s.drop_last());
        let m = max_stop_of(s.drop_last());
        let k = choose|k: int| 0 <= k < s.drop_last().len() && s.drop_last()[k] == m;
        assert(s[k] == m);
        assert(s[s.len() - 1] == s.last());
        assert forall|i: int| 0 <= i < s.len() implies duration_nanos(#[trigger] s[i]) <= duration_nanos(max_stop_of(s)) by {
            if i < s.len() - 1 {
                assert(s[i] == s.drop_last()[i]);
            }
        }
    }
}

proof fn lemma_min_stop(s: Seq<Duration>)
    requires
        s.len() > 0,
    ensures
        s.contains(min_stop_of(s)),
        forall|i: int| 0 <= i < s.len() ==> duration_nanos(min_stop_of(s)) <= duration_nanos(#[trigger] s[i]),
    decreases s.len(),
{
    if s.len() > 1 {
        lemma_min_stop(s.drop_last());
        let m = min_stop_of(s.drop_last());
        let k = choose|k: int| 0 <= k < s.drop_last().len() && s.drop_last()[k] == m;
        assert(s[k] == m);
        assert(s[s.len() - 1] == s.last());
        assert forall|i: int| 0 <= i < s.len() implies duration_nanos(min_stop_of(s)) <= duration_nanos(#[trigger] s[i]) by {
            if i < s.len() - 1 {
                assert(s[i] == s.drop_last()[i]);
            }
        }
    }
}

proof fn lemma_total_bounds(s: Seq<Duration>, lo: nat, hi: nat)
    requires
        forall|i: int| 0 <= i < s.len() ==> lo <= duration_nanos(#[trigger] s[i]) <= hi,
    ensures
        s.len() * lo <= nanos_total(s) <= s.len() * hi,
    decreases s.len(),
{
    if s.len() > 0 {
        assert forall|i: int| 0 <= i < s.drop_last().len() implies lo <= duration_nanos(#[trigger] s.drop_last()[i]) <= hi by {
            assert(s.drop_last()[i] == s[i]);
        }
        lemma_total_bounds(s.drop_last(), lo, hi);
        assert(s.last() == s[s.len() - 1]);
        assert((s.len() - 1) * lo + lo == s.len() * lo) by (nonlinear_arith);
        assert((s.len() - 1) * hi + hi == s.len() * hi) by (nonlinear_arith);
    }
}

proof fn lemma_mean_upper(t: nat, n: nat, m: nat)
    requires
        n > 0,
        t <= n * m,
    ensures
        (t / 1000) / n <= m / 1000,
{
    let q = t / 1000;
    let a = q / n;
    assert(a * n <= q) by (nonlinear_arith)
        requires
            a == q / n,
            n > 0,
    ;
    assert(q * 1000 <= t) by (nonlinear_arith)
        requires
            q == t / 1000,
    ;
    assert(a * 1000 <= m) by (nonlinear_arith)
        requires
            a * n <= q,
            q * 1000 <= t,
            t <= n * m,
            n > 0,
    ;
    assert(a <= m / 1000) by (nonlinear_arith)
        requires
            a * 1000 <= m,
    ;
}

proof fn lemma_mean_lower(t: nat, n: nat, m: nat)
    requires
        n > 0,
        n * m <= t,
    ensures
        m / 1000 <= (t / 1000) / n,
{
    let b = m / 1000;
    assert(b * 1000 <= m) by (nonlinear_arith)
        requires
            b == m / 1000,
    ;
    assert(n * b * 1000 <= t) by (nonlinear_arith)
        requires
            b * 1000 <= m,
            n * m <= t,
            n > 0,
    ;
    assert(n * b <= t / 1000) by (nonlinear_arith)
        requires
            n * b * 1000 <= t,
    ;
    assert(b <= (t / 1000) / n) by (nonlinear_arith)
        requires
            n * b <= t / 1000,
            n > 0,
    ;
}

/// The statistics of any non-empty sequence of durations are ordered: the
/// shortest and the longest are recorded durations, every recorded duration
/// lies between them, and the mean in whole microseconds lies between their
/// whole microseconds.
pub proof fn law_stats_bounds(s: Seq<Duration>)
    requires
        s.len() > 0,
    ensures
        s.contains(min_stop_of(s)),
        s.contains(max_stop_of(s)),
        forall|i: int|
            0 <= i < s.len() ==> duration_nanos(min_stop_of(s)) <= duration_nanos(#[trigger] s[i])
                <= duration_nanos(max_stop_of(s)),
        duration_nanos(min_stop_of(s)) / 1000 <= avg_micros(s) <= duration_nanos(max_stop_of(s))
            / 1000,
{
    lemma_max_stop(s);
    lemma_min_stop(s);
    let lo = duration_nanos(min_stop_of(s));
    let hi = duration_nanos(max_stop_of(s));
    lemma_total_bounds(s, lo, hi);
    lemma_mean_upper(nanos_total(s), s.len(), hi);
    lemma_mean_lower(nanos_total(s), s.len(), lo);
}

/// The statistics of a sequence of durations are unique: two reports that both
/// match it have the same shortest and longest duration and the same mean.
pub proof fn law_stats_unique(s: Seq<Duration>, a: ProfileStats, b: ProfileStats)
    requires
        stats_match(s, a),
        stats_match(s, b),
    ensures
        a.min_stop == b.min_stop,
        a.max_stop == b.max_stop,
        duration_nanos(a.avg_stops) == duration_nanos(b.avg_stops),
{
}

/// A string holding the characters of `v`, in order, through
/// `Iterator::collect` into a `String`.
#[verifier::external_body]
fn string_from_chars(v: &Vec<char>) -> (r: String)
    ensures
        r@ == v@,
{
    v.iter().collect()
}

/// The report of statistics given in whole microseconds.
pub open spec fn stats_text(avg_us: nat, min_us: nat, max_us: nat) -> Seq<char> {
    "Avg Time : "@ + decimal(avg_us) + "us\nMin Time: "@ + decimal(min_us) + "us\nMax Time: "@
        + decimal(max_us) + "us"@
}

impl ProfileStats {
    /// The statistics as a three-line report of whole microseconds.
    pub fn describe(&self) -> (r: String)
        ensures
            r@ == stats_text(
                duration_nanos(self.avg_stops) / 1000,
                duration_nanos(self.min_stop) / 1000,
                duration_nanos(self.max_stop) / 1000,
            ),
    {
        let mut out: Vec<char> = Vec::new();
        let mut part = chars_of("Avg Time : ");
        out.append(&mut part);
        push_decimal(self.avg_stops.as_nanos() / 1000, &mut out);
        let mut part = chars_of("us\nMin Time: ");
        out.append(&mut part);
        push_decimal(self.min_stop.as_nanos() / 1000, &mut out);
        let mut part = chars_of("us\nMax Time: ");
        out.append(&mut part);
        push_decimal(self.max_stop.as_nanos() / 1000, &mut out);
        let mut part = chars_of("us");
        out.append(&mut part);
        proof {
            assert(out@ =~= stats_text(
                duration_nanos(self.avg_stops) / 1000,
                duration_nanos(self.min_stop) / 1000,
                duration_nanos(self.max_stop) / 1000,
            ));
        }
        string_from_chars(&out)
    }
}

}
