use std::time::Duration;
use std::time::Instant;
use vstd::prelude::*;
use crate::profile::{
    duration_nanos, instant_elapsed, instant_now, lemma_nanos_total_prefix, max_duration_nanos,
    hrt_stats, max_stop_of, min_stop_of, nanos_total, stats_match, Profile, ProfileError, ProfileStats,
};

verus! {

/// Largest size in bytes of a `Duration` (a `u64` of seconds and a `u32` of
/// nanoseconds, padded to eight bytes).
pub open spec fn duration_bytes() -> nat {
    16
}

/// `Vec::reserve_exact` on a vector of durations: the contents stay as they
/// are. It panics when the new capacity exceeds `isize::MAX` bytes, which the
/// `requires` rules out.
#[verifier::external_body]
fn reserve_durations(v: &mut Vec<Duration>, additional: usize)
    requires
        (old(v)@.len() + additional) * duration_bytes() <= isize::MAX,
    ensures
        final(v)@ == old(v)@,
{
    v.reserve_exact(additional)
}

/// A high-resolution stopwatch: each stop that records appends the time
/// elapsed since the last start.
#[derive(Clone, Debug)]
pub struct HrtProfiler {
    start: Option<Instant>,
    stop: Option<Instant>,
    time_stamps: Vec<Duration>,
}

impl HrtProfiler {
    /// The recorded durations, oldest first.
    pub closed spec fn durations(&self) -> Seq<Duration> {
        self.time_stamps@
    }

    /// The instant of the last start, if any.
    pub closed spec fn started_at(&self) -> Option<Instant> {
        self.start
    }

    /// The instant of the last stop, if any.
    pub closed spec fn stopped_at(&self) -> Option<Instant> {
        self.stop
    }

    /// Reserves room for exactly `size` more durations; what is recorded does
    /// not change.
    pub fn limit_timestamp_recording(&mut self, size: usize)
        requires
            (old(self).durations().len() + size) * duration_bytes() <= isize::MAX,
        ensures
            final(self).durations() == old(self).durations(),
            final(self).started_at() == old(self).started_at(),
            final(self).stopped_at() == old(self).stopped_at(),
    {
        reserve_durations(&mut self.time_stamps, size);
    }

    /// Whether a start has been taken, so that a recording stop may follow.
    pub fn is_started(&self) -> (r: bool)
        ensures
            r == self.can_record(),
    {
        self.start.is_some()
    }

    /// The statistics of the recorded durations, where their total fits in a
    /// `Duration`; `None` where it does not.
    pub fn try_get_stats(&self) -> (r: Option<Result<ProfileStats, ProfileError>>)
        ensures
            !self.can_summarize() ==> r is None,
            self.can_summarize() && self.durations().len() == 0 ==> r == Some(
                Err::<ProfileStats, ProfileError>(ProfileError::EmptyProfiler),
            ),
            self.can_summarize() && self.durations().len() > 0 ==> (r matches Some(Ok(st))
                && stats_match(self.durations(), st)),
    {
        if self.stats_in_range() {
            Some(self.get_stats())
        } else {
            None
        }
    }

    /// A copy of the recorded durations.
    pub fn get_durations(&self) -> (r: Vec<Duration>)
        ensures
            r@ == self.durations(),
    {
        let mut r: Vec<Duration> = Vec::new();
        let n: usize = self.time_stamps.len();
        let mut i: usize = 0;
        while i < n
            invariant
                i <= n,
                n == self.time_stamps@.len(),
                r@ == self.time_stamps@.take(i as int),
            decreases n - i,
        {
            r.push(self.time_stamps[i]);
            i = i + 1;
            proof {
                assert(r@ =~= self.time_stamps@.take(i as int));
            }
        }
        proof {
            assert(self.time_stamps@.take(n as int) =~= self.time_stamps@);
        }
        r
    }
}

impl Default for HrtProfiler {
    fn default() -> (r: Self)
        ensures
            r.durations() == Seq::<Duration>::empty(),
            r.can_summarize(),
            r.started_at() is None,
            r.stopped_at() is None,
    {
        HrtProfiler { start: None, stop: None, time_stamps: Vec::new() }
    }
}

impl Profile for HrtProfiler {
    closed spec fn can_record(&self) -> bool {
        self.start is Some
    }

    open spec fn can_summarize(&self) -> bool {
        nanos_total(self.durations()) <= max_duration_nanos()
    }

    open spec fn reported_stats(&self) -> Result<ProfileStats, ProfileError> {
        if self.durations().len() == 0 {
            Err(ProfileError::EmptyProfiler)
        } else {
            Ok(hrt_stats(self.durations()))
        }
    }

    /// Whether the recorded durations add up to no more than the longest
    /// `Duration`, so that statistics can be computed.
    fn stats_in_range(&self) -> (r: bool)
        ensures
            r == self.can_summarize(),
    {
        let limit: u128 = 18_446_744_073_709_551_615_999_999_999;
        let ghost s = self.time_stamps@;
        let n: usize = self.time_stamps.len();
        let mut total: u128 = 0;
        let mut i: usize = 0;
        while i < n
            invariant
                i <= n,
                n == s.len(),
                s == self.time_stamps@,
                total == nanos_total(s.take(i as int)),
                total <= limit,
                limit == max_duration_nanos(),
            decreases n - i,
        {
            let dn: u128 = self.time_stamps[i].as_nanos();
            proof {
                assert(s.take(i + 1).drop_last() =~= s.take(i as int));
            }
            total = total + dn;
            i = i + 1;
            if total > limit {
                proof {
                    lemma_nanos_total_prefix(s, i as int);
                }
                return false;
            }
        }
        proof {
            assert(s.take(n as int) =~= s);
        }
        true
    }

    fn start(&mut self) -> (r: Instant)
        ensures
            final(self).started_at() == Some(r),
            final(self).stopped_at() == old(self).stopped_at(),
            final(self).durations() == old(self).durations(),
            final(self).can_record(),
    {
        let now = instant_now();
        self.start = Some(now);
        now
    }

    fn stop(&mut self) -> (r: Duration)
        ensures
            final(self).stopped_at() is Some,
            final(self).started_at() == old(self).started_at(),
            final(self).durations() == old(self).durations(),
    {
        let stop = instant_now();
        self.stop = Some(stop);
        instant_elapsed(&stop)
    }

    fn stop_and_record(&mut self) -> (r: Duration)
        ensures
            final(self).durations() == old(self).durations().push(r),
            final(self).stopped_at() is Some,
            final(self).started_at() == old(self).started_at(),
    {
        let stop = instant_now();
        self.stop = Some(stop);
        let started: Instant = self.start.unwrap();
        let elapsed = instant_elapsed(&started);
        self.time_stamps.push(elapsed);
        elapsed
    }

    fn get_stats(&self) -> (r: Result<ProfileStats, ProfileError>)
        ensures
            self.durations().len() == 0 ==> r == Err::<ProfileStats, ProfileError>(
                ProfileError::EmptyProfiler,
            ),
            self.durations().len() > 0 ==> (r matches Ok(st) && stats_match(self.durations(), st)),
            r == self.reported_stats(),
    {
        let n: usize = self.time_stamps.len();
        if n < 1 {
            return Err(ProfileError::EmptyProfiler);
        }
        let ghost s = self.time_stamps@;
        let mut total: u128 = 0;
        let mut max_d: Duration = self.time_stamps[0];
        let mut min_d: Duration = self.time_stamps[0];
        let mut max_n: u128 = max_d.as_nanos();
        let mut min_n: u128 = min_d.as_nanos();
        let mut i: usize = 0;
        while i < n
            invariant
                0 < n == s.len(),
                s == self.time_stamps@,
                nanos_total(s) <= max_duration_nanos(),
                i <= n,
                total == nanos_total(s.take(i as int)),
                i > 0 ==> max_d == max_stop_of(s.take(i as int)),
                i > 0 ==> min_d == min_stop_of(s.take(i as int)),
                i == 0 ==> max_d == s[0] && min_d == s[0],
                max_n == duration_nanos(max_d),
                min_n == duration_nanos(min_d),
            decreases n - i,
        {
            let d: Duration = self.time_stamps[i];
            let dn: u128 = d.as_nanos();
            proof {
                assert(s.take(i + 1).drop_last() =~= s.take(i as int));
                lemma_nanos_total_prefix(s, i + 1);
            }
            total = total + dn;
            if i == 0 || dn >= max_n {
                max_d = d;
                max_n = dn;
            }
            if i > 0 && dn < min_n {
                min_d = d;
                min_n = dn;
            }
            i = i + 1;
        }
        proof {
            assert(s.take(n as int) =~= s);
        }
        let avg_us: u128 = (total / 1000) / (n as u128);
        let avg = Duration::from_micros(avg_us as u64);
        Ok(ProfileStats { avg_stops: avg, min_stop: min_d, max_stop: max_d })
    }
}

/// The durations that a run of stopwatch calls records, in order: each
/// `Some(d)` stands for a call that recorded `d`, each `None` for a call that
/// recorded nothing.
pub open spec fn recorded(calls: Seq<Option<Duration>>) -> Seq<Duration>
    decreases calls.len(),
{
    if calls.len() == 0 {
        Seq::empty()
    } else {
        let prev = recorded(calls.drop_last());
        match calls.last() {
            Some(d) => prev.push(d),
            None => prev,
        }
    }
}

/// One call's effect on the recorded durations, as the methods' contracts
/// state it: `stop_and_record` appends the duration it returns (`Some`);
/// `start`, `stop`, `get_stats`, `get_durations` and
/// `limit_timestamp_recording` keep them (`None`).
pub open spec fn records_step(before: HrtProfiler, after: HrtProfiler, call: Option<Duration>) -> bool {
    match call {
        Some(d) => after.durations() == before.durations().push(d),
        None => after.durations() == before.durations(),
    }
}

/// Over any run of calls, the stopwatch holds what it held before followed by
/// every duration that a recording stop returned, in the order of the calls;
/// from a fresh stopwatch, exactly those durations.
pub proof fn law_durations_are_the_recordings(states: Seq<HrtProfiler>, calls: Seq<Option<Duration>>)
    requires
        states.len() == calls.len() + 1,
        forall|i: int|
            0 <= i < calls.len() ==> #[trigger] records_step(states[i], states[i + 1], calls[i]),
    ensures
        states.last().durations() == states[0].durations() + recorded(calls),
    decreases calls.len(),
{
    if calls.len() == 0 {
        assert(states[0].durations() + recorded(calls) =~= states[0].durations());
    } else {
        let n = calls.len() - 1;
        let ps = states.drop_last();
        let pc = calls.drop_last();
        assert forall|i: int| 0 <= i < pc.len() implies #[trigger] records_step(ps[i], ps[i + 1], pc[i]) by {
            assert(records_step(states[i], states[i + 1], calls[i]));
        }
        law_durations_are_the_recordings(ps, pc);
        assert(records_step(states[n], states[n + 1], calls[n]));
        assert(ps.last() == states[n]);
        assert(states.last() == states[n + 1]);
        assert(calls.last() == calls[n]);
        match calls[n] {
            Some(d) => {
                assert(states[0].durations() + recorded(calls) =~= (states[0].durations() + recorded(pc)).push(d));
            },
            None => {},
        }
    }
}

}
