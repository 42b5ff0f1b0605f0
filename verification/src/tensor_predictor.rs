use vstd::prelude::*;
use std::time::Instant;
use crate::hrt::HrtProfiler;
use crate::profile::Profile;

verus! {

/// A profiler that has recorded nothing and was never started or stopped.
pub open spec fn fresh_profiler(p: HrtProfiler) -> bool {
    &&& p.durations() == Seq::<std::time::Duration>::empty()
    &&& p.started_at() is None
    &&& p.stopped_at() is None
}

/// The profilers of a list of named profilers, by name.
pub open spec fn profiler_map(v: Seq<(String, HrtProfiler)>) -> Map<Seq<char>, HrtProfiler>
    decreases v.len(),
{
    if v.len() == 0 {
        Map::empty()
    } else {
        profiler_map(v.drop_last()).insert(v.last().0@, v.last().1)
    }
}

/// No two profilers of the list share a name.
pub open spec fn names_distinct(v: Seq<(String, HrtProfiler)>) -> bool {
    forall|i: int, j: int| 0 <= i < j < v.len() ==> (#[trigger] v[i]).0@ != (#[trigger] v[j]).0@
}

/// Runs inference on batches of frames and keeps one stopwatch per named
/// stage of the work.
pub struct TensorPredictor {
    profilers: Vec<(String, HrtProfiler)>,
}

proof fn lemma_profiler_map_lookup(v: Seq<(String, HrtProfiler)>, i: int)
    requires
        names_distinct(v),
        0 <= i < v.len(),
    ensures
        profiler_map(v).contains_key(v[i].0@),
        profiler_map(v)[v[i].0@] == v[i].1,
    decreases v.len(),
{
    if i < v.len() - 1 {
        lemma_profiler_map_lookup(v.drop_last(), i);
        assert(v.drop_last()[i] == v[i]);
        assert(v[v.len() - 1] == v.last());
    }
}

proof fn lemma_profiler_map_absent(v: Seq<(String, HrtProfiler)>, name: Seq<char>)
    requires
        forall|i: int| 0 <= i < v.len() ==> (#[trigger] v[i]).0@ != name,
    ensures
        !profiler_map(v).contains_key(name),
    decreases v.len(),
{
    if v.len() > 0 {
        assert(v[v.len() - 1] == v.last());
        lemma_profiler_map_absent(v.drop_last(), name);
    }
}

proof fn lemma_profiler_map_update(v: Seq<(String, HrtProfiler)>, i: int, p: HrtProfiler)
    requires
        names_distinct(v),
        0 <= i < v.len(),
    ensures
        profiler_map(v.update(i, (v[i].0, p))) == profiler_map(v).insert(v[i].0@, p),
    decreases v.len(),
{
    let w = v.update(i, (v[i].0, p));
    if i == v.len() - 1 {
        assert(w.drop_last() =~= v.drop_last());
        assert forall|j: int| 0 <= j < v.drop_last().len() implies (#[trigger] v.drop_last()[j]).0@ != v[i].0@ by {
            assert(v.drop_last()[j] == v[j]);
        }
        lemma_profiler_map_absent(v.drop_last(), v[i].0@);
        assert(profiler_map(w) =~= profiler_map(v).insert(v[i].0@, p));
    } else {
        let u = v.drop_last();
        assert(w.drop_last() =~= u.update(i, (u[i].0, p)));
        lemma_profiler_map_update(u, i, p);
        assert(v.last() == v[v.len() - 1]);
        assert(v[i] == u[i]);
        assert(profiler_map(w) =~= profiler_map(v).insert(v[i].0@, p));
    }
}

impl TensorPredictor {
    /// The profilers by name.
    pub closed spec fn profilers(&self) -> Map<Seq<char>, HrtProfiler> {
        profiler_map(self.profilers@)
    }

    /// Well-formedness: names are distinct.
    pub closed spec fn wf(&self) -> bool {
        names_distinct(self.profilers@)
    }

    /// The profiler named `name`, created fresh if there is none yet.
    pub fn get_profiler(&mut self, name: &str) -> (r: &mut HrtProfiler)
        requires
            old(self).wf(),
        ensures
            final(self).wf(),
            old(self).profilers().contains_key(name@) ==> *r == old(self).profilers()[name@],
            !old(self).profilers().contains_key(name@) ==> fresh_profiler(*r),
            final(self).profilers() == old(self).profilers().insert(name@, *final(r)),
    {
        let key: String = name.to_owned();
        let n: usize = self.profilers.len();
        let mut i: usize = 0;
        while i < n
            invariant
                i <= n,
                n == self.profilers@.len(),
                names_distinct(self.profilers@),
                forall|j: int| 0 <= j < i ==> (#[trigger] self.profilers@[j]).0@ != name@,
                key@ == name@,
            ensures
                i <= n,
                n == self.profilers@.len(),
                forall|j: int| 0 <= j < i ==> (#[trigger] self.profilers@[j]).0@ != name@,
                i < n ==> self.profilers@[i as int].0@ == name@,
            decreases n - i,
        {
            if self.profilers[i].0 == key {
                break;
            }
            i = i + 1;
        }
        if i == n {
            proof {
                lemma_profiler_map_absent(self.profilers@, name@);
            }
            self.profilers.push((key, HrtProfiler::default()));
            proof {
                assert(self.profilers@.drop_last() =~= old(self).profilers@);
            }
        } else {
            proof {
                lemma_profiler_map_lookup(self.profilers@, i as int);
            }
        }
        let ghost before = self.profilers@;
        proof {
            lemma_profiler_map_lookup(before, i as int);
        }
        let r: &mut HrtProfiler = &mut self.profilers[i].1;
        proof {
            lemma_profiler_map_update(before, i as int, *final(r));
        }
        r
    }

    /// Starts the stopwatch of the stage named `name`, creating it if needed;
    /// the other stages are left as they are.
    pub fn start_profiler(&mut self, name: &str) -> (r: Instant)
        requires
            old(self).wf(),
        ensures
            final(self).wf(),
            final(self).profilers().dom() == old(self).profilers().dom().insert(name@),
            final(self).profilers()[name@].started_at() == Some(r),
            old(self).profilers().contains_key(name@) ==> final(self).profilers()[name@].durations()
                == old(self).profilers()[name@].durations(),
            !old(self).profilers().contains_key(name@) ==> final(self).profilers()[name@].durations()
                == Seq::<std::time::Duration>::empty(),
            forall|other: Seq<char>|
                other != name@ && #[trigger] old(self).profilers().contains_key(other)
                    ==> final(self).profilers()[other] == old(self).profilers()[other],
    {
        let prof = self.get_profiler(name);
        prof.start()
    }

    /// Records the labels of the detected objects; nothing is recorded yet.
    pub fn record_labels() {
    }
}

impl Default for TensorPredictor {
    fn default() -> (r: Self)
        ensures
            r.wf(),
            r.profilers() == Map::<Seq<char>, HrtProfiler>::empty(),
    {
        TensorPredictor { profilers: Vec::new() }
    }
}

}
