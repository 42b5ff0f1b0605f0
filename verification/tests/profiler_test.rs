use camera_merger::{HrtProfiler, Profile};

#[test]
fn empty_profiler() {
    let ptr = HrtProfiler::default();
    let stats = ptr.get_stats();
    assert!(stats.is_err())
}
