use std::time::Duration;

use camera_merger::{HrtProfiler, Profile, ProfileError, ProfileStats, TensorPredictor};

#[test]
fn stats_match_recorded_durations() {
    let mut p = HrtProfiler::default();
    assert!(!p.is_started());
    for _ in 0..5 {
        let _ = p.start();
        assert!(p.is_started());
        let _ = p.stop_and_record();
    }
    let d = p.get_durations();
    assert_eq!(d.len(), 5);
    assert!(p.stats_in_range());
    let stats = p.get_stats().unwrap();
    let max = *d.iter().max().unwrap();
    let min = *d.iter().min().unwrap();
    let total: u128 = d.iter().map(|x| x.as_nanos()).sum();
    let avg_us = (total / 1000) / 5;
    assert_eq!(stats.max_stop, max);
    assert_eq!(stats.min_stop, min);
    assert_eq!(stats.avg_stops, Duration::from_micros(avg_us as u64));
    assert!(stats.min_stop.as_micros() <= stats.avg_stops.as_micros());
    assert!(stats.avg_stops.as_micros() <= stats.max_stop.as_micros());
}

#[test]
fn empty_profiler_reports_error() {
    let p = HrtProfiler::default();
    assert!(matches!(p.get_stats(), Err(ProfileError::EmptyProfiler)));
    assert!(p.get_durations().is_empty());
}

#[test]
fn stop_does_not_record() {
    let mut p = HrtProfiler::default();
    let _ = p.start();
    let _ = p.stop();
    assert!(p.get_durations().is_empty());
    let r = p.stop_and_record();
    assert_eq!(p.get_durations(), vec![r]);
}

#[test]
fn reserving_keeps_recordings() {
    let mut p = HrtProfiler::default();
    let _ = p.start();
    let r = p.stop_and_record();
    p.limit_timestamp_recording(100);
    assert_eq!(p.get_durations(), vec![r]);
}

#[test]
fn describe_reports_whole_microseconds() {
    let stats = ProfileStats {
        avg_stops: Duration::from_micros(5),
        min_stop: Duration::from_nanos(1999),
        max_stop: Duration::from_millis(12),
    };
    assert_eq!(
        stats.describe(),
        "Avg Time : 5us\nMin Time: 1us\nMax Time: 12000us"
    );
}

#[test]
fn checked_stats_of_empty_profiler() {
    let p = HrtProfiler::default();
    assert!(matches!(p.try_get_stats(), Some(Err(ProfileError::EmptyProfiler))));
}

#[test]
fn checked_stats_after_recording() {
    let mut p = HrtProfiler::default();
    let _ = p.start();
    let r = p.stop_and_record();
    match p.try_get_stats() {
        Some(Ok(stats)) => {
            assert_eq!(stats.min_stop, r);
            assert_eq!(stats.max_stop, r);
        }
        _ => panic!("expected statistics"),
    }
}

#[test]
fn durations_are_the_recorded_ones_in_order() {
    let mut p = HrtProfiler::default();
    let mut recorded = Vec::new();
    for i in 0..3 {
        let _ = p.start();
        if i == 1 {
            let _ = p.stop();
            p.limit_timestamp_recording(4);
        }
        recorded.push(p.stop_and_record());
        let _ = p.get_stats();
        assert_eq!(p.get_durations(), recorded);
    }
    assert_eq!(p.get_durations(), recorded);
}

#[test]
fn get_profiler_keeps_an_existing_stopwatch() {
    let mut tp = TensorPredictor::default();
    {
        let p = tp.get_profiler("stage");
        assert!(p.get_durations().is_empty());
        let _ = p.start();
        let _ = p.stop_and_record();
    }
    let first = tp.get_profiler("stage").get_durations();
    assert_eq!(first.len(), 1);
    let again = tp.get_profiler("stage").get_durations();
    assert_eq!(first, again);
    assert!(tp.get_profiler("other").get_durations().is_empty());
    assert_eq!(tp.get_profiler("stage").get_durations(), first);
}
