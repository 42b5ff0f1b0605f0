use std::time::{Duration, Instant};

use camera_merger::hist::{count_range, histogram_counts, histogram_from_stats, sorted_bins};
use camera_merger::{HistogramError, HrtProfiler, Profile, ProfileError, ProfileStats, ProfilerHistogram};

fn stats(min_us: u64, max_us: u64) -> ProfileStats {
    ProfileStats {
        avg_stops: Duration::from_micros(0),
        min_stop: Duration::from_micros(min_us),
        max_stop: Duration::from_micros(max_us),
    }
}

struct FixedProfiler {
    min: u64,
    max: u64,
}

impl Profile for FixedProfiler {
    fn reported_stats(&self) -> Result<ProfileStats, ProfileError> {
        self.get_stats()
    }

    fn stats_in_range(&self) -> bool {
        true
    }
    fn get_stats(&self) -> Result<ProfileStats, ProfileError> {
        Ok(stats(self.min, self.max))
    }
    fn start(&mut self) -> Instant {
        Instant::now()
    }
    fn stop_and_record(&mut self) -> Duration {
        Duration::from_micros(0)
    }
    fn stop(&mut self) -> Duration {
        Duration::from_micros(0)
    }
}

#[test]
fn counts_clamp_values_past_last_bin() {
    // width (100 - 0) / 3 = 33: bins at 0, 33, 66; 100 lands in the last bin.
    let data = vec![0, 32, 33, 99, 100];
    let h = histogram_counts(0, 100, 3, &data);
    assert_eq!(h.len(), 3);
    assert_eq!(h.get(&0), Some(&2));
    assert_eq!(h.get(&33), Some(&1));
    assert_eq!(h.get(&66), Some(&2));
    let total: usize = h.values().sum();
    assert_eq!(total, data.len());
}

#[test]
fn range_with_offset() {
    let data = vec![50, 55, 60, 149, 150];
    let h = histogram_counts(50, 150, 4, &data);
    // width 25: 50, 55 and 60 fall in the first bin, 149 and 150 in the last.
    assert_eq!(h.get(&50), Some(&3));
    assert_eq!(h.get(&75), None);
    assert_eq!(h.get(&100), None);
    assert_eq!(h.get(&125), Some(&2));
}

#[test]
fn invalid_ranges_are_refused() {
    let data = vec![5u128];
    assert_eq!(histogram_from_stats(&stats(0, 100), 0, &data).unwrap_err(), HistogramError::InvalidRange);
    assert_eq!(histogram_from_stats(&stats(100, 0), 10, &data).unwrap_err(), HistogramError::InvalidRange);
    assert_eq!(histogram_from_stats(&stats(0, 5), 10, &data).unwrap_err(), HistogramError::InvalidRange);
    assert_eq!(histogram_from_stats(&stats(10, 100), 10, &data).unwrap_err(), HistogramError::InvalidRange);
}

#[test]
fn empty_data_gives_empty_histogram() {
    let data: Vec<u128> = vec![];
    let h = histogram_from_stats(&stats(7, 7), 10, &data).unwrap();
    assert!(h.is_empty());
}

#[test]
fn profiler_error_is_passed_on() {
    let profiler = HrtProfiler::default();
    let r = ProfilerHistogram::new(profiler, vec![1, 2, 3]).compute();
    assert_eq!(r.unwrap_err(), HistogramError::Profile(ProfileError::EmptyProfiler));
}

#[test]
fn series_lists_bins_in_order() {
    let data = vec![95, 5, 15, 15, 65];
    let mut h = ProfilerHistogram::new(FixedProfiler { min: 0, max: 100 }, data);
    let s = h.bin(10).series().unwrap();
    assert_eq!(s, vec![(0, 1), (10, 2), (60, 1), (90, 1)]);
    assert_eq!(count_range(&s), Some((1, 2)));
}

#[test]
fn sorted_bins_skips_empty_bins() {
    let data = vec![0, 20, 21];
    let h = histogram_counts(0, 30, 3, &data);
    assert_eq!(sorted_bins(&h, 0, 10, 3), vec![(0, 1), (20, 2)]);
}

#[test]
fn count_range_of_nothing() {
    assert_eq!(count_range(&vec![]), None);
    assert_eq!(count_range(&vec![(0, 4)]), Some((4, 4)));
}

#[test]
fn compute_is_repeatable_and_ten_bins_by_default() {
    let mut p = HrtProfiler::default();
    for _ in 0..4 {
        let _ = p.start();
        let _ = p.stop_and_record();
    }
    let d = p.get_durations();
    let lo = d.iter().min().unwrap().as_micros();
    let data = vec![lo, lo, lo];
    let h = ProfilerHistogram::new(p.clone(), data.clone());
    let first = h.compute();
    let second = h.compute();
    assert_eq!(first, second);
    let mut h2 = ProfilerHistogram::new(p, data);
    let third = h2.bin(10).compute();
    assert_eq!(first, third);
}

#[test]
fn series_of_empty_profiler_fails() {
    let h = ProfilerHistogram::new(HrtProfiler::default(), vec![5, 15, 25]);
    assert_eq!(h.series().unwrap_err(), HistogramError::Profile(ProfileError::EmptyProfiler));
}
