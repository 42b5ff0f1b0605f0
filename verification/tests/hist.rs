use std::time::{Duration, Instant};

use camera_merger::{Profile, ProfileError, ProfileStats, ProfilerHistogram};

/// A simple fake profiler for testing
struct FakeProfiler {
    min: u128,
    max: u128,
}

impl Profile for FakeProfiler {
    fn reported_stats(&self) -> Result<ProfileStats, ProfileError> {
        self.get_stats()
    }

    fn stats_in_range(&self) -> bool {
        true
    }
    fn get_stats(&self) -> Result<ProfileStats, ProfileError> {
        let fake_duration = Duration::new(0, 0);
        let min = Duration::from_micros(self.min as u64);
        let max = Duration::from_micros(self.max as u64);
        Ok(ProfileStats {
            avg_stops: fake_duration,
            min_stop: min,
            max_stop: max,
        })
    }
    fn start(&mut self) -> Instant {
        Instant::now()
    }
    fn stop_and_record(&mut self) -> Duration {
        Instant::now().elapsed()
    }
    fn stop(&mut self) -> Duration {
        Instant::now().elapsed()
    }
}

#[test]
fn hist_test_histogram_compute() {
    let profiler = FakeProfiler { min: 0, max: 100 };

    // These values span 0 → 100 micros
    let data = vec![5, 15, 25, 35, 45, 55, 75, 85, 95, 65, 66, 68];

    let hist = ProfilerHistogram::new(profiler, data)
        .bin(10)
        .compute()
        .expect("histogram failed");

    assert_eq!(hist.len(), 10, "should have exactly 9 bins {:?}", hist);

    // Verify some known bins contain values
    assert_eq!(hist.get(&0), Some(&1)); // 5
    assert_eq!(hist.get(&10), Some(&1)); // 15
    assert_eq!(hist.get(&20), Some(&1)); // 25
    assert_eq!(hist.get(&90), Some(&1)); // 95

    println!("{:?}", hist);
}
