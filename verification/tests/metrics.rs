use traffic_sim::simulation::PerformanceMetrics;
use traffic_sim::simulation::PerformanceTracker;

#[test]
fn an_empty_window_has_no_averages() {
    let tracker = PerformanceTracker::new(3);
    assert_eq!(tracker.average_frame_time(), 0);
    assert_eq!(tracker.average_simulation_time(), 0);
    assert_eq!(tracker.fps(), 0);
    assert_eq!(PerformanceMetrics::default().frame_time, 0);
    assert_eq!(PerformanceMetrics::default().memory_usage, 0);
}

#[test]
fn frames_are_averaged_over_the_window() {
    let mut tracker = PerformanceTracker::new(3);
    tracker.start_frame(1_000);
    tracker.end_frame(11_000);
    assert_eq!(tracker.average_frame_time(), 10_000);
    tracker.start_frame(20_000);
    tracker.end_frame(40_000);
    assert_eq!(tracker.average_frame_time(), 15_000);
    tracker.start_frame(50_000);
    tracker.end_frame(80_001);
    assert_eq!(tracker.average_frame_time(), 20_000);
    tracker.start_frame(100_000);
    tracker.end_frame(140_000);
    assert_eq!(tracker.average_frame_time(), 30_000);
}

#[test]
fn a_frame_that_was_not_started_adds_no_sample() {
    let mut tracker = PerformanceTracker::new(3);
    tracker.end_frame(5_000);
    assert_eq!(tracker.average_frame_time(), 0);
    tracker.start_frame(1_000);
    tracker.end_frame(3_000);
    tracker.end_frame(9_000);
    assert_eq!(tracker.average_frame_time(), 2_000);
    tracker.start_frame(9_000);
    tracker.end_frame(8_000);
    assert_eq!(tracker.average_frame_time(), 1_000);
}

#[test]
fn simulation_time_is_noted_in_the_newest_sample() {
    let mut tracker = PerformanceTracker::new(2);
    tracker.start_simulation(0);
    tracker.end_simulation(500);
    assert_eq!(tracker.average_simulation_time(), 0);
    tracker.start_frame(0);
    tracker.end_frame(1_000);
    tracker.start_simulation(1_000);
    tracker.end_simulation(1_400);
    assert_eq!(tracker.average_simulation_time(), 400);
    tracker.end_simulation(9_000);
    assert_eq!(tracker.average_simulation_time(), 400);
    tracker.start_frame(2_000);
    tracker.end_frame(3_000);
    assert_eq!(tracker.average_simulation_time(), 400);
    tracker.start_simulation(3_000);
    tracker.end_simulation(3_200);
    assert_eq!(tracker.average_simulation_time(), 300);
    tracker.start_render(3_200);
    tracker.end_render(3_300);
    assert_eq!(tracker.average_simulation_time(), 300);
}

#[test]
fn frames_per_second_is_a_second_over_the_mean_frame_time() {
    let mut tracker = PerformanceTracker::new(10);
    tracker.start_frame(0);
    tracker.end_frame(16_666_667);
    assert_eq!(tracker.fps(), 59_999_998);
    let mut slow = PerformanceTracker::new(10);
    slow.start_frame(0);
    slow.end_frame(2_000_000_000);
    assert_eq!(slow.fps(), 500_000);
}

#[test]
fn a_window_of_no_size_keeps_one_sample() {
    let mut tracker = PerformanceTracker::new(0);
    tracker.start_frame(0);
    tracker.end_frame(10);
    tracker.start_frame(10);
    tracker.end_frame(40);
    assert_eq!(tracker.average_frame_time(), 30);
}
