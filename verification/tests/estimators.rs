use quinn_proto::arith::{larger, saturating_product, smaller};
use quinn_proto::congestion::bbr2::ack_aggregation::AckAggregationState;
use quinn_proto::congestion::bbr2::bw_estimation::BandwidthEstimation;
use quinn_proto::congestion::bbr2::min_max::{MinMax, MinMaxSample};
use quinn_proto::connection::RttEstimator;
use quinn_proto::time::{Duration, Instant};

const START: Instant = Instant { nanos: 5_000_000_000 };

fn at_millis(millis: u64) -> Instant {
    START.plus(Duration::from_millis(millis))
}

#[test]
fn maximum_rises_at_once() {
    let mut filter = MinMax::default();
    assert_eq!(filter.get(), 0);
    filter.update_max(0, 20);
    assert_eq!(filter.get(), 20);
    filter.update_max(1, 30);
    assert_eq!(filter.get(), 30);
    filter.update_max(2, 10);
    assert_eq!(filter.get(), 30);
}

#[test]
fn maximum_expires_with_its_window() {
    let mut filter = MinMax::default();
    filter.update_max(0, 100);
    filter.update_max(4, 50);
    filter.update_max(8, 40);
    assert_eq!(filter.get(), 100);
    filter.update_max(11, 10);
    assert_eq!(filter.get(), 50);
    filter.update_max(16, 5);
    assert_eq!(filter.get(), 40);
    filter.update_max(30, 1);
    assert_eq!(filter.get(), 1);
}

#[test]
fn candidates_stay_in_order() {
    let mut filter = MinMax::default();
    let values = [9, 3, 7, 7, 2, 8, 1, 1, 1, 4, 6, 2, 2, 9, 0, 3];
    for (round, value) in values.iter().enumerate() {
        filter.update_max(round as u64, *value);
        assert!(filter.best.value >= filter.second.value);
        assert!(filter.second.value >= filter.third.value);
        assert!(filter.best.time <= filter.second.time);
        assert!(filter.second.time <= filter.third.time);
        assert!(round as u64 - filter.best.time <= filter.window);
        assert!(filter.get() >= *value);
    }
}

#[test]
fn reset_forgets_all_candidates() {
    let mut filter = MinMax::default();
    filter.update_max(3, 100);
    filter.reset();
    let none = MinMaxSample { time: 0, value: 0 };
    assert_eq!(filter, MinMax { window: 10, best: none, second: none, third: none });
}

#[test]
fn rate_is_bytes_per_second() {
    assert_eq!(
        BandwidthEstimation::bw_from_delta(1_200, Duration::from_millis(10)),
        Some(120_000)
    );
    assert_eq!(
        BandwidthEstimation::bw_from_delta(1, Duration::from_secs(3)),
        Some(0)
    );
    assert_eq!(BandwidthEstimation::bw_from_delta(1, Duration::default()), None);
    assert_eq!(
        BandwidthEstimation::bw_from_delta(u64::MAX, Duration { nanos: 1 }),
        Some(u64::MAX)
    );
}

#[test]
fn estimate_is_the_smaller_of_send_and_ack_rate() {
    let mut bandwidth = BandwidthEstimation::default();
    bandwidth.on_sent(at_millis(0), 10_000);
    bandwidth.on_sent(at_millis(10), 10_000);
    bandwidth.on_ack(at_millis(50), at_millis(0), 10_000, 0, false);
    // One acknowledgement alone has no rate.
    assert_eq!(bandwidth.get_estimate(), 0);
    bandwidth.on_ack(at_millis(70), at_millis(10), 10_000, 0, false);
    // 10000 bytes left in 10 ms and were acknowledged in 20 ms.
    assert_eq!(bandwidth.get_estimate(), 500_000);
    assert_eq!(bandwidth.bytes_acked_this_window(), 20_000);
    bandwidth.end_acks(0, false);
    assert_eq!(bandwidth.bytes_acked_this_window(), 0);
    assert_eq!(bandwidth.get_estimate(), 500_000);
}

#[test]
fn app_limited_samples_are_ignored() {
    let mut bandwidth = BandwidthEstimation::default();
    bandwidth.update_max_bandwidth(0, 1_000, true);
    assert_eq!(bandwidth.get_estimate(), 0);
    bandwidth.update_max_bandwidth(0, 1_000, false);
    assert_eq!(bandwidth.get_estimate(), 1_000);
    bandwidth.update_max_bandwidth(0, 900, false);
    assert_eq!(bandwidth.get_estimate(), 1_000);
}

#[test]
fn aggregation_reports_what_runs_ahead_of_the_bandwidth() {
    let mut aggregation = AckAggregationState::default();
    // The first batch begins an epoch.
    let first = aggregation.update_ack_aggregation_bytes(5_000, at_millis(0), 0, 1_000_000);
    assert_eq!(first, 0);
    assert_eq!(aggregation.aggregation_epoch_bytes, 5_000);
    // After 2 ms the bandwidth explains 2000 bytes of 8000.
    let second = aggregation.update_ack_aggregation_bytes(3_000, at_millis(2), 1, 1_000_000);
    assert_eq!(second, 6_000);
    assert_eq!(aggregation.max_ack_height.get(), 6_000);
    // After 10 ms it explains all of them, and a new epoch begins.
    let third = aggregation.update_ack_aggregation_bytes(100, at_millis(10), 2, 1_000_000);
    assert_eq!(third, 0);
    assert_eq!(aggregation.aggregation_epoch_bytes, 100);
    assert_eq!(aggregation.max_ack_height.get(), 6_000);
}

#[test]
fn spans_and_points_in_time() {
    assert_eq!(Duration::from_secs(2).nanos, 2_000_000_000);
    assert_eq!(Duration::from_micros(7).nanos, 7_000);
    assert_eq!(Duration::from_millis(40).as_micros(), 40_000);
    assert_eq!(Duration { nanos: 1_999 }.as_micros(), 1);
    assert_eq!(Duration::from_millis(3).octuple(), Duration::from_millis(24));
    assert_eq!(at_millis(9).since(at_millis(4)), Duration::from_millis(5));
    assert_eq!(at_millis(4).since(at_millis(9)), Duration::default());
    assert!(at_millis(4).reached(at_millis(4)));
    assert!(!at_millis(3).reached(at_millis(4)));
    let rtt = RttEstimator { min: Duration::from_millis(12) };
    assert_eq!(rtt.min(), Duration::from_millis(12));
}

#[test]
fn small_arithmetic() {
    assert_eq!(larger(3, 5), 5);
    assert_eq!(smaller(3, 5), 3);
    assert_eq!(saturating_product(3, 5), 15);
    assert_eq!(saturating_product(1 << 32, 1 << 32), u64::MAX);
    assert_eq!(saturating_product(u64::MAX, 1), u64::MAX);
}
