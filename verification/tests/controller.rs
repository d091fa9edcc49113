use std::sync::Arc;

use quinn_proto::congestion::bbr2::config::{BbrConfig, BbrV2Config};
use quinn_proto::congestion::bbr2::model::{
    BBR2_PROBE_DOWN_PACING_GAIN, BBR_SENT_PACKET_MODEL_MIN_PACKETS, CYCLE_DRAIN_GAIN,
    CYCLE_PROBE_GAIN, DEFAULT_DRAIN_GAIN, DEFAULT_HIGH_GAIN, DERIVED_HIGH_CWND_GAIN,
};
use quinn_proto::congestion::bbr2::operations::calculate_min_window;
use quinn_proto::congestion::bbr2::{Bbr, BbrVersion, Mode, ProbeBwPhase, RecoveryState};
use quinn_proto::congestion::{
    CongestionEvent, Controller, ControllerFactory, ControllerMetrics, BASE_DATAGRAM_SIZE,
};
use quinn_proto::connection::RttEstimator;
use quinn_proto::gain::UNIT_GAIN;
use quinn_proto::time::{Duration, Instant};

const START: Instant = Instant { nanos: 1_000_000_000_000 };

const MTU: u16 = BASE_DATAGRAM_SIZE as u16;

fn v1() -> Bbr {
    Bbr::new(Arc::new(BbrConfig::default()), MTU)
}

fn v2_full() -> Bbr {
    let mut config = BbrV2Config::default();
    config.full_model(true);
    *Arc::new(config).build(START, MTU).into_any()
}

fn after_millis(millis: u64) -> Instant {
    START.plus(Duration::from_millis(millis))
}

fn rtt_of_millis(millis: u64) -> RttEstimator {
    RttEstimator { min: Duration::from_millis(millis) }
}

/// A path with the given bandwidth, in bytes per second, and minimum RTT.
fn set_path(bbr: &mut Bbr, bandwidth: u64, rtt_millis: u64) {
    bbr.max_bandwidth.update_max_bandwidth(bbr.round_count, bandwidth, false);
    bbr.min_rtt = Duration::from_millis(rtt_millis);
}

#[test]
fn fresh_controllers_offer_the_initial_window() {
    let mut config = BbrConfig::default();
    assert_eq!(config.initial_window, 200 * BASE_DATAGRAM_SIZE);
    config.initial_window(14_720);
    let bbr = Arc::new(config).build(START, MTU);
    assert_eq!(bbr.version, BbrVersion::V1);
    assert_eq!(bbr.window(), 14_720);
    assert_eq!(bbr.initial_window(), 14_720);
    let mut config = BbrV2Config::default();
    config.initial_window(20_000);
    let bbr = Arc::new(config).build(START, MTU);
    assert_eq!(bbr.version, BbrVersion::V2);
    assert_eq!(bbr.window(), 20_000);
    assert_eq!(bbr.min_cwnd, 4 * BASE_DATAGRAM_SIZE);
    assert_eq!(calculate_min_window(1_500), 6_000);
}

#[test]
fn builders_chain_and_have_an_alias() {
    let mut config = BbrV2Config::default();
    config.initial_window(9_000).full_model(true);
    assert_eq!(config.inner.initial_window, 9_000);
    assert!(config.inner.bbrv2_experimental_inflight_hi_shrink);
    config.experimental_inflight_hi_shrink(false);
    assert!(!config.inner.bbrv2_experimental_inflight_hi_shrink);
}

#[test]
fn metrics_report_window_and_pacing_rate() {
    let mut bbr = v1();
    bbr.pacing_rate = 77;
    let metrics = bbr.metrics();
    assert_eq!(metrics.congestion_window, bbr.window());
    assert_eq!(metrics.pacing_rate, Some(77));
    assert_eq!(metrics.ssthresh, None);
    assert_eq!(metrics.send_quantum, None);
    assert_eq!(ControllerMetrics::default().congestion_window, 0);
    assert_eq!(ControllerMetrics::default().pacing_rate, None);
}

#[test]
fn gain_cycle_starts_at_any_step_but_the_draining_one() {
    let mut bbr = v1();
    let mut seen = [0; 8];
    for _ in 0..2_000 {
        bbr.enter_probe_bandwidth_mode(START);
        let offset = bbr.current_cycle_offset as usize;
        seen[offset] += 1;
        let gain = if offset == 0 { CYCLE_PROBE_GAIN } else { UNIT_GAIN };
        assert_eq!(bbr.pacing_gain, gain);
        assert_eq!(bbr.mode, Mode::ProbeBw);
        assert_eq!(bbr.cwnd_gain, DERIVED_HIGH_CWND_GAIN);
        assert_eq!(bbr.probe_bw_phase, ProbeBwPhase::Cruise);
    }
    assert_eq!(seen[1], 0);
    for step in [0, 2, 3, 4, 5, 6, 7] {
        assert!(seen[step] > 0, "step {step} never came first");
    }
}

#[test]
fn each_number_picks_its_step() {
    for (number, step) in [(0, 0), (1, 2), (2, 3), (3, 4), (4, 5), (5, 6), (6, 7)] {
        let mut bbr = v1();
        bbr.begin_probe_bandwidth(START, number);
        assert_eq!(bbr.current_cycle_offset, step);
        assert_eq!(bbr.last_cycle_start, Some(START));
    }
    let mut bbr = v2_full();
    bbr.begin_probe_bandwidth(START, 3);
    assert_eq!(bbr.probe_bw_phase, ProbeBwPhase::Down);
    assert_eq!(bbr.pacing_gain, BBR2_PROBE_DOWN_PACING_GAIN);
    assert_eq!(bbr.current_cycle_offset, 0);
}

fn steps(bbr: &mut Bbr) -> Vec<u8> {
    (0..64)
        .map(|_| {
            bbr.enter_probe_bandwidth_mode(START);
            bbr.current_cycle_offset
        })
        .collect()
}

#[test]
fn clones_draw_alike_and_strangers_do_not() {
    let mut bbr = v1();
    let mut copy = *bbr.clone_box();
    let mut other = v1();
    let drawn = steps(&mut bbr);
    assert_eq!(steps(&mut copy), drawn);
    assert_ne!(steps(&mut other), drawn);
}

#[test]
fn clone_has_the_same_state() {
    let mut bbr = v2_full();
    set_path(&mut bbr, 10_000_000, 20);
    bbr.on_sent(START, 1_200, 1);
    bbr.on_packet_sent(START, 1_200, 1);
    bbr.inflight_hi = 123_456;
    let copy = bbr.clone_box();
    assert_eq!(format!("{copy:?}"), format!("{bbr:?}"));
    assert_eq!(copy.sent_packets.len(), 1);
}

#[test]
fn packet_store_forgets_the_oldest_first() {
    let mut bbr = v2_full();
    bbr.cwnd = 0;
    bbr.init_cwnd = 0;
    let limit = bbr.sent_packet_model_limit();
    assert_eq!(limit as u64, BBR_SENT_PACKET_MODEL_MIN_PACKETS);
    for number in 0..limit as u64 + 10 {
        bbr.on_packet_sent(START, 100, number);
    }
    assert_eq!(bbr.sent_packets.len(), limit);
    assert_eq!(bbr.sent_packet_model(9), None);
    let oldest = bbr.sent_packet_model(10).unwrap();
    assert_eq!(oldest.tx_in_flight, 1_100);
    assert!(bbr.sent_packet_model(limit as u64 + 9).is_some());
    // A number below all others is the first to go.
    bbr.on_packet_sent(START, 100, 5);
    assert_eq!(bbr.sent_packet_model(5), None);
    assert!(bbr.sent_packet_model(10).is_some());
    bbr.prune_sent_packet_model(10);
    assert_eq!(bbr.sent_packets.len(), limit - 1);
}

#[test]
fn target_window_is_gain_times_bandwidth_times_rtt() {
    let mut bbr = v1();
    assert_eq!(bbr.get_target_cwnd(UNIT_GAIN), bbr.init_cwnd);
    set_path(&mut bbr, 10_000_000, 40);
    assert_eq!(bbr.get_target_cwnd(UNIT_GAIN), 400_000);
    assert_eq!(bbr.get_target_cwnd(DERIVED_HIGH_CWND_GAIN), 800_000);
    assert_eq!(bbr.get_target_cwnd(CYCLE_DRAIN_GAIN), 300_000);
    assert_eq!(bbr.get_probe_rtt_cwnd(), 300_000);
    bbr.min_rtt = Duration::from_micros(1);
    assert_eq!(bbr.get_target_cwnd(UNIT_GAIN), bbr.min_cwnd);
}

#[test]
fn short_term_bandwidth_bound_lowers_the_target() {
    let mut bbr = v2_full();
    set_path(&mut bbr, 10_000_000, 40);
    bbr.bw_lo = 5_000_000;
    bbr.mode = Mode::ProbeBw;
    bbr.probe_bw_phase = ProbeBwPhase::Cruise;
    assert_eq!(bbr.bbrv2_effective_bandwidth(), 5_000_000);
    assert_eq!(bbr.get_target_cwnd(UNIT_GAIN), 200_000);
    bbr.probe_bw_phase = ProbeBwPhase::Up;
    assert_eq!(bbr.bbrv2_effective_bandwidth(), 10_000_000);
}

#[test]
fn first_pacing_rate_spreads_the_initial_window() {
    let mut bbr = v1();
    bbr.calculate_pacing_rate();
    assert_eq!(bbr.pacing_rate, 0);
    set_path(&mut bbr, 1_000_000, 100);
    bbr.calculate_pacing_rate();
    assert_eq!(bbr.pacing_rate, bbr.init_cwnd * 10);
    // Before the path is known to be full the rate does not fall, ...
    bbr.pacing_gain = UNIT_GAIN;
    bbr.calculate_pacing_rate();
    assert_eq!(bbr.pacing_rate, bbr.init_cwnd * 10);
    bbr.pacing_gain = DEFAULT_HIGH_GAIN;
    bbr.calculate_pacing_rate();
    assert_eq!(bbr.pacing_rate, 2_884_999);
    // ... and then it follows the model.
    bbr.is_at_full_bandwidth = true;
    bbr.pacing_gain = DEFAULT_DRAIN_GAIN;
    bbr.calculate_pacing_rate();
    assert_eq!(bbr.pacing_rate, 346_620);
}

#[test]
fn three_rounds_without_growth_fill_the_path() {
    let mut bbr = v1();
    set_path(&mut bbr, 1_000_000, 100);
    bbr.check_if_full_bw_reached(false);
    assert_eq!(bbr.bw_at_last_round, 1_000_000);
    // Growth by a quarter is not reached.
    bbr.max_bandwidth.update_max_bandwidth(0, 1_249_999, false);
    bbr.check_if_full_bw_reached(false);
    bbr.check_if_full_bw_reached(true);
    bbr.check_if_full_bw_reached(false);
    assert!(!bbr.is_at_full_bandwidth);
    assert_eq!(bbr.round_wo_bw_gain, 2);
    bbr.check_if_full_bw_reached(false);
    assert!(bbr.is_at_full_bandwidth);
    let mut bbr = v1();
    set_path(&mut bbr, 1_000_000, 100);
    bbr.bw_at_last_round = 1_000_000;
    bbr.max_bandwidth.update_max_bandwidth(0, 1_250_000, false);
    bbr.check_if_full_bw_reached(false);
    assert_eq!(bbr.round_wo_bw_gain, 0);
    assert_eq!(bbr.bw_at_last_round, 1_250_000);
}

#[test]
fn one_round_without_growth_in_recovery_fills_the_path() {
    let mut bbr = v1();
    set_path(&mut bbr, 1_000_000, 100);
    bbr.bw_at_last_round = 1_000_000;
    bbr.recovery_state = RecoveryState::Growth;
    bbr.check_if_full_bw_reached(false);
    assert!(bbr.is_at_full_bandwidth);
}

#[test]
fn startup_drains_and_then_probes() {
    let mut bbr = v1();
    set_path(&mut bbr, 10_000_000, 40);
    bbr.is_at_full_bandwidth = true;
    bbr.maybe_exit_startup_or_drain(START, 500_000);
    assert_eq!(bbr.mode, Mode::Drain);
    assert_eq!(bbr.pacing_gain, DEFAULT_DRAIN_GAIN);
    assert_eq!(bbr.cwnd_gain, DEFAULT_HIGH_GAIN);
    bbr.maybe_exit_startup_or_drain(START, 400_001);
    assert_eq!(bbr.mode, Mode::Drain);
    bbr.maybe_exit_startup_or_drain(START, 400_000);
    assert_eq!(bbr.mode, Mode::ProbeBw);
}

#[test]
fn gain_cycle_goes_round() {
    let mut bbr = v1();
    set_path(&mut bbr, 10_000_000, 40);
    bbr.begin_probe_bandwidth(START, 0);
    assert_eq!(bbr.pacing_gain, CYCLE_PROBE_GAIN);
    // The probe must fill the path first: 500000 bytes.
    bbr.prev_in_flight_count = 499_999;
    bbr.update_gain_cycle_phase(after_millis(100), 0);
    assert_eq!(bbr.current_cycle_offset, 0);
    bbr.prev_in_flight_count = 500_000;
    bbr.update_gain_cycle_phase(after_millis(40), 0);
    assert_eq!(bbr.current_cycle_offset, 0);
    bbr.update_gain_cycle_phase(after_millis(41), 0);
    assert_eq!(bbr.current_cycle_offset, 1);
    assert_eq!(bbr.pacing_gain, CYCLE_DRAIN_GAIN);
    // The drain is over as soon as the flight is down.
    bbr.update_gain_cycle_phase(after_millis(42), 400_001);
    assert_eq!(bbr.current_cycle_offset, 1);
    bbr.update_gain_cycle_phase(after_millis(42), 400_000);
    assert_eq!(bbr.current_cycle_offset, 2);
    assert_eq!(bbr.pacing_gain, UNIT_GAIN);
    for step in 3..8 {
        bbr.update_gain_cycle_phase(after_millis(42 + 41 * (step - 2)), 0);
        assert_eq!(bbr.current_cycle_offset as u64, step);
    }
    bbr.update_gain_cycle_phase(after_millis(1_000), 0);
    assert_eq!(bbr.current_cycle_offset, 0);
    assert_eq!(bbr.pacing_gain, CYCLE_PROBE_GAIN);
}

#[test]
fn long_drain_keeps_its_low_gain() {
    let mut bbr = v1();
    set_path(&mut bbr, 10_000_000, 40);
    bbr.begin_probe_bandwidth(START, 0);
    bbr.current_cycle_offset = 1;
    bbr.pacing_gain = CYCLE_DRAIN_GAIN;
    bbr.update_gain_cycle_phase(after_millis(41), 450_000);
    assert_eq!(bbr.current_cycle_offset, 2);
    assert_eq!(bbr.pacing_gain, CYCLE_DRAIN_GAIN);
}

#[test]
fn min_rtt_is_measured_every_ten_seconds() {
    let mut bbr = v1();
    set_path(&mut bbr, 10_000_000, 40);
    bbr.is_at_full_bandwidth = true;
    bbr.begin_probe_bandwidth(START, 1);
    bbr.probe_rtt_last_started_at = Some(START);
    assert!(!bbr.is_min_rtt_expired(after_millis(10_000), false));
    assert!(bbr.is_min_rtt_expired(after_millis(10_001), false));
    assert!(!bbr.is_min_rtt_expired(after_millis(10_001), true));
    bbr.maybe_enter_or_exit_probe_rtt(after_millis(10_001), false, 400_000, false);
    assert_eq!(bbr.mode, Mode::ProbeRtt);
    assert_eq!(bbr.pacing_gain, UNIT_GAIN);
    assert_eq!(bbr.exit_probe_rtt_at, None);
    assert_eq!(bbr.window(), 300_000);
    // The flight must come down to less than one packet above the window.
    bbr.maybe_enter_or_exit_probe_rtt(after_millis(10_002), true, 301_200, false);
    assert_eq!(bbr.exit_probe_rtt_at, None);
    bbr.maybe_enter_or_exit_probe_rtt(after_millis(10_003), true, 301_199, false);
    assert_eq!(bbr.exit_probe_rtt_at, Some(after_millis(10_203)));
    bbr.maybe_enter_or_exit_probe_rtt(after_millis(10_202), true, 0, false);
    assert_eq!(bbr.mode, Mode::ProbeRtt);
    bbr.maybe_enter_or_exit_probe_rtt(after_millis(10_203), false, 0, false);
    assert_eq!(bbr.mode, Mode::ProbeRtt);
    bbr.maybe_enter_or_exit_probe_rtt(after_millis(10_203), true, 0, false);
    assert_eq!(bbr.mode, Mode::ProbeBw);
}

#[test]
fn probe_rtt_falls_back_to_startup() {
    let mut bbr = v1();
    bbr.mode = Mode::ProbeRtt;
    bbr.probe_rtt_last_started_at = Some(START);
    bbr.exit_probe_rtt_at = Some(START);
    bbr.maybe_enter_or_exit_probe_rtt(START, true, 0, false);
    assert_eq!(bbr.mode, Mode::Startup);
    assert_eq!(bbr.pacing_gain, DEFAULT_HIGH_GAIN);
}

#[test]
fn min_rtt_falls_at_once_and_rises_late() {
    let mut bbr = v1();
    bbr.probe_rtt_last_started_at = Some(START);
    bbr.on_sent(START, 2_400, 2);
    bbr.on_ack(after_millis(1), START, 1_200, 1, false, &rtt_of_millis(0));
    assert_eq!(bbr.min_rtt, Duration::default());
    bbr.min_rtt = Duration::from_millis(30);
    bbr.on_ack(after_millis(1), START, 100, 1, false, &rtt_of_millis(20));
    assert_eq!(bbr.min_rtt, Duration::from_millis(20));
    bbr.on_ack(after_millis(2), START, 100, 1, false, &rtt_of_millis(25));
    assert_eq!(bbr.min_rtt, Duration::from_millis(20));
    bbr.on_ack(after_millis(10_001), START, 100, 1, false, &rtt_of_millis(25));
    assert_eq!(bbr.min_rtt, Duration::from_millis(25));
}

#[test]
fn window_moves_towards_its_target() {
    let mut bbr = v1();
    set_path(&mut bbr, 10_000_000, 40);
    bbr.mode = Mode::ProbeBw;
    bbr.cwnd_gain = DERIVED_HIGH_CWND_GAIN;
    bbr.is_at_full_bandwidth = true;
    bbr.cwnd = 700_000;
    bbr.calculate_cwnd(50_000, 0);
    assert_eq!(bbr.cwnd, 750_000);
    bbr.calculate_cwnd(90_000, 0);
    assert_eq!(bbr.cwnd, 800_000);
    bbr.ack_aggregation.max_ack_height.update_max(0, 5_000);
    bbr.calculate_cwnd(90_000, 0);
    assert_eq!(bbr.cwnd, 805_000);
    bbr.mode = Mode::ProbeRtt;
    bbr.calculate_cwnd(90_000, 0);
    assert_eq!(bbr.cwnd, 805_000);
    let mut young = v1();
    young.cwnd = 100;
    young.calculate_cwnd(50, 0);
    assert_eq!(young.cwnd, young.min_cwnd);
}

#[test]
fn recovery_begins_with_loss_and_ends_with_a_clean_round() {
    let mut bbr = v1();
    bbr.on_sent(START, 12_000, 10);
    let event = CongestionEvent::Loss { largest_lost_packet_number: Some(3), lost_bytes: 1_200 };
    bbr.on_congestion_event(START, START, event, false);
    bbr.on_ack(after_millis(10), START, 1_200, 5, true, &rtt_of_millis(10));
    bbr.on_end_acks(after_millis(10), 8_400, true, Some(5));
    assert_eq!(bbr.recovery_state, RecoveryState::Conservation);
    assert_eq!(bbr.recovery_window, 9_600);
    assert_eq!(bbr.end_recovery_at_packet_number, 10);
    assert_eq!(bbr.current_round_trip_end_packet_number, 10);
    assert_eq!(bbr.loss_state.congestion_lost_bytes(), 0);
    // In Startup the recovery window does not bind yet.
    assert_eq!(bbr.window(), bbr.cwnd);
    bbr.mode = Mode::ProbeBw;
    assert_eq!(bbr.window(), 9_600);
    // Everything up to packet 10 has to be acknowledged.
    bbr.on_ack(after_millis(12), START, 1_200, 10, true, &rtt_of_millis(10));
    bbr.on_end_acks(after_millis(12), 7_200, true, Some(10));
    assert_eq!(bbr.recovery_state, RecoveryState::Conservation);
    assert_eq!(bbr.recovery_window, 9_600);
    bbr.on_sent(after_millis(12), 1_200, 11);
    bbr.on_ack(after_millis(20), after_millis(12), 1_200, 11, true, &rtt_of_millis(10));
    bbr.on_end_acks(after_millis(20), 6_000, true, Some(11));
    assert_eq!(bbr.recovery_state, RecoveryState::NotInRecovery);
}

#[test]
fn recovery_window_shrinks_and_grows() {
    let mut bbr = v1();
    bbr.recovery_state = RecoveryState::Conservation;
    bbr.recovery_window = 50_000;
    bbr.calculate_recovery_window(1_000, 10_000, 20_000);
    assert_eq!(bbr.recovery_window, 40_000);
    bbr.recovery_state = RecoveryState::Growth;
    bbr.calculate_recovery_window(1_000, 0, 20_000);
    assert_eq!(bbr.recovery_window, 41_000);
    // More was lost than the window held.
    bbr.calculate_recovery_window(1_000, 99_000, 3_000);
    assert_eq!(bbr.recovery_window, 4_800);
    bbr.recovery_state = RecoveryState::NotInRecovery;
    bbr.calculate_recovery_window(1_000, 99_000, 90_000);
    assert_eq!(bbr.recovery_window, 4_800);
}

#[test]
fn conservation_turns_into_growth_with_a_round() {
    let mut bbr = v1();
    bbr.recovery_state = RecoveryState::Conservation;
    bbr.end_recovery_at_packet_number = 10;
    bbr.update_recovery_state(false);
    assert_eq!(bbr.recovery_state, RecoveryState::Conservation);
    bbr.update_recovery_state(true);
    assert_eq!(bbr.recovery_state, RecoveryState::Growth);
    bbr.max_acked_packet_number = 11;
    bbr.update_recovery_state(true);
    assert_eq!(bbr.recovery_state, RecoveryState::NotInRecovery);
}

#[test]
fn rounds_are_counted_by_packet_number() {
    let mut bbr = v1();
    bbr.on_sent(START, 12_000, 10);
    bbr.on_ack(after_millis(10), START, 1_200, 1, false, &rtt_of_millis(10));
    bbr.on_end_acks(after_millis(10), 10_800, false, Some(1));
    assert_eq!(bbr.round_count, 1);
    bbr.on_ack(after_millis(11), START, 1_200, 10, false, &rtt_of_millis(10));
    bbr.on_end_acks(after_millis(11), 9_600, false, Some(10));
    assert_eq!(bbr.round_count, 1);
    bbr.on_sent(after_millis(11), 1_200, 11);
    // A batch that acknowledges nothing begins no round.
    bbr.on_end_acks(after_millis(12), 9_600, false, Some(11));
    assert_eq!(bbr.round_count, 1);
    bbr.on_ack(after_millis(21), after_millis(11), 1_200, 11, false, &rtt_of_millis(10));
    bbr.on_end_acks(after_millis(21), 8_400, false, None);
    assert_eq!(bbr.round_count, 2);
}

#[test]
fn locally_tracked_flight_follows_the_reports() {
    let mut bbr = v1();
    bbr.on_packet_sent(START, 1_200, 4);
    bbr.on_packet_sent(START, 800, 3);
    assert_eq!(bbr.tracked_in_flight, 2_000);
    assert_eq!(bbr.max_sent_packet_number, 4);
    assert!(bbr.sent_packets.is_empty());
    bbr.on_packet_lost(1_500, 4, START);
    assert_eq!(bbr.tracked_in_flight, 500);
    bbr.on_packet_lost(1_500, 3, START);
    assert_eq!(bbr.tracked_in_flight, 0);
    bbr.on_end_acks(START, 700, false, None);
    assert_eq!(bbr.tracked_in_flight, 700);
    assert_eq!(bbr.prev_in_flight_count, 700);
}

#[test]
fn reports_without_meaning_for_bbr_change_nothing() {
    let mut bbr = v1();
    let before = format!("{bbr:?}");
    bbr.on_spurious_congestion_event();
    bbr.on_ack_frequency_update(10, Duration::from_millis(25));
    assert_eq!(format!("{bbr:?}"), before);
}

#[test]
fn new_mtu_lifts_the_window_limits() {
    let mut config = BbrConfig::default();
    config.initial_window(5_000);
    let mut bbr = Bbr::new(Arc::new(config), MTU);
    bbr.on_mtu_update(9_000);
    assert_eq!(bbr.min_cwnd, 36_000);
    assert_eq!(bbr.init_cwnd, 36_000);
    assert_eq!(bbr.cwnd, 36_000);
    assert_eq!(bbr.window(), 36_000);
    bbr.on_mtu_update(1_200);
    assert_eq!(bbr.min_cwnd, 4_800);
    assert_eq!(bbr.init_cwnd, 5_000);
    assert_eq!(bbr.cwnd, 36_000);
}

#[test]
fn window_is_held_to_the_bounds_but_not_below_four_packets() {
    let mut bbr = v2_full();
    bbr.mode = Mode::ProbeBw;
    bbr.probe_bw_phase = ProbeBwPhase::Cruise;
    bbr.cwnd = 500_000;
    bbr.inflight_hi = 400_000;
    assert_eq!(bbr.window(), 340_000);
    bbr.inflight_lo = 300_000;
    assert_eq!(bbr.window(), 300_000);
    bbr.inflight_lo = 10;
    assert_eq!(bbr.window(), bbr.min_cwnd);
    bbr.cwnd = 1_000;
    assert_eq!(bbr.window(), 1_000);
    bbr.cwnd = 500_000;
    bbr.probe_bw_phase = ProbeBwPhase::Up;
    assert_eq!(bbr.window(), 400_000);
}

#[test]
fn long_term_bound_grows_faster_from_round_to_round() {
    let mut bbr = v2_full();
    bbr.mode = Mode::ProbeBw;
    bbr.bbrv2_start_probe_bw_up(START);
    bbr.inflight_hi = 100_000;
    bbr.cwnd = 120_000;
    // In the first round one packet for each window.
    bbr.bbrv2_probe_up_inflight_hi(119_999, true, 100_000);
    assert_eq!(bbr.inflight_hi, 100_000);
    bbr.bbrv2_probe_up_inflight_hi(1, false, 100_000);
    assert_eq!(bbr.inflight_hi, 101_200);
    assert_eq!(bbr.probe_up_acked, 0);
    // In the second round one for each half of it.
    bbr.bbrv2_probe_up_inflight_hi(120_500, true, 100_000);
    assert_eq!(bbr.inflight_hi, 103_600);
    assert_eq!(bbr.probe_up_acked, 500);
    // A bound that is not reached does not grow.
    bbr.cwnd = 50_000;
    bbr.bbrv2_probe_up_inflight_hi(50_000, false, 1_000);
    assert_eq!(bbr.inflight_hi, 103_600);
    assert_eq!(bbr.probe_up_acked, 0);
}

#[test]
fn loss_outside_of_probing_takes_three_tenths() {
    let mut bbr = v2_full();
    set_path(&mut bbr, 1_000_000, 10);
    bbr.mode = Mode::ProbeBw;
    bbr.cwnd = 200_000;
    bbr.bbrv2_handle_congestion_signal(START, 50_000, true);
    assert_eq!(bbr.inflight_lo, 140_000);
    assert_eq!(bbr.bw_lo, u64::MAX);
    assert_eq!(bbr.inflight_hi, u64::MAX);
    bbr.bbrv2_handle_congestion_signal(START, 120_000, false);
    assert_eq!(bbr.inflight_lo, 120_000);
    assert_eq!(bbr.bw_lo, 1_000_000);
}

/// Runs a bulk transfer over a path of 10 MB/s and 20 ms, and looks at the
/// controller after every round.
fn transfer(bbr: &mut Bbr, rounds: u64, loss_every: u64) {
    let mut number = 0;
    let mut was_full = bbr.is_at_full_bandwidth;
    for round in 0..rounds {
        let now = after_millis(round * 20);
        let packets = (bbr.window() / BASE_DATAGRAM_SIZE).min(170);
        for i in 0..packets {
            number += 1;
            let sent = now.plus(Duration::from_micros(i * 118));
            bbr.on_sent(sent, BASE_DATAGRAM_SIZE, number);
            bbr.on_packet_sent(sent, MTU, number);
        }
        let first = number + 1 - packets;
        for i in 0..packets {
            let sent = now.plus(Duration::from_micros(i * 118));
            let acked = sent.plus(Duration::from_millis(20));
            if loss_every != 0 && round % loss_every == 0 && i < 8 {
                bbr.on_packet_lost(MTU, first + i, acked);
                let event = CongestionEvent::Loss {
                    largest_lost_packet_number: Some(first + i),
                    lost_bytes: BASE_DATAGRAM_SIZE,
                };
                bbr.on_congestion_event(acked, sent, event, false);
                continue;
            }
            bbr.on_ack(acked, sent, BASE_DATAGRAM_SIZE, first + i, false, &rtt_of_millis(20));
            let in_flight = (packets - i - 1) * BASE_DATAGRAM_SIZE;
            let before = bbr.clone();
            bbr.on_end_acks(acked, in_flight, false, Some(first + i));
            assert!(bbr.cwnd >= bbr.min_cwnd);
            assert!(bbr.current_cycle_offset < 8);
            assert!(bbr.round_count - before.round_count <= 1);
            assert_eq!(bbr.max_bandwidth.bytes_acked_this_window(), 0);
            if !bbr.is_at_full_bandwidth {
                assert!(bbr.cwnd >= before.cwnd);
                assert!(bbr.pacing_rate >= before.pacing_rate);
            }
            if bbr.recovery_state.in_recovery() {
                assert!(bbr.recovery_window >= in_flight + BASE_DATAGRAM_SIZE);
                assert!(bbr.recovery_window >= bbr.min_cwnd);
            }
            if bbr.inflight_hi < before.inflight_hi {
                assert!(before.bbrv2_is_probing_bandwidth());
            }
            assert!(!was_full || bbr.is_at_full_bandwidth);
            was_full = bbr.is_at_full_bandwidth;
        }
    }
}

#[test]
fn v1_transfer_finds_the_path() {
    let mut bbr = v1();
    transfer(&mut bbr, 60, 0);
    assert!(bbr.is_at_full_bandwidth);
    let estimate = bbr.max_bandwidth.get_estimate();
    assert!((9_000_000..11_500_000).contains(&estimate), "estimate {estimate}");
    assert_eq!(bbr.inflight_hi, u64::MAX);
    assert_eq!(bbr.inflight_lo, u64::MAX);
    assert!(bbr.sent_packets.is_empty());
}

#[test]
fn v1_transfer_with_loss_keeps_its_bounds_open() {
    let mut bbr = v1();
    transfer(&mut bbr, 60, 5);
    assert_eq!(bbr.inflight_hi, u64::MAX);
    assert_eq!(bbr.inflight_lo, u64::MAX);
    assert_eq!(bbr.bw_lo, u64::MAX);
}

#[test]
fn v2_transfer_without_the_full_model_installs_no_bound() {
    let mut bbr = *Arc::new(BbrV2Config::default()).build(START, MTU);
    transfer(&mut bbr, 60, 5);
    bbr.on_mtu_update(1_500);
    assert_eq!(bbr.version, BbrVersion::V2);
    assert_eq!(bbr.inflight_hi, u64::MAX);
    assert_eq!(bbr.inflight_lo, u64::MAX);
    assert_eq!(bbr.bw_lo, u64::MAX);
    assert!(bbr.sent_packets.is_empty());
}

#[test]
fn only_the_first_of_two_signals_lowers_the_long_term_bound() {
    let mut bbr = v2_full();
    set_path(&mut bbr, 10_000_000, 40);
    bbr.mode = Mode::ProbeBw;
    bbr.bbrv2_start_probe_bw_up(START);
    bbr.bbrv2_handle_congestion_signal(START, 350_000, false);
    assert_eq!(bbr.inflight_hi, 350_000);
    assert_eq!(bbr.probe_bw_phase, ProbeBwPhase::Down);
    assert!(!bbr.bw_probe_samples);
    bbr.bbrv2_handle_congestion_signal(START, 1_000, false);
    assert_eq!(bbr.inflight_hi, 350_000);
    // Seven tenths of the model is the least that a first one leaves.
    bbr.bbrv2_start_probe_bw_up(START);
    bbr.bbrv2_handle_congestion_signal(START, 1_000, false);
    assert_eq!(bbr.inflight_hi, 280_000);
}

#[test]
fn generator_moves_only_where_a_number_is_drawn() {
    let mut full = v2_full();
    let before = full.random_number_generator.clone();
    full.enter_probe_bandwidth_mode(START);
    assert_eq!(full.random_number_generator, before);

    let mut bbr = v1();
    set_path(&mut bbr, 10_000_000, 40);
    let before = bbr.random_number_generator.clone();
    bbr.maybe_exit_startup_or_drain(START, 0);
    assert_eq!(bbr.random_number_generator, before);
    bbr.is_at_full_bandwidth = true;
    bbr.maybe_exit_startup_or_drain(START, 400_001);
    assert_eq!(bbr.random_number_generator, before);
    bbr.maybe_exit_startup_or_drain(START, 400_000);
    assert_ne!(bbr.random_number_generator, before);

    let before = bbr.random_number_generator.clone();
    bbr.maybe_enter_or_exit_probe_rtt(START, true, 0, false);
    assert_eq!(bbr.mode, Mode::ProbeRtt);
    bbr.maybe_enter_or_exit_probe_rtt(after_millis(100), true, 0, false);
    assert_eq!(bbr.random_number_generator, before);
    bbr.maybe_enter_or_exit_probe_rtt(after_millis(200), true, 0, false);
    assert_eq!(bbr.mode, Mode::ProbeBw);
    assert_ne!(bbr.random_number_generator, before);
    let before = bbr.random_number_generator.clone();
    bbr.on_end_acks(after_millis(200), 0, true, None);
    assert_eq!(bbr.random_number_generator, before);
}

#[test]
fn quiescence_holds_probe_rtt_back_once() {
    let mut bbr = v1();
    bbr.exiting_quiescence = true;
    bbr.maybe_enter_or_exit_probe_rtt(START, true, 0, false);
    assert_eq!(bbr.mode, Mode::Startup);
    assert!(!bbr.exiting_quiescence);
    bbr.maybe_enter_or_exit_probe_rtt(START, true, 0, true);
    assert_eq!(bbr.mode, Mode::Startup);
    bbr.maybe_enter_or_exit_probe_rtt(START, true, 0, false);
    assert_eq!(bbr.mode, Mode::ProbeRtt);
    assert_eq!(bbr.probe_rtt_last_started_at, Some(START));
}

#[test]
fn v1_transfer_does_not_depend_on_the_bounds() {
    let mut bbr = v1();
    let mut bounded = bbr.clone();
    bounded.inflight_hi = 1;
    bounded.inflight_lo = 2;
    bounded.bw_lo = 3;
    transfer(&mut bbr, 40, 6);
    transfer(&mut bounded, 40, 6);
    assert_eq!(
        (bounded.inflight_hi, bounded.inflight_lo, bounded.bw_lo),
        (1, 2, 3)
    );
    bounded.inflight_hi = u64::MAX;
    bounded.inflight_lo = u64::MAX;
    bounded.bw_lo = u64::MAX;
    assert_eq!(format!("{bounded:?}"), format!("{bbr:?}"));
}

#[test]
fn v2_transfer_with_loss_keeps_a_usable_window() {
    let mut bbr = v2_full();
    transfer(&mut bbr, 80, 7);
    assert!(bbr.window() >= bbr.min_cwnd);
    assert!(bbr.sent_packets.len() <= bbr.sent_packet_model_limit());
}
