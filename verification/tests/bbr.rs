use std::sync::Arc;

use quinn_proto::congestion::bbr2::config::{BbrConfig, BbrV2Config};
use quinn_proto::congestion::bbr2::loss_state::LossState;
use quinn_proto::congestion::bbr2::model::{
    BBR2_PROBE_DOWN_PACING_GAIN, BBR2_PROBE_UP_CWND_GAIN, BBR2_PROBE_UP_PACING_GAIN,
};
use quinn_proto::congestion::bbr2::{Bbr, BbrVersion, Mode, ProbeBwPhase};
use quinn_proto::congestion::{
    CongestionEvent, Controller, ControllerFactory, BASE_DATAGRAM_SIZE,
};
use quinn_proto::gain::UNIT_GAIN;
use quinn_proto::time::{Duration, Instant};

const START: Instant = Instant { nanos: 1_000_000_000_000 };

fn ack_round_bytes(bbr: &mut Bbr, now: Instant, bytes: u64) {
    bbr.max_bandwidth
        .on_ack(now, now, bytes, bbr.round_count, false);
}

#[test]
fn bbrv1_treats_any_batch_loss_as_congestion() {
    let mut loss = LossState::default();
    loss.record_loss(BASE_DATAGRAM_SIZE, false, None, None);
    loss.record_delivered(10 * 1024 * 1024);
    loss.classify_congestion_signal(BbrVersion::V1, BASE_DATAGRAM_SIZE, 1);

    assert!(loss.has_congestion_losses());
    assert_eq!(loss.congestion_lost_bytes(), BASE_DATAGRAM_SIZE);
}

#[test]
fn bbrv2_ignores_tiny_random_loss_below_threshold() {
    let mut loss = LossState::default();
    loss.record_loss(3 * BASE_DATAGRAM_SIZE, false, None, None);
    loss.record_delivered(10 * 1024 * 1024);
    loss.classify_congestion_signal(BbrVersion::V2, BASE_DATAGRAM_SIZE, 1);

    assert!(!loss.has_congestion_losses());
    assert_eq!(loss.congestion_lost_bytes(), 0);
}

#[test]
fn bbrv2_treats_loss_above_round_threshold_as_congestion() {
    let mut loss = LossState::default();
    loss.record_loss(4 * BASE_DATAGRAM_SIZE, false, None, None);
    loss.record_delivered(100 * BASE_DATAGRAM_SIZE);
    loss.classify_congestion_signal(BbrVersion::V2, BASE_DATAGRAM_SIZE, 1);

    assert!(loss.has_congestion_losses());
    assert_eq!(loss.congestion_lost_bytes(), 4 * BASE_DATAGRAM_SIZE);
}

#[test]
fn bbrv2_defers_attributed_loss_until_sent_round_completes() {
    let mut loss = LossState::default();
    loss.record_loss(4 * BASE_DATAGRAM_SIZE, false, Some(7), Some(800_000));
    loss.record_delivered(100 * BASE_DATAGRAM_SIZE);

    loss.classify_congestion_signal(BbrVersion::V2, BASE_DATAGRAM_SIZE, 7);
    assert!(
        !loss.has_congestion_losses(),
        "loss attributed to the current packet-timed round should wait for the round boundary"
    );

    loss.classify_congestion_signal(BbrVersion::V2, BASE_DATAGRAM_SIZE, 8);
    assert!(loss.has_congestion_losses());
}

#[test]
fn bbrv2_keeps_persistent_congestion_signal() {
    let mut loss = LossState::default();
    loss.record_loss(BASE_DATAGRAM_SIZE, true, None, None);
    loss.record_delivered(10 * 1024 * 1024);
    loss.classify_congestion_signal(BbrVersion::V2, BASE_DATAGRAM_SIZE, 1);

    assert!(loss.has_congestion_losses());
    assert_eq!(loss.congestion_lost_bytes(), BASE_DATAGRAM_SIZE);
}

#[test]
fn bbrv1_treats_any_ecn_ce_signal_as_congestion() {
    let mut loss = LossState::default();
    loss.record_ecn(1, false);
    loss.record_delivered(100 * BASE_DATAGRAM_SIZE);
    loss.classify_congestion_signal(BbrVersion::V1, BASE_DATAGRAM_SIZE, 1);

    assert!(loss.has_congestion_losses());
    assert_eq!(loss.congestion_lost_bytes(), BASE_DATAGRAM_SIZE);
}

#[test]
fn bbrv2_ignores_tiny_ecn_ce_signal_below_threshold() {
    let mut loss = LossState::default();
    loss.record_ecn(3, false);
    loss.record_delivered(10 * 1024 * 1024);
    loss.classify_congestion_signal(BbrVersion::V2, BASE_DATAGRAM_SIZE, 1);

    assert!(!loss.has_congestion_losses());
    assert_eq!(loss.congestion_lost_bytes(), 0);
}

#[test]
fn bbrv2_treats_ecn_ce_above_round_threshold_as_congestion() {
    let mut loss = LossState::default();
    loss.record_ecn(4, false);
    loss.record_delivered(100 * BASE_DATAGRAM_SIZE);
    loss.classify_congestion_signal(BbrVersion::V2, BASE_DATAGRAM_SIZE, 1);

    assert!(loss.has_congestion_losses());
    assert_eq!(loss.congestion_lost_bytes(), 4 * BASE_DATAGRAM_SIZE);
}

#[test]
fn bbrv2_config_builds_v2_controller() {
    let controller = Arc::new(BbrV2Config::default()).build(START, BASE_DATAGRAM_SIZE as u16);
    let bbr: Box<Bbr> = controller.into_any();

    assert_eq!(bbr.version, BbrVersion::V2);
    assert!(!bbr.config.bbrv2_experimental_inflight_hi_shrink);
}

#[test]
fn bbrv2_config_can_enable_full_model() {
    let mut cfg = BbrV2Config::default();
    cfg.full_model(true);
    let controller = Arc::new(cfg).build(START, BASE_DATAGRAM_SIZE as u16);
    let bbr: Box<Bbr> = controller.into_any();

    assert_eq!(bbr.version, BbrVersion::V2);
    assert!(bbr.config.bbrv2_experimental_inflight_hi_shrink);
}

#[test]
fn bbrv2_default_does_not_shrink_inflight_hi_on_congestion_signal() {
    let mut bbr = Bbr::new_with_version(
        Arc::new(BbrConfig::default()),
        BASE_DATAGRAM_SIZE as u16,
        BbrVersion::V2,
    );

    bbr.loss_state
        .record_loss(4 * BASE_DATAGRAM_SIZE, false, None, None);
    ack_round_bytes(&mut bbr, START, 100 * BASE_DATAGRAM_SIZE);
    bbr.on_end_acks(START, 1_000_000, false, Some(1));

    assert_eq!(
        bbr.inflight_hi,
        u64::MAX,
        "default bbrv2 keeps inflight_hi unconstrained until the experimental shrink flag is enabled"
    );
}

#[test]
fn bbrv2_full_model_adapts_inflight_hi_on_congestion_signal() {
    let mut cfg = BbrConfig::default();
    cfg.bbrv2_experimental_inflight_hi_shrink = true;
    let mut bbr =
        Bbr::new_with_version(Arc::new(cfg), BASE_DATAGRAM_SIZE as u16, BbrVersion::V2);
    bbr.mode = Mode::ProbeBw;
    bbr.probe_bw_phase = ProbeBwPhase::Up;
    bbr.pacing_gain = BBR2_PROBE_UP_PACING_GAIN;
    bbr.bw_probe_samples = true;

    bbr.loss_state
        .record_loss(4 * BASE_DATAGRAM_SIZE, false, None, None);
    ack_round_bytes(&mut bbr, START, 100 * BASE_DATAGRAM_SIZE);
    bbr.on_end_acks(START, 1_000_000, false, Some(1));

    assert_eq!(
        bbr.inflight_hi, 1_000_000,
        "upper-bound adaptation must preserve the flight observed at send time"
    );
}

#[test]
fn bbrv2_non_probing_loss_sets_short_term_bounds_only() {
    let mut cfg = BbrConfig::default();
    cfg.bbrv2_experimental_inflight_hi_shrink = true;
    let mut bbr =
        Bbr::new_with_version(Arc::new(cfg), BASE_DATAGRAM_SIZE as u16, BbrVersion::V2);
    bbr.mode = Mode::ProbeBw;
    bbr.pacing_gain = UNIT_GAIN;
    bbr.inflight_hi = 1_000_000;

    bbr.loss_state
        .record_loss(4 * BASE_DATAGRAM_SIZE, false, None, None);
    ack_round_bytes(&mut bbr, START, 100 * BASE_DATAGRAM_SIZE);
    bbr.on_end_acks(START, 500_000, false, Some(1));

    assert_eq!(
        bbr.inflight_hi, 1_000_000,
        "non-probing loss must not reduce the long-term inflight bound"
    );
    assert!(
        bbr.inflight_lo < u64::MAX,
        "non-probing loss should reduce the short-term inflight bound"
    );
}

#[test]
fn bbrv2_probing_loss_shrinks_long_term_and_enters_down() {
    let mut cfg = BbrConfig::default();
    cfg.bbrv2_experimental_inflight_hi_shrink = true;
    let mut bbr =
        Bbr::new_with_version(Arc::new(cfg), BASE_DATAGRAM_SIZE as u16, BbrVersion::V2);
    bbr.mode = Mode::ProbeBw;
    bbr.probe_bw_phase = ProbeBwPhase::Up;
    bbr.pacing_gain = BBR2_PROBE_UP_PACING_GAIN;
    bbr.bw_probe_samples = true;
    let now = START;
    bbr.min_rtt = Duration::from_millis(100);
    bbr.probe_rtt_last_started_at = Some(now);

    bbr.loss_state
        .record_loss(4 * BASE_DATAGRAM_SIZE, false, None, None);
    ack_round_bytes(&mut bbr, now, 100 * BASE_DATAGRAM_SIZE);
    bbr.on_end_acks(now, 1_000_000, false, Some(1));

    assert_eq!(bbr.inflight_hi, 1_000_000);
    assert!(
        bbr.pacing_gain < UNIT_GAIN,
        "a probing loss should immediately move ProbeBW back to DOWN"
    );
}

#[test]
fn bbrv2_loss_uses_tx_in_flight_from_lost_packet_model() {
    let mut cfg = BbrConfig::default();
    cfg.bbrv2_experimental_inflight_hi_shrink = true;
    let mut bbr =
        Bbr::new_with_version(Arc::new(cfg), BASE_DATAGRAM_SIZE as u16, BbrVersion::V2);
    bbr.mode = Mode::ProbeBw;
    bbr.probe_bw_phase = ProbeBwPhase::Up;
    bbr.pacing_gain = BBR2_PROBE_UP_PACING_GAIN;
    bbr.bw_probe_samples = true;
    let now = START;
    bbr.min_rtt = Duration::from_millis(100);
    bbr.probe_rtt_last_started_at = Some(now);
    bbr.remember_sent_packet(10, 900_000, now);

    bbr.on_congestion_event(
        now,
        now,
        CongestionEvent::Loss {
            largest_lost_packet_number: Some(10),
            lost_bytes: 4 * BASE_DATAGRAM_SIZE,
        },
        false,
    );
    ack_round_bytes(&mut bbr, now, 100 * BASE_DATAGRAM_SIZE);
    bbr.on_end_acks(now, 100_000, false, Some(11));

    assert_eq!(
        bbr.inflight_hi, 900_000,
        "BBRv2 should preserve tx_in_flight at send time, not use lower inflight at loss detection"
    );
}

#[test]
fn bbrv2_packet_callbacks_track_flight_and_packet_metadata() {
    let mut cfg = BbrConfig::default();
    cfg.bbrv2_experimental_inflight_hi_shrink = true;
    let mut bbr =
        Bbr::new_with_version(Arc::new(cfg), BASE_DATAGRAM_SIZE as u16, BbrVersion::V2);
    let now = START;

    bbr.on_packet_sent(now, 1200, 10);
    bbr.on_packet_sent(now, 800, 11);

    assert_eq!(bbr.tracked_in_flight, 2000);
    assert_eq!(bbr.sent_packet_model(10).unwrap().tx_in_flight, 1200);
    assert_eq!(bbr.sent_packet_model(11).unwrap().tx_in_flight, 2000);

    bbr.on_packet_lost(1200, 10, now);
    assert_eq!(bbr.tracked_in_flight, 800);

    bbr.on_end_acks(now, 725, false, None);
    assert_eq!(bbr.tracked_in_flight, 725);
}

#[test]
fn bbrv2_reports_pacing_rate_in_bytes_per_second() {
    let mut bbr = Bbr::new_with_version(
        Arc::new(BbrConfig::default()),
        BASE_DATAGRAM_SIZE as u16,
        BbrVersion::V2,
    );
    bbr.pacing_rate = 12_345;

    let metrics = bbr.metrics();
    assert_eq!(metrics.pacing_rate, Some(12_345));
    assert_eq!(metrics.send_quantum, None);
}

#[test]
fn bbrv2_congestion_event_preserves_exact_ce_count() {
    let mut bbr = Bbr::new_with_version(
        Arc::new(BbrConfig::default()),
        BASE_DATAGRAM_SIZE as u16,
        BbrVersion::V2,
    );
    let now = START;

    bbr.on_congestion_event(
        now,
        now,
        CongestionEvent::Ecn {
            ce_count: 7,
            largest_acked_packet_number: Some(42),
        },
        false,
    );

    assert_eq!(bbr.loss_state.ecn_ce_count, 7);
    assert_eq!(bbr.loss_state.round_ecn_ce_count, 7);
}

#[test]
fn bbrv2_packet_model_retains_large_flight_metadata() {
    let mut bbr = Bbr::new_with_version(
        Arc::new(BbrConfig::default()),
        BASE_DATAGRAM_SIZE as u16,
        BbrVersion::V2,
    );
    bbr.cwnd = 20_000 * BASE_DATAGRAM_SIZE;
    let now = START;

    for packet_number in 1..=10_000 {
        bbr.remember_sent_packet(
            packet_number,
            packet_number * BASE_DATAGRAM_SIZE,
            now.plus(Duration::from_micros(packet_number)),
        );
    }

    assert!(
        bbr.sent_packet_model(1).is_some(),
        "BBRv2's sent-packet model should scale with flight size instead of evicting at 4096 packets"
    );
    assert!(bbr.sent_packets.len() <= bbr.sent_packet_model_limit());
}

#[test]
fn bbrv2_latest_delivery_signals_use_packet_rate_sample() {
    let mut cfg = BbrConfig::default();
    cfg.bbrv2_experimental_inflight_hi_shrink = true;
    let mut bbr =
        Bbr::new_with_version(Arc::new(cfg), BASE_DATAGRAM_SIZE as u16, BbrVersion::V2);
    let now = START;
    bbr.delivered_bytes = 10_000;
    bbr.delivered_time = Some(now);
    bbr.remember_sent_packet(7, 500_000, now);

    bbr.bbrv2_update_latest_delivery_signals(
        now.plus(Duration::from_millis(100)),
        7,
        110_000,
        false,
    );

    assert_eq!(bbr.inflight_latest, 500_000);
    assert_eq!(bbr.bw_latest, 1_000_000);
    assert_eq!(
        bbr.max_bandwidth.get_estimate(),
        1_000_000,
        "non-app-limited BBRv2 packet samples should feed the max bandwidth model"
    );
}

#[test]
fn bbrv2_probe_bw_phase_sequence_sets_expected_gains() {
    let mut cfg = BbrConfig::default();
    cfg.bbrv2_experimental_inflight_hi_shrink = true;
    let mut bbr =
        Bbr::new_with_version(Arc::new(cfg), BASE_DATAGRAM_SIZE as u16, BbrVersion::V2);
    let now = START;
    bbr.min_rtt = Duration::from_millis(10);
    bbr.probe_rtt_last_started_at = Some(now);

    bbr.enter_probe_bandwidth_mode(now);
    assert_eq!(bbr.probe_bw_phase, ProbeBwPhase::Down);
    assert_eq!(bbr.pacing_gain, BBR2_PROBE_DOWN_PACING_GAIN);

    bbr.bbrv2_update_probe_bw_phase(now.plus(Duration::from_millis(1)), 0, false);
    assert_eq!(bbr.probe_bw_phase, ProbeBwPhase::Cruise);
    assert_eq!(bbr.pacing_gain, UNIT_GAIN);

    bbr.bbrv2_update_probe_bw_phase(now.plus(Duration::from_millis(100)), 0, false);
    assert_eq!(bbr.probe_bw_phase, ProbeBwPhase::Refill);
    assert!(bbr.bw_probe_samples);

    bbr.bbrv2_update_probe_bw_phase(now.plus(Duration::from_millis(101)), 0, true);
    assert_eq!(bbr.probe_bw_phase, ProbeBwPhase::Up);
    assert_eq!(bbr.cwnd_gain, BBR2_PROBE_UP_CWND_GAIN);
}

#[test]
fn bbrv2_probe_bw_up_waits_for_min_rtt_before_down() {
    let mut cfg = BbrConfig::default();
    cfg.bbrv2_experimental_inflight_hi_shrink = true;
    let mut bbr =
        Bbr::new_with_version(Arc::new(cfg), BASE_DATAGRAM_SIZE as u16, BbrVersion::V2);
    let now = START;
    bbr.mode = Mode::ProbeBw;
    bbr.probe_bw_phase = ProbeBwPhase::Up;
    bbr.pacing_gain = BBR2_PROBE_UP_PACING_GAIN;
    bbr.min_rtt = Duration::from_millis(100);
    bbr.last_cycle_start = Some(now);
    let over_probe_target = bbr.get_target_cwnd(BBR2_PROBE_UP_PACING_GAIN) + BASE_DATAGRAM_SIZE;

    bbr.bbrv2_update_probe_bw_phase(now.plus(Duration::from_millis(50)), over_probe_target, false);
    assert_eq!(
        bbr.probe_bw_phase,
        ProbeBwPhase::Up,
        "ProbeBW_UP should not leave before one min_rtt has elapsed"
    );

    bbr.bbrv2_update_probe_bw_phase(now.plus(Duration::from_millis(101)), over_probe_target, false);
    assert_eq!(
        bbr.probe_bw_phase,
        ProbeBwPhase::Down,
        "ProbeBW_UP should leave after min_rtt once inflight is above the probe target"
    );
}

#[test]
fn bbrv2_probing_loss_does_not_install_long_term_bandwidth_cap() {
    let mut cfg = BbrConfig::default();
    cfg.bbrv2_experimental_inflight_hi_shrink = true;
    let mut bbr =
        Bbr::new_with_version(Arc::new(cfg), BASE_DATAGRAM_SIZE as u16, BbrVersion::V2);
    bbr.mode = Mode::ProbeBw;
    bbr.probe_bw_phase = ProbeBwPhase::Up;
    bbr.pacing_gain = BBR2_PROBE_UP_PACING_GAIN;
    bbr.bw_probe_samples = true;
    bbr.max_bandwidth
        .update_max_bandwidth(1, 100_000_000, false);
    let bandwidth_before = bbr.bbrv2_effective_bandwidth();

    bbr.bbrv2_handle_congestion_signal(START, 1_000_000, false);

    assert_eq!(bbr.bbrv2_effective_bandwidth(), bandwidth_before);
}

#[test]
fn bbrv2_on_end_acks_grows_inflight_hi_before_probe_bw_transition() {
    let mut cfg = BbrConfig::default();
    cfg.bbrv2_experimental_inflight_hi_shrink = true;
    let mut bbr =
        Bbr::new_with_version(Arc::new(cfg), BASE_DATAGRAM_SIZE as u16, BbrVersion::V2);
    let now = START;
    bbr.mode = Mode::ProbeBw;
    bbr.probe_bw_phase = ProbeBwPhase::Up;
    bbr.pacing_gain = BBR2_PROBE_UP_PACING_GAIN;
    bbr.cwnd = 128 * BASE_DATAGRAM_SIZE;
    bbr.inflight_hi = bbr.cwnd;
    bbr.max_sent_packet_number = 10;
    bbr.current_round_trip_end_packet_number = 1;
    bbr.min_rtt = Duration::from_millis(10);
    bbr.probe_rtt_last_started_at = Some(now);

    let before = bbr.inflight_hi;
    let cwnd = bbr.cwnd;
    ack_round_bytes(&mut bbr, now, cwnd);
    bbr.on_end_acks(now, cwnd, false, Some(2));

    assert!(
        bbr.inflight_hi > before,
        "clean ProbeBW_UP ACKs should grow inflight_hi before phase transition checks"
    );
}

#[test]
fn bbrv2_probe_up_grows_inflight_hi_when_limit_is_utilized() {
    let mut cfg = BbrConfig::default();
    cfg.bbrv2_experimental_inflight_hi_shrink = true;
    let mut bbr =
        Bbr::new_with_version(Arc::new(cfg), BASE_DATAGRAM_SIZE as u16, BbrVersion::V2);
    bbr.mode = Mode::ProbeBw;
    bbr.probe_bw_phase = ProbeBwPhase::Up;
    bbr.pacing_gain = BBR2_PROBE_UP_PACING_GAIN;
    bbr.cwnd = 128 * BASE_DATAGRAM_SIZE;
    bbr.inflight_hi = bbr.cwnd;

    let before = bbr.inflight_hi;
    bbr.bbrv2_probe_up_inflight_hi(bbr.cwnd, true, bbr.cwnd);

    assert!(
        bbr.inflight_hi > before,
        "ProbeBW_UP should cautiously grow a utilized long-term bound"
    );
}

#[test]
fn bbrv2_probe_up_resets_short_term_bounds() {
    let mut cfg = BbrConfig::default();
    cfg.bbrv2_experimental_inflight_hi_shrink = true;
    let mut bbr =
        Bbr::new_with_version(Arc::new(cfg), BASE_DATAGRAM_SIZE as u16, BbrVersion::V2);
    bbr.inflight_lo = 64 * BASE_DATAGRAM_SIZE;
    bbr.bw_lo = 1234;

    bbr.bbrv2_start_probe_bw_up(START);

    assert_eq!(bbr.inflight_lo, u64::MAX);
    assert_eq!(bbr.bw_lo, u64::MAX);
    assert!(bbr.pacing_gain > UNIT_GAIN);
}

/// Fresh controllers of either version should have no `inflight_hi`
/// ceiling applied. V1 never sets one; V2 starts with no congestion
/// history, so both must report `u64::MAX`.
#[test]
fn inflight_hi_starts_unconstrained_for_both_versions() {
    let cfg = Arc::new(BbrConfig::default());
    let v1 = Bbr::new(cfg.clone(), BASE_DATAGRAM_SIZE as u16);
    let v2 = Bbr::new_with_version(cfg, BASE_DATAGRAM_SIZE as u16, BbrVersion::V2);
    assert_eq!(v1.inflight_hi, u64::MAX);
    assert_eq!(v2.inflight_hi, u64::MAX);
}

/// V2 preserves the observed inflight-at-send and uses 70% of the modeled
/// target only as a floor, matching BBRv2 upper-bound adaptation.
#[test]
fn bbrv2_inflight_hi_preserves_signal_and_uses_model_floor() {
    let cfg = Arc::new(BbrConfig::default());
    let mut bbr = Bbr::new_with_version(cfg, BASE_DATAGRAM_SIZE as u16, BbrVersion::V2);

    // Large observed flight is retained rather than multiplied by beta.
    let signal_inflight = 1_000_000u64;
    bbr.shrink_inflight_hi_on_signal(signal_inflight);
    assert_eq!(
        bbr.inflight_hi, signal_inflight,
        "the triggering flight must not be reduced a second time"
    );

    // A later lower observation can reduce the bound, but never below the
    // model-derived safety floor.
    let smaller_signal = 300_000u64;
    bbr.shrink_inflight_hi_on_signal(smaller_signal);
    assert_eq!(bbr.inflight_hi, smaller_signal);

    // Tiny signal: floor at 70% of the target or min_cwnd, whichever is
    // larger.
    let mut bbr = Bbr::new_with_version(
        Arc::new(BbrConfig::default()),
        BASE_DATAGRAM_SIZE as u16,
        BbrVersion::V2,
    );
    bbr.shrink_inflight_hi_on_signal(1);
    assert_eq!(
        bbr.inflight_hi,
        bbr.bbrv2_inflight_hi_loss_floor(),
        "loss adaptation must retain its model-derived floor"
    );
}

#[test]
fn bbrv2_mtu_update_keeps_inflight_hi_above_floor() {
    let mut bbr = Bbr::new_with_version(
        Arc::new(BbrConfig::default()),
        BASE_DATAGRAM_SIZE as u16,
        BbrVersion::V2,
    );

    bbr.inflight_hi = bbr.bbrv2_inflight_hi_floor();
    bbr.on_mtu_update((BASE_DATAGRAM_SIZE * 2) as u16);

    assert!(
        bbr.inflight_hi >= bbr.bbrv2_inflight_hi_floor(),
        "MTU growth must not leave inflight_hi below the current floor"
    );
    assert!(
        bbr.window() >= bbr.min_cwnd,
        "V2 window should preserve the current min_cwnd floor"
    );
}

/// V2: `window()` must respect a reduced `inflight_hi` ceiling even when
/// neither ProbeRtt nor recovery mode applies. This is the behavior that
/// makes V2 respond to large congestion events with a persistent ceiling
/// reduction rather than only a short-lived recovery dip.
#[test]
fn bbrv2_window_is_capped_by_inflight_hi() {
    let cfg = Arc::new(BbrConfig::default());
    let mut bbr = Bbr::new_with_version(cfg, BASE_DATAGRAM_SIZE as u16, BbrVersion::V2);

    // Baseline: no ceiling, window returns cwnd.
    let baseline = bbr.cwnd;
    assert_eq!(bbr.window(), baseline);

    // Set the ceiling below cwnd; window should now report the ceiling.
    let ceiling = baseline / 4;
    bbr.inflight_hi = ceiling;
    assert_eq!(
        bbr.window(),
        ceiling,
        "V2 window should honor the inflight_hi cap"
    );
}

/// V1 must remain unaffected by `inflight_hi` under any conditions —
/// including pathologically low values that V2 would honor as a cap.
/// This guarantees the A/B switch is a true behavioral toggle, not a
/// stealth change to `bbr`.
#[test]
fn bbrv1_window_ignores_inflight_hi_cap() {
    let cfg = Arc::new(BbrConfig::default());
    let mut bbr = Bbr::new(cfg, BASE_DATAGRAM_SIZE as u16);
    assert_eq!(bbr.version, BbrVersion::V1);

    // Even with an artificially-low ceiling, V1 must not consult it.
    bbr.inflight_hi = 1;
    assert_eq!(
        bbr.window(),
        bbr.cwnd,
        "V1 window must be unchanged regardless of inflight_hi"
    );
}
