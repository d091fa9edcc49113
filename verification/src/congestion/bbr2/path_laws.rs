//! What the model of the path comes to: bandwidth, target, bounds, rate and window,
//! in numbers.

use vstd::prelude::*;

use crate::arith::{larger, smaller};
use crate::congestion::{CongestionEvent, Controller};
use crate::connection::RttEstimator;
use crate::gain::{
    law_comparison_is_exact, law_scaling_keeps_the_order, scaled, scaled_millionth, UNIT_GAIN,
};
use crate::time::Instant;
use super::bw_estimation::{law_rate_is_bytes_per_second, BandwidthEstimation};
use super::config::BbrConfig;
use super::model::{keeps_newest, BBR2_PROBE_UP_CWND_GAIN};
use super::{Bbr, BbrSentPacket, BbrVersion, Mode, ProbeBwPhase, RecoveryState};

verus! {

/// What a fresh controller is set to: Startup with its high gains, no estimate, no
/// recovery, the initial window, and bounds that are open.
pub proof fn law_fresh_controller_in_numbers(
    s: Bbr,
    config: BbrConfig,
    mtu: u16,
    version: BbrVersion,
)
    requires
        s.is_fresh(config, mtu, version),
    ensures
        s.mode == Mode::Startup && !s.is_at_full_bandwidth && s.round_wo_bw_gain == 0,
        s.pacing_gain == s.high_gain && s.cwnd_gain == s.high_cwnd_gain,
        s.high_gain == s.high_cwnd_gain,
        // 2.885 and its inverse, to the nearest single-precision number
        s.high_gain == 96_804_536 && s.drain_gain == 11_630_652,
        s.cwnd == config.initial_window && s.init_cwnd == config.initial_window,
        s.min_cwnd == 4 * mtu && s.current_mtu == mtu,
        s.max_bandwidth.estimate() == 0 && s.max_bandwidth.window_bytes() == 0,
        s.acked_bytes == 0 && s.delivered_bytes == 0 && s.tracked_in_flight == 0,
        s.recovery_state == RecoveryState::NotInRecovery && !s.loss_state.congested(),
        s.round_count == 0 && s.max_acked_packet_number == 0 && s.max_sent_packet_number == 0,
        s.pacing_rate == 0 && s.min_rtt.nanos == 0 && s.probe_rtt_last_started_at is None,
        !s.bw_probe_samples && s.probe_bw_phase == ProbeBwPhase::Cruise,
        s.probe_up_acked == 0 && s.probe_up_rounds == 0,
        s.bw_latest == 0 && s.inflight_latest == 0,
        s.exit_probe_rtt_at is None && s.last_cycle_start is None && !s.exiting_quiescence,
        s.version == version && *s.config == config && s.current_cycle_offset == 0,
        s.recovery_window == 0 && s.prev_in_flight_count == 0 && s.bw_at_last_round == 0,
        s.end_recovery_at_packet_number == 0 && s.current_round_trip_end_packet_number == 0,
        s.ack_aggregation.max_ack_height.get() == 0 && s.ack_aggregation.aggregation_epoch_bytes
            == 0 && s.ack_aggregation.aggregation_epoch_start_time is None,
        s.max_bandwidth.total_sent == 0 && s.max_bandwidth.total_acked == 0
            && s.max_bandwidth.sent_time is None && s.max_bandwidth.acked_time is None
            && s.max_bandwidth.prev_total_sent == 0 && s.max_bandwidth.prev_total_acked == 0
            && s.max_bandwidth.prev_sent_time is None && s.max_bandwidth.prev_acked_time is None
            && s.max_bandwidth.acked_at_last_window == 0,
        s.max_bandwidth.max_filter.taken_by(0) && s.max_bandwidth.max_filter.window == 10,
        s.ack_aggregation.max_ack_height.taken_by(0) && s.ack_aggregation.max_ack_height.window
            == 10,
        s.loss_state.lost_bytes == 0 && s.loss_state.round_lost_bytes == 0
            && s.loss_state.ecn_ce_count == 0 && s.loss_state.round_ecn_ce_count == 0
            && s.loss_state.round_delivered_bytes == 0 && s.loss_state.latest_lost_round is None
            && s.loss_state.latest_loss_tx_in_flight is None && !s.loss_state.persistent_congestion,
        s.delivered_time is None && s.sent_packets@ == Map::<u64, BbrSentPacket>::empty(),
        s.inflight_hi == u64::MAX && s.inflight_lo == u64::MAX && s.bw_lo == u64::MAX,
{
}

/// When the short-term bounds apply, when BBRv2 probes, and what the full model is.
pub proof fn law_when_the_bounds_apply(s: Bbr)
    ensures
        ({
            let filling = s.mode == Mode::ProbeBw && (s.probe_bw_phase == ProbeBwPhase::Refill
                || s.probe_bw_phase == ProbeBwPhase::Up);
            &&& s.uses_short_term_model() <==> !filling
            &&& s.is_probing_bandwidth() <==> s.version == BbrVersion::V2 && (s.mode
                == Mode::Startup || filling)
            &&& s.full_model() <==> s.version == BbrVersion::V2
                && s.config.bbrv2_experimental_inflight_hi_shrink
        }),
{
}

/// BBRv1 works with its estimate, and so does BBRv2 while it fills and probes the
/// path. In all other phases BBRv2 works with the smaller one of its estimate and
/// its short-term bound.
pub proof fn law_bandwidth_in_use(s: Bbr)
    ensures
        ({
            let bw = s.effective_bandwidth();
            let estimate = s.max_bandwidth.max_filter.best.value;
            let filling = s.mode == Mode::ProbeBw && (s.probe_bw_phase == ProbeBwPhase::Refill
                || s.probe_bw_phase == ProbeBwPhase::Up);
            &&& s.version == BbrVersion::V1 || filling ==> bw == estimate
            &&& s.version == BbrVersion::V2 && !filling ==> bw <= estimate && bw <= s.bw_lo && (bw
                == estimate || bw == s.bw_lo)
        }),
{
}

/// The target is the gain times bandwidth and minimum RTT, but at least four
/// packets; and it is the initial window where that product is less than a byte.
pub proof fn law_target_in_numbers(s: Bbr, gain: u32, bytes: nat)
    requires
        s.min_rtt.micros() * s.effective_bandwidth() <= u64::MAX,
        bytes == scaled_millionth(gain, (s.min_rtt.micros() * s.effective_bandwidth()) as u64),
    ensures
        bytes == 0 ==> s.target_cwnd(gain) == s.init_cwnd,
        bytes > 0 && bytes >= s.min_cwnd ==> s.target_cwnd(gain) == bytes,
        bytes > 0 && bytes < s.min_cwnd ==> s.target_cwnd(gain) == s.min_cwnd,
        s.probe_rtt_cwnd() == s.target_cwnd(25_165_824),
{
    crate::gain::law_millionth_part_is_small(
        gain,
        (s.min_rtt.micros() * s.effective_bandwidth()) as u64,
    );
}

/// A larger gain gives no smaller target, where there is an estimate.
pub proof fn law_target_grows_with_the_gain(s: Bbr, gain: u32, larger_gain: u32)
    requires
        gain <= larger_gain,
        s.min_rtt.micros() * s.effective_bandwidth() <= u64::MAX,
        scaled_millionth(gain, (s.min_rtt.micros() * s.effective_bandwidth()) as u64) > 0,
    ensures
        s.target_cwnd(gain) <= s.target_cwnd(larger_gain),
{
    let bdp = (s.min_rtt.micros() * s.effective_bandwidth()) as u64;
    law_scaling_keeps_the_order(gain, larger_gain, bdp, bdp);
    crate::gain::law_millionth_part_is_small(gain, bdp);
    crate::gain::law_millionth_part_is_small(larger_gain, bdp);
}

/// The floors of the bounds: the target, and seven tenths of it after a loss; both
/// at least four packets.
pub proof fn law_floors_in_numbers(s: Bbr)
    requires
        s.target_cwnd(UNIT_GAIN) * 7 <= u64::MAX,
    ensures
        s.inflight_floor() >= s.target_cwnd(UNIT_GAIN) && s.inflight_floor() >= s.min_cwnd,
        s.inflight_floor() == s.target_cwnd(UNIT_GAIN) || s.inflight_floor() == s.min_cwnd,
        s.inflight_loss_floor() >= s.min_cwnd,
        s.inflight_loss_floor() > s.min_cwnd ==> 10 * s.inflight_loss_floor() <= 7 * s.target_cwnd(
            UNIT_GAIN,
        ),
        7 * s.target_cwnd(UNIT_GAIN) < 10 * s.inflight_loss_floor() + 10,
{
}

/// The pacing rate: none without bandwidth; gain times the bandwidth in use once the
/// path is known to be full; before, the initial window spread over the minimum RTT,
/// and then the higher one of the last rate and gain times bandwidth.
pub proof fn law_pacing_rate_in_numbers(s: Bbr)
    ensures
        ({
            let bw = s.effective_bandwidth();
            let rate = s.next_pacing_rate();
            &&& bw == 0 ==> rate == s.pacing_rate
            &&& bw > 0 && s.is_at_full_bandwidth ==> rate == scaled(s.pacing_gain, bw)
            &&& bw > 0 && !s.is_at_full_bandwidth && s.pacing_rate == 0 && s.min_rtt.nanos > 0
                ==> rate * s.min_rtt.nanos <= s.init_cwnd * 1_000_000_000 && (rate < u64::MAX
                ==> s.init_cwnd * 1_000_000_000 < (rate + 1) * s.min_rtt.nanos)
            &&& bw > 0 && !s.is_at_full_bandwidth && (s.pacing_rate > 0 || s.min_rtt.nanos == 0)
                ==> rate >= s.pacing_rate && rate >= scaled(s.pacing_gain, bw) && (rate
                == s.pacing_rate || rate == scaled(s.pacing_gain, bw))
            &&& s.paced() == (Bbr { pacing_rate: rate, ..s })
        }),
{
    if s.min_rtt.nanos > 0 {
        law_rate_is_bytes_per_second(s.init_cwnd, s.min_rtt);
    }
}

/// Outside of filling and probing, BBRv2 on a path known to be full paces at the
/// smaller one of its estimate and its short-term bound: the bound limits the rate.
pub proof fn law_short_term_bound_limits_the_rate(s: Bbr)
    requires
        s.version == BbrVersion::V2,
        s.mode != Mode::ProbeBw || s.probe_bw_phase == ProbeBwPhase::Down || s.probe_bw_phase
            == ProbeBwPhase::Cruise,
        s.is_at_full_bandwidth,
        s.max_bandwidth.estimate() > 0,
        s.bw_lo > 0,
    ensures
        s.next_pacing_rate() <= scaled(s.pacing_gain, s.bw_lo),
        s.next_pacing_rate() <= scaled(s.pacing_gain, s.max_bandwidth.estimate()),
        s.next_pacing_rate() == scaled(s.pacing_gain, smaller(s.max_bandwidth.estimate(), s.bw_lo)),
{
    let estimate = s.max_bandwidth.estimate();
    let bw = smaller(estimate, s.bw_lo);
    law_scaling_keeps_the_order(s.pacing_gain, s.pacing_gain, bw, s.bw_lo);
    law_scaling_keeps_the_order(s.pacing_gain, s.pacing_gain, bw, estimate);
}

/// What acknowledgements in bursts add to the target.
pub proof fn law_target_window_in_numbers(s: Bbr, excess_acked: u64)
    ensures
        s.is_at_full_bandwidth ==> s.target_window(excess_acked) == s.target_cwnd(s.cwnd_gain)
            + s.ack_aggregation.max_ack_height.best.value,
        !s.is_at_full_bandwidth ==> s.target_window(excess_acked) == s.target_cwnd(s.cwnd_gain)
            + excess_acked,
{
}

/// Before the path is known to be full, the window grows by what is acknowledged,
/// however much that was so far: wherever the target exceeds the window gain, as any
/// target of 128 bytes does, and while less than an initial window is acknowledged.
/// Otherwise it stays.
pub proof fn law_startup_window_grows(s: Bbr, bytes_acked: u64, excess_acked: u64)
    requires
        s.mode != Mode::ProbeRtt,
        !s.is_at_full_bandwidth,
        s.cwnd >= s.min_cwnd,
        s.cwnd + bytes_acked <= u64::MAX,
        s.target_cwnd(s.cwnd_gain) + excess_acked <= u64::MAX,
    ensures
        ({
            let target = s.target_cwnd(s.cwnd_gain) + excess_acked;
            let next = s.windowed(bytes_acked, excess_acked).cwnd;
            &&& target >= 128 ==> next == s.cwnd + bytes_acked
            &&& s.cwnd_gain < target * 0x0200_0000 ==> next == s.cwnd + bytes_acked
            &&& s.acked_bytes < s.init_cwnd ==> next == s.cwnd + bytes_acked
            &&& s.cwnd_gain >= target * 0x0200_0000 && s.acked_bytes >= s.init_cwnd ==> next
                == s.cwnd
        }),
{
    law_comparison_is_exact(
        s.cwnd_gain,
        (s.target_cwnd(s.cwnd_gain) + excess_acked) as u64,
    );
}

/// Once the path is known to be full, the window moves up to its target by what is
/// acknowledged, and down to it at once; in ProbeRtt it stays. Four packets are its
/// floor.
pub proof fn law_window_seeks_its_target(s: Bbr, bytes_acked: u64, excess_acked: u64)
    requires
        s.cwnd + bytes_acked <= u64::MAX,
        s.target_cwnd(s.cwnd_gain) + s.ack_aggregation.max_ack_height.best.value <= u64::MAX,
    ensures
        ({
            let t = s.windowed(bytes_acked, excess_acked);
            let target = s.target_cwnd(s.cwnd_gain) + s.ack_aggregation.max_ack_height.best.value;
            &&& s.mode == Mode::ProbeRtt ==> t == s
            &&& s.mode != Mode::ProbeRtt ==> t.cwnd >= s.min_cwnd
            &&& t == (Bbr { cwnd: t.cwnd, ..s })
            &&& s.mode != Mode::ProbeRtt && s.is_at_full_bandwidth && t.cwnd > s.min_cwnd ==> (
            t.cwnd == target || t.cwnd == s.cwnd + bytes_acked)
            &&& s.mode != Mode::ProbeRtt && s.is_at_full_bandwidth && t.cwnd > s.min_cwnd ==> t.cwnd
                <= target && t.cwnd <= s.cwnd + bytes_acked
            &&& s.mode != Mode::ProbeRtt && s.is_at_full_bandwidth && t.cwnd == s.min_cwnd ==> (
            target <= s.min_cwnd || s.cwnd + bytes_acked <= s.min_cwnd)
        }),
{
}

/// The window before the bounds: three quarters of the target in ProbeRtt; in
/// recovery after Startup no more than the recovery window; else the window.
pub proof fn law_window_by_mode(s: Bbr)
    ensures
        s.mode == Mode::ProbeRtt ==> s.base_window() == s.target_cwnd(25_165_824),
        s.mode != Mode::ProbeRtt && (s.recovery_state == RecoveryState::NotInRecovery || s.mode
            == Mode::Startup) ==> s.base_window() == s.cwnd,
        s.mode != Mode::ProbeRtt && s.mode != Mode::Startup && s.recovery_state
            != RecoveryState::NotInRecovery ==> s.base_window() <= s.cwnd && s.base_window()
            <= s.recovery_window && (s.base_window() == s.cwnd || s.base_window()
            == s.recovery_window),
        s.version == BbrVersion::V1 ==> s.window_bytes() == s.base_window(),
        s.initial_window_bytes() == s.config.initial_window,
{
}

/// The window of BBRv2 in numbers. `cap` is the long-term bound, of which fifteen of
/// a hundred bytes stay free while cruising; `bound` is the smaller one of it and the
/// short-term bound where that applies.
pub proof fn law_v2_window_in_numbers(s: Bbr, cap: u64, bound: u64)
    requires
        s.version == BbrVersion::V2,
        s.inflight_hi < u64::MAX ==> s.inflight_hi * 85 <= u64::MAX,
        s.inflight_hi < u64::MAX && (s.mode == Mode::ProbeBw || s.mode == Mode::ProbeRtt)
            && s.probe_bw_phase == ProbeBwPhase::Cruise ==> 100 * cap <= 85 * s.inflight_hi < 100
            * cap + 100,
        !(s.inflight_hi < u64::MAX && (s.mode == Mode::ProbeBw || s.mode == Mode::ProbeRtt)
            && s.probe_bw_phase == ProbeBwPhase::Cruise) ==> cap == s.inflight_hi,
        s.mode == Mode::ProbeBw && (s.probe_bw_phase == ProbeBwPhase::Refill || s.probe_bw_phase
            == ProbeBwPhase::Up) ==> bound == cap,
        !(s.mode == Mode::ProbeBw && (s.probe_bw_phase == ProbeBwPhase::Refill || s.probe_bw_phase
            == ProbeBwPhase::Up)) ==> bound == smaller(cap, s.inflight_lo),
    ensures
        s.base_window() <= bound ==> s.window_bytes() == s.base_window(),
        s.base_window() > bound && bound >= s.min_cwnd ==> s.window_bytes() == bound,
        s.base_window() > bound && bound < s.min_cwnd ==> s.window_bytes() == smaller(
            s.base_window(),
            s.min_cwnd,
        ),
{
}

/// How many packets are remembered: those that the largest one of window, last flight
/// and two and a quarter targets takes, and 4096 more, but no more than 262144.
pub proof fn law_packet_limit_in_numbers(s: Bbr, packet: u64)
    requires
        packet == larger(s.current_mtu, 1),
    ensures
        4096 <= s.packet_limit() <= 262_144,
        ({
            let bytes = larger(
                larger(s.cwnd, s.prev_in_flight_count),
                s.target_cwnd(BBR2_PROBE_UP_CWND_GAIN),
            );
            &&& s.packet_limit() < 262_144 ==> (s.packet_limit() - 4096) * packet <= bytes < (
            s.packet_limit() - 4095) * packet
            &&& s.packet_limit() == 262_144 ==> (262_144 - 4096) * packet <= bytes
        }),
{
    let bytes = larger(
        larger(s.cwnd, s.prev_in_flight_count),
        s.target_cwnd(BBR2_PROBE_UP_CWND_GAIN),
    );
    let count = (bytes / packet) as int;
    vstd::arithmetic::div_mod::lemma_fundamental_div_mod(bytes as int, packet as int);
    assert(count * packet <= bytes < (count + 1) * packet) by (nonlinear_arith)
        requires
            bytes == packet * count + bytes % packet,
            0 <= bytes % packet < packet,
    ;
    if s.packet_limit() == 262_144 {
        assert((262_144 - 4096) * packet <= count * packet) by (nonlinear_arith)
            requires
                count >= 262_144 - 4096,
                packet >= 0,
        ;
    }
}

/// Nothing is forgotten while the limit allows, and what is remembered is remembered
/// as it was.
pub proof fn law_packets_within_the_limit_are_kept(
    all: Map<u64, BbrSentPacket>,
    kept: Map<u64, BbrSentPacket>,
    limit: nat,
)
    requires
        keeps_newest(all, kept, limit),
        all.dom().finite(),
    ensures
        all.len() <= limit ==> kept == all,
        kept.len() <= limit,
        forall|number: u64| #[trigger]
            kept.contains_key(number) ==> all.contains_key(number) && kept[number] == all[number],
        forall|gone: u64, held: u64| #[trigger]
            all.contains_key(gone) && !kept.contains_key(gone) && #[trigger] kept.contains_key(held)
                ==> gone < held,
{
    if all.len() <= limit {
        assert(kept.dom().subset_of(all.dom()));
        vstd::set_lib::lemma_subset_equality(kept.dom(), all.dom());
        assert(kept =~= all);
    }
}

/// What is remembered of a packet: the round, the flight with it, the time, and what
/// had been delivered by then, and when.
pub proof fn law_packet_is_remembered(s: Bbr, tx_in_flight: u64, now: Instant)
    ensures
        ({
            let p = s.packet_sent(tx_in_flight, now);
            &&& p.round_count == s.round_count
            &&& p.tx_in_flight == tx_in_flight
            &&& p.sent_time == now
            &&& p.delivered_bytes_at_send == s.delivered_bytes
            &&& s.delivered_time is Some ==> Some(p.delivered_time_at_send) == s.delivered_time
            &&& s.delivered_time is None ==> p.delivered_time_at_send == now
        }),
{
}

/// The delivery rate of a packet spreads what was delivered since it was sent over
/// the longer one of the times since it was sent and since the last delivery before.
pub proof fn law_delivery_rate_in_numbers(packet: BbrSentPacket, now: Instant, delivered: u64)
    requires
        delivered >= packet.delivered_bytes_at_send,
        now.nanos >= packet.sent_time.nanos,
        now.nanos >= packet.delivered_time_at_send.nanos,
    ensures
        ({
            let bytes = delivered - packet.delivered_bytes_at_send;
            let by_send = now.nanos - packet.sent_time.nanos;
            let by_ack = now.nanos - packet.delivered_time_at_send.nanos;
            let rate = Bbr::delivery_rate(packet, now, delivered);
            &&& rate is None <==> by_send == 0 && by_ack == 0
            &&& rate matches Some(rate) ==> rate * by_send <= bytes * 1_000_000_000 && rate * by_ack
                <= bytes * 1_000_000_000
            &&& rate matches Some(rate) ==> rate == u64::MAX || bytes * 1_000_000_000 < (rate + 1)
                * by_send || bytes * 1_000_000_000 < (rate + 1) * by_ack
        }),
{
    let bytes = (delivered - packet.delivered_bytes_at_send) as u64;
    let by_send = now.since(packet.sent_time);
    let by_ack = now.since(packet.delivered_time_at_send);
    let span = if by_ack.nanos > by_send.nanos {
        by_ack
    } else {
        by_send
    };
    if span.nanos > 0 {
        law_rate_is_bytes_per_second(bytes, span);
        let rate = BandwidthEstimation::rate(bytes, span)->0 as int;
        let (long, send, ack) = (span.nanos as int, by_send.nanos as int, by_ack.nanos as int);
        assert(rate * send <= rate * long && rate * ack <= rate * long) by (nonlinear_arith)
            requires
                send <= long,
                ack <= long,
                rate >= 0,
        ;
    }
}

/// What an acknowledged packet tells the full model: the flight and the rate that it
/// was sent into lift the latest ones, and its rate is a sample for the estimate.
pub proof fn law_delivery_signals(
    s: Bbr,
    now: Instant,
    number: u64,
    delivered: u64,
    app_limited: bool,
)
    requires
        s.wf(),
    ensures
        ({
            let t = s.signals_updated(now, number, delivered, app_limited);
            let known = s.sent_packets@.contains_key(number);
            let flight = if known {
                s.sent_packets@[number].tx_in_flight
            } else {
                delivered
            };
            let rate = Bbr::delivery_rate(s.sent_packets@[number], now, delivered);
            &&& t.inflight_latest >= s.inflight_latest && t.inflight_latest >= flight
            &&& t.inflight_latest == s.inflight_latest || t.inflight_latest == flight
            &&& known && rate is Some ==> t.bw_latest >= rate->0 && t.bw_latest >= s.bw_latest && (
            t.bw_latest == rate->0 || t.bw_latest == s.bw_latest)
            &&& !known || rate is None ==> t.max_bandwidth == s.max_bandwidth && t.bw_latest
                == larger(s.bw_latest, s.max_bandwidth.estimate())
            &&& known && rate is Some && !app_limited ==> t.max_bandwidth.estimate() == larger(
                s.max_bandwidth.estimate(),
                rate->0,
            )
            &&& app_limited ==> t.max_bandwidth == s.max_bandwidth
            &&& s.signals_advanced(number, delivered).inflight_latest == flight
            &&& s.signals_advanced(number, delivered).bw_latest == s.max_bandwidth.estimate()
        }),
{
}

/// What sending tells the controller.
pub proof fn law_sending_is_noted(
    s: Bbr,
    now: Instant,
    bytes: u64,
    packet_bytes: u16,
    number: u64,
)
    requires
        s.max_bandwidth.total_sent + bytes <= u64::MAX,
    ensures
        s.sent(now, bytes, number).max_sent_packet_number == number,
        s.sent(now, bytes, number).max_bandwidth.total_sent == s.max_bandwidth.total_sent + bytes,
        s.sent(now, bytes, number).max_bandwidth.sent_time == Some(now),
        s.sent(now, bytes, number).tracked_in_flight == s.tracked_in_flight,
        s.tracked_in_flight + packet_bytes <= u64::MAX ==> s.packet_counted(
            packet_bytes,
            number,
        ).tracked_in_flight == s.tracked_in_flight + packet_bytes,
        s.packet_counted(packet_bytes, number).max_sent_packet_number >= number,
        s.packet_counted(packet_bytes, number).max_sent_packet_number >= s.max_sent_packet_number,
        s.packet_counted(packet_bytes, number).max_sent_packet_number == number
            || s.packet_counted(packet_bytes, number).max_sent_packet_number
            == s.max_sent_packet_number,
{
}

/// What an acknowledgement tells the controller: every byte counts as acknowledged
/// and delivered and leaves the flight; the minimum RTT is the measured one where it
/// is lower or the old one has expired; and only the full model takes signals from
/// the packet.
pub proof fn law_acknowledgement_is_noted(
    s: Bbr,
    now: Instant,
    bytes: u64,
    number: u64,
    app_limited: bool,
    rtt: RttEstimator,
)
    requires
        s.acked_bytes + bytes <= u64::MAX,
        s.max_bandwidth.total_acked + bytes <= u64::MAX,
        s.delivered_bytes + bytes <= u64::MAX,
        s.wf(),
    ensures
        ({
            let t = s.delivered(now, bytes, number, app_limited, rtt);
            let expired = !app_limited && (s.probe_rtt_last_started_at is None || now.since(
                s.probe_rtt_last_started_at->0,
            ).nanos > 10_000_000_000);
            &&& t.acked_bytes == s.acked_bytes + bytes
            &&& t.delivered_bytes == s.delivered_bytes + bytes
            &&& bytes > 0 ==> t.delivered_time == Some(now)
            &&& bytes == 0 ==> t.delivered_time == s.delivered_time
            &&& t.tracked_in_flight == (if s.tracked_in_flight >= bytes {
                s.tracked_in_flight - bytes
            } else {
                0
            })
            &&& t.batch_acked() == s.batch_acked() + bytes
            &&& expired || rtt.min.nanos < s.min_rtt.nanos ==> t.min_rtt == rtt.min
            &&& !expired && rtt.min.nanos >= s.min_rtt.nanos ==> t.min_rtt == s.min_rtt
            &&& s.min_rtt_expired(now, app_limited) == expired
            &&& !s.full_model() ==> t.inflight_latest == s.inflight_latest && t.bw_latest
                == s.bw_latest && t.max_bandwidth == s.max_bandwidth.acked(
                now,
                bytes,
                s.round_count,
                app_limited,
            )
            &&& s.full_model() ==> t.inflight_latest >= (if s.sent_packets@.contains_key(number) {
                s.sent_packets@[number].tx_in_flight as int
            } else {
                s.delivered_bytes + bytes
            })
            &&& t.cwnd == s.cwnd && t.mode == s.mode && t.loss_state == s.loss_state
                && t.recovery_state == s.recovery_state && t.round_count == s.round_count
        }),
{
}

/// What a congestion event tells the controller: marks are counted, lost bytes are
/// counted, and the round and flight of the lost packet are taken from what was
/// remembered when it was sent.
pub proof fn law_congestion_is_noted(s: Bbr, event: CongestionEvent, persistent: bool)
    ensures
        ({
            let t = s.congestion_noted(event, persistent);
            &&& t == (Bbr { loss_state: t.loss_state, ..s })
            &&& t.loss_state.persistent_congestion == (s.loss_state.persistent_congestion
                || persistent)
            &&& event matches CongestionEvent::Ecn { ce_count, .. } ==> {
                &&& s.loss_state.round_ecn_ce_count + ce_count <= u64::MAX
                    ==> t.loss_state.round_ecn_ce_count == s.loss_state.round_ecn_ce_count
                    + ce_count
                &&& s.loss_state.ecn_ce_count + ce_count <= u64::MAX ==> t.loss_state.ecn_ce_count
                    == s.loss_state.ecn_ce_count + ce_count
                &&& t.loss_state.lost_bytes == s.loss_state.lost_bytes
                &&& t.loss_state.round_lost_bytes == s.loss_state.round_lost_bytes
            }
            &&& event matches CongestionEvent::Loss { largest_lost_packet_number, lost_bytes } ==> {
                &&& s.loss_state.lost_bytes + lost_bytes <= u64::MAX ==> t.loss_state.lost_bytes
                    == s.loss_state.lost_bytes + lost_bytes
                &&& s.loss_state.round_lost_bytes + lost_bytes <= u64::MAX
                    ==> t.loss_state.round_lost_bytes == s.loss_state.round_lost_bytes + lost_bytes
                &&& t.loss_state.round_ecn_ce_count == s.loss_state.round_ecn_ce_count
                &&& largest_lost_packet_number is Some && s.sent_packets@.contains_key(
                    largest_lost_packet_number->0,
                ) ==> t.loss_state.latest_lost_round == Some(
                    s.sent_packets@[largest_lost_packet_number->0].round_count,
                ) && t.loss_state.latest_loss_tx_in_flight == Some(
                    s.sent_packets@[largest_lost_packet_number->0].tx_in_flight,
                )
                &&& largest_lost_packet_number is None || !s.sent_packets@.contains_key(
                    largest_lost_packet_number->0,
                ) ==> t.loss_state.latest_lost_round == s.loss_state.latest_lost_round
                    && t.loss_state.latest_loss_tx_in_flight
                    == s.loss_state.latest_loss_tx_in_flight
            }
        }),
{
}

/// What a new MTU changes: the limits of the window become those of the MTU, and
/// nothing is lowered but them.
pub proof fn law_new_mtu_in_numbers(s: Bbr, mtu: u16)
    ensures
        ({
            let t = s.mtu_updated(mtu);
            &&& t.current_mtu == mtu && t.min_cwnd == 4 * mtu
            &&& t.init_cwnd >= 4 * mtu && t.init_cwnd >= s.config.initial_window && (t.init_cwnd
                == 4 * mtu || t.init_cwnd == s.config.initial_window)
            &&& t.cwnd >= 4 * mtu && t.cwnd >= s.cwnd && (t.cwnd == 4 * mtu || t.cwnd == s.cwnd)
            &&& s.version == BbrVersion::V2 ==> t.inflight_lo == larger(
                s.inflight_lo,
                t.min_cwnd,
            ) && t.inflight_hi >= s.inflight_hi && t.inflight_hi >= t.target_cwnd(UNIT_GAIN)
                && t.inflight_hi >= t.min_cwnd && (t.inflight_hi == s.inflight_hi || t.inflight_hi
                == t.target_cwnd(UNIT_GAIN) || t.inflight_hi == t.min_cwnd)
            &&& t == (Bbr {
                current_mtu: t.current_mtu,
                min_cwnd: t.min_cwnd,
                init_cwnd: t.init_cwnd,
                cwnd: t.cwnd,
                inflight_hi: t.inflight_hi,
                inflight_lo: t.inflight_lo,
                ..s
            })
        }),
{
    let t = s.mtu_updated(mtu);
    assert(t.target_cwnd(UNIT_GAIN) == s.mtu_changed(mtu).target_cwnd(UNIT_GAIN));
}

/// How the recovery window moves: it begins with what is in use; it gives way by what
/// was lost, to one packet where more was lost than it held; in growth it gains what
/// was acknowledged; and it never goes below what is in use, nor below four packets.
pub proof fn law_recovery_window_in_numbers(
    s: Bbr,
    bytes_acked: u64,
    bytes_lost: u64,
    in_flight: u64,
)
    requires
        s.recovery_window_fits(bytes_acked, bytes_lost, in_flight),
    ensures
        ({
            let t = s.recovery_windowed(bytes_acked, bytes_lost, in_flight);
            let w = t.recovery_window as int;
            let used = in_flight + bytes_acked;
            let rest = if s.recovery_window >= bytes_lost {
                s.recovery_window - bytes_lost
            } else {
                s.current_mtu as int
            };
            let gain: int = if s.recovery_state == RecoveryState::Growth {
                bytes_acked as int
            } else {
                0
            };
            &&& t == (Bbr { recovery_window: t.recovery_window, ..s })
            &&& s.recovery_state == RecoveryState::NotInRecovery ==> t == s
            &&& s.recovery_state != RecoveryState::NotInRecovery ==> w >= used && w >= s.min_cwnd
            &&& s.recovery_state != RecoveryState::NotInRecovery && s.recovery_window == 0 ==> w
                == used || w == s.min_cwnd
            &&& s.recovery_state != RecoveryState::NotInRecovery && s.recovery_window > 0 ==> w
                >= rest + gain && (w == rest + gain || w == used || w == s.min_cwnd)
        }),
{
}

/// When the path counts as full: after a round of a sender with enough to send, in
/// which the bandwidth did not grow by a quarter, if that is the third one in a row or
/// one in recovery. A round with growth starts the count anew.
pub proof fn law_full_path_in_numbers(s: Bbr, app_limited: bool)
    requires
        s.round_wo_bw_gain < u64::MAX,
    ensures
        ({
            let t = s.full_bw_checked(app_limited);
            let estimate = s.max_bandwidth.estimate();
            let grew = estimate >= scaled(41_943_040, s.bw_at_last_round);
            &&& app_limited ==> t == s
            &&& !app_limited && grew ==> t.bw_at_last_round == estimate && t.round_wo_bw_gain == 0
                && t.is_at_full_bandwidth == s.is_at_full_bandwidth
                && t.ack_aggregation.max_ack_height.get() == 0
            &&& !app_limited && !grew ==> t.bw_at_last_round == s.bw_at_last_round
                && t.round_wo_bw_gain == s.round_wo_bw_gain + 1 && t.ack_aggregation
                == s.ack_aggregation
            &&& !app_limited && !grew && !s.is_at_full_bandwidth ==> (t.is_at_full_bandwidth
                <==> s.round_wo_bw_gain >= 2 || s.recovery_state != RecoveryState::NotInRecovery)
            &&& s.is_at_full_bandwidth ==> t.is_at_full_bandwidth
        }),
{
}

} // verus!
