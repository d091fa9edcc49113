//! What holds of the controller as a whole, whatever the path does.

use vstd::prelude::*;

use crate::arith::{larger, smaller};
use crate::congestion::{CongestionEvent, Controller};
use crate::connection::RttEstimator;
use crate::gain::{law_millionth_part_is_small, UNIT_GAIN};
use crate::time::Instant;
use super::config::BbrConfig;
use super::frame::{
    lemma_answering_changes, lemma_batch_model_changes, lemma_end_of_batch_by_step,
    lemma_ending_changes, lemma_mode_changes, lemma_modelling_changes, lemma_taking_in_changes,
    lemma_undrawn_number_is_not_used, lemma_v1_losses_ignore_bounds,
    lemma_v1_mode_ignores_bounds, lemma_v1_model_ignores_bounds, lemma_v1_windows_ignore_bounds,
    lemma_window_changes,
};
use super::min_max::{law_maximum_was_measured, MinMax};
use super::model::{
    cycle_gain, cycle_start, keeps_newest, min_window, BBR_SENT_PACKET_MODEL_MAX_PACKETS,
    BBR_SENT_PACKET_MODEL_MIN_PACKETS, CYCLE_DRAIN_GAIN, CYCLE_LENGTH,
    MODERATE_PROBE_RTT_MULTIPLIER, PROBE_RTT_NANOS,
};
use super::{Bbr, BbrSentPacket, BbrVersion, Mode, ProbeBwPhase};

verus! {

/// More bytes than any path carries in a round: `2^60`.
pub const ORDINARY_BYTES: u64 = 0x1000_0000_0000_0000;

/// A fresh controller is well formed, of either version. It knows no bounds, and
/// its window is the initial one.
pub proof fn law_fresh_controller(s: Bbr, config: BbrConfig, mtu: u16, version: BbrVersion)
    requires
        s.is_fresh(config, mtu, version),
    ensures
        s.wf(),
        s.inflight_hi == u64::MAX && s.inflight_lo == u64::MAX && s.bw_lo == u64::MAX,
        s.window_fits(),
        s.window_bytes() == config.initial_window,
        s.initial_window_bytes() == config.initial_window,
{
}

/// Every report of the connection but the end of a batch keeps the controller well
/// formed, whatever becomes of the packet store.
pub proof fn law_reports_keep_the_controller_well_formed(
    s: Bbr,
    now: Instant,
    bytes: u64,
    packet_bytes: u16,
    packet_number: u64,
    app_limited: bool,
    rtt: RttEstimator,
    event: CongestionEvent,
    persistent: bool,
    mtu: u16,
)
    requires
        s.wf(),
    ensures
        s.sent_fits(bytes) ==> s.sent(now, bytes, packet_number).wf(),
        s.packet_counted(packet_bytes, packet_number).wf(),
        s.ack_fits(bytes) ==> s.delivered(now, bytes, packet_number, app_limited, rtt).wf(),
        s.congestion_noted(event, persistent).wf(),
        s.mtu_updated(mtu).wf(),
        s.ack_fits(bytes) <==> s.max_bandwidth.total_acked + bytes <= u64::MAX && s.acked_bytes
            + bytes <= u64::MAX,
{
}

/// The end of a batch keeps the controller well formed, and counts a round where
/// one begins.
pub proof fn law_batches_keep_the_controller_well_formed(
    s: Bbr,
    now: Instant,
    in_flight: u64,
    app_limited: bool,
    largest: Option<u64>,
    draw: u8,
)
    requires
        s.wf(),
        s.round_begins(largest) ==> s.round_count < u64::MAX,
        draw < CYCLE_LENGTH - 1,
    ensures
        s.acks_ended(now, in_flight, app_limited, largest, draw).wf(),
        s.acks_ended(now, in_flight, app_limited, largest, draw).round_count == s.round_count
            + if s.round_begins(largest) {
            1int
        } else {
            0int
        },
        s.acks_ended(now, in_flight, app_limited, largest, draw).batch_acked() == 0,
{
    lemma_batch(s, now, in_flight, app_limited, largest, draw);
    lemma_taking_in_changes(s, now, in_flight, largest);
}

/// What the end of a batch leaves alone, what it moves one way only, and how mode,
/// bounds, rate and windows come about.
pub(crate) proof fn lemma_batch(
    s: Bbr,
    now: Instant,
    in_flight: u64,
    app_limited: bool,
    largest: Option<u64>,
    draw: u8,
)
    ensures
        ({
            let t = s.acks_ended(now, in_flight, app_limited, largest, draw);
            let acked = s.batch_acked();
            let taken = s.batch_taken_in(now, in_flight, largest);
            let congested = taken.loss_state.congested();
            &&& t.version == s.version && t.config == s.config && t.current_mtu == s.current_mtu
                && t.min_cwnd == s.min_cwnd && t.init_cwnd == s.init_cwnd && t.min_rtt
                == s.min_rtt && t.sent_packets == s.sent_packets
            &&& t.max_bandwidth == s.max_bandwidth.window_closed()
            &&& t.round_count == taken.round_count
            &&& t.ack_aggregation.max_ack_height == taken.ack_aggregation.max_ack_height
                || t.ack_aggregation.max_ack_height == MinMax::empty(
                taken.ack_aggregation.max_ack_height.window,
            )
            &&& s.current_cycle_offset < CYCLE_LENGTH && draw < CYCLE_LENGTH - 1
                ==> t.current_cycle_offset < CYCLE_LENGTH
            &&& s.is_at_full_bandwidth ==> t.is_at_full_bandwidth
            &&& t.mode == Mode::Startup ==> !t.is_at_full_bandwidth && (s.mode == Mode::Startup
                || s.mode == Mode::ProbeRtt)
            &&& t.mode == Mode::Drain ==> t.is_at_full_bandwidth || s.mode == Mode::Drain
            &&& s.min_rtt_expired(now, app_limited) && !s.exiting_quiescence && s.mode
                != Mode::ProbeRtt ==> t.mode == Mode::ProbeRtt && t.probe_rtt_last_started_at
                == Some(now) && t.pacing_gain == UNIT_GAIN
            &&& s.mode == Mode::ProbeRtt && t.mode != Mode::ProbeRtt ==> s.round_begins(largest)
                && (s.exit_probe_rtt_at matches Some(exit) && now.reached(exit))
            &&& !s.full_model() ==> t.has_bounds_of(s)
            &&& t.inflight_hi < s.inflight_hi ==> s.full_model() && s.is_probing_bandwidth()
                && s.bw_probe_samples && s.round_begins(largest) && congested
            &&& t.inflight_hi > s.inflight_hi ==> s.full_model() && s.mode == Mode::ProbeBw
                && s.pacing_gain > UNIT_GAIN && s.limit_utilized(acked, in_flight) && !congested
            &&& s.cwnd >= s.min_cwnd && s.cwnd + acked <= u64::MAX ==> t.cwnd >= t.min_cwnd
                && t.cwnd <= larger((s.cwnd + acked) as u64, s.min_cwnd) && (
            !t.is_at_full_bandwidth ==> t.cwnd >= s.cwnd)
            &&& !t.is_at_full_bandwidth ==> t.pacing_rate >= s.pacing_rate
            &&& t.recovery_state.in_recovery() ==> t.recovery_window >= t.min_cwnd
                && t.recovery_window >= (in_flight + acked) as u64
            &&& congested ==> t.recovery_state.in_recovery()
            &&& !congested && !s.recovery_state.in_recovery() ==> !t.recovery_state.in_recovery()
            &&& !congested && s.newest_acked(largest) > s.end_recovery_at_packet_number
                ==> !t.recovery_state.in_recovery()
        }),
{
    let begins = s.round_begins(largest);
    let acked = s.batch_acked();
    let excess = s.batch_excess(now);
    let taken = s.batch_taken_in(now, in_flight, largest);
    let answered = taken.losses_answered(now, in_flight, app_limited, begins);
    let modelled = answered.path_modelled(now, acked, begins, in_flight, app_limited);
    let moded = modelled.mode_updated(now, begins, in_flight, app_limited, draw);
    let windowed = moded.windows_updated(acked, excess, in_flight);
    lemma_end_of_batch_by_step(s, now, in_flight, app_limited, largest, draw);
    lemma_taking_in_changes(s, now, in_flight, largest);
    lemma_answering_changes(taken, now, in_flight, app_limited, begins);
    lemma_modelling_changes(answered, now, acked, begins, in_flight, app_limited);
    lemma_mode_changes(modelled, now, begins, in_flight, app_limited, draw);
    lemma_window_changes(moded, acked, excess, in_flight);
    lemma_ending_changes(windowed, in_flight, begins, acked, largest);
}

/// Once the path is known to be full, this stays known.
pub proof fn law_full_bandwidth_stays_known(
    s: Bbr,
    now: Instant,
    in_flight: u64,
    app_limited: bool,
    largest: Option<u64>,
    draw: u8,
)
    requires
        s.is_at_full_bandwidth,
    ensures
        s.acks_ended(now, in_flight, app_limited, largest, draw).is_at_full_bandwidth,
        s.acks_ended(now, in_flight, app_limited, largest, draw).mode != Mode::Startup,
{
    lemma_batch(s, now, in_flight, app_limited, largest, draw);
}

/// Startup begins anew only out of ProbeRtt, and Drain begins only once the path
/// is known to be full.
pub proof fn law_modes_follow_the_model(
    s: Bbr,
    now: Instant,
    in_flight: u64,
    app_limited: bool,
    largest: Option<u64>,
    draw: u8,
)
    ensures
        ({
            let t = s.acks_ended(now, in_flight, app_limited, largest, draw);
            &&& t.mode == Mode::Startup ==> !t.is_at_full_bandwidth && (s.mode == Mode::Startup
                || s.mode == Mode::ProbeRtt)
            &&& t.mode == Mode::Drain && s.mode != Mode::Drain ==> t.is_at_full_bandwidth
        }),
{
    lemma_batch(s, now, in_flight, app_limited, largest, draw);
}

/// When the minimum RTT has expired it is measured anew at once; and measuring
/// ends only at the start of a round, once the time for it is over.
pub proof fn law_min_rtt_is_measured_in_time(
    s: Bbr,
    now: Instant,
    in_flight: u64,
    app_limited: bool,
    largest: Option<u64>,
    draw: u8,
)
    ensures
        ({
            let t = s.acks_ended(now, in_flight, app_limited, largest, draw);
            &&& s.min_rtt_expired(now, app_limited) && !s.exiting_quiescence && s.mode
                != Mode::ProbeRtt ==> t.mode == Mode::ProbeRtt && t.probe_rtt_last_started_at
                == Some(now) && t.pacing_gain == UNIT_GAIN
            &&& s.mode == Mode::ProbeRtt && t.mode != Mode::ProbeRtt ==> s.round_begins(largest)
                && (s.exit_probe_rtt_at matches Some(exit) && now.reached(exit))
        }),
{
    lemma_batch(s, now, in_flight, app_limited, largest, draw);
}

/// Without the full model no batch moves the bounds, and no batch touches the
/// packet store: BBRv1 keeps them open and empty for good.
pub proof fn law_bounds_move_only_in_the_full_model(
    s: Bbr,
    now: Instant,
    in_flight: u64,
    app_limited: bool,
    largest: Option<u64>,
    draw: u8,
)
    requires
        !s.full_model(),
    ensures
        s.acks_ended(now, in_flight, app_limited, largest, draw).has_bounds_of(s),
        s.acks_ended(now, in_flight, app_limited, largest, draw).sent_packets == s.sent_packets,
{
    lemma_batch(s, now, in_flight, app_limited, largest, draw);
}

/// Reports other than the end of a batch do not move the bounds, except that
/// BBRv2 lifts those on the flight with the MTU.
pub proof fn law_reports_do_not_lower_the_bounds(
    s: Bbr,
    now: Instant,
    bytes: u64,
    packet_bytes: u16,
    packet_number: u64,
    app_limited: bool,
    rtt: RttEstimator,
    event: CongestionEvent,
    persistent: bool,
    mtu: u16,
)
    ensures
        s.sent(now, bytes, packet_number).has_bounds_of(s),
        s.packet_counted(packet_bytes, packet_number).has_bounds_of(s),
        s.delivered(now, bytes, packet_number, app_limited, rtt).has_bounds_of(s),
        s.congestion_noted(event, persistent).has_bounds_of(s),
        (Bbr {
            tracked_in_flight: s.tracked_in_flight.saturating_sub(packet_bytes as u64),
            ..s
        }).has_bounds_of(s),
        s.mtu_updated(mtu).inflight_hi >= s.inflight_hi,
        s.mtu_updated(mtu).inflight_lo >= s.inflight_lo,
        s.mtu_updated(mtu).bw_lo == s.bw_lo,
        s.version == BbrVersion::V1 ==> s.mtu_updated(mtu).has_bounds_of(s),
{
}

/// BBRv1 does not look at the bounds: whatever they are, its window is the same,
/// and so is what a batch does to everything else.
pub proof fn law_v1_ignores_the_bounds(
    s: Bbr,
    bounds: (u64, u64, u64),
    now: Instant,
    in_flight: u64,
    app_limited: bool,
    largest: Option<u64>,
    draw: u8,
)
    requires
        s.version == BbrVersion::V1,
    ensures
        s.with_bounds(bounds.0, bounds.1, bounds.2).window_bytes() == s.window_bytes(),
        s.with_bounds(bounds.0, bounds.1, bounds.2).acks_ended(
            now,
            in_flight,
            app_limited,
            largest,
            draw,
        ) == s.acks_ended(now, in_flight, app_limited, largest, draw).with_bounds(
            bounds.0,
            bounds.1,
            bounds.2,
        ),
{
    let t = s.with_bounds(bounds.0, bounds.1, bounds.2);
    let begins = s.round_begins(largest);
    let acked = s.batch_acked();
    let excess = s.batch_excess(now);
    let taken = s.batch_taken_in(now, in_flight, largest);
    let answered = taken.losses_answered(now, in_flight, app_limited, begins);
    let modelled = answered.path_modelled(now, acked, begins, in_flight, app_limited);
    let moded = modelled.mode_updated(now, begins, in_flight, app_limited, draw);
    let windowed = moded.windows_updated(acked, excess, in_flight);
    lemma_end_of_batch_by_step(s, now, in_flight, app_limited, largest, draw);
    lemma_end_of_batch_by_step(t, now, in_flight, app_limited, largest, draw);
    lemma_taking_in_changes(s, now, in_flight, largest);
    lemma_answering_changes(taken, now, in_flight, app_limited, begins);
    lemma_modelling_changes(answered, now, acked, begins, in_flight, app_limited);
    lemma_mode_changes(modelled, now, begins, in_flight, app_limited, draw);
    lemma_window_changes(moded, acked, excess, in_flight);
    lemma_v1_losses_ignore_bounds(s, bounds, now, in_flight, app_limited, begins, largest);
    lemma_v1_losses_ignore_bounds(taken, bounds, now, in_flight, app_limited, begins, largest);
    lemma_v1_model_ignores_bounds(answered, bounds, now, acked, begins, in_flight, app_limited);
    lemma_v1_mode_ignores_bounds(modelled, bounds, now, begins, in_flight, app_limited, draw);
    lemma_v1_windows_ignore_bounds(moded, bounds, acked, excess, in_flight, begins, largest);
    lemma_v1_windows_ignore_bounds(windowed, bounds, acked, excess, in_flight, begins, largest);
}

/// The window of BBRv2 is the one of its mode, held to the bounds, but never below
/// four packets on their account.
pub proof fn law_v2_window_respects_the_bounds(s: Bbr)
    requires
        s.version == BbrVersion::V2,
    ensures
        s.window_bytes() <= s.base_window(),
        s.window_bytes() <= larger(s.inflight_hi, s.min_cwnd),
        s.uses_short_term_model() ==> s.window_bytes() <= larger(s.inflight_lo, s.min_cwnd),
        s.window_bytes() >= smaller(s.base_window(), s.min_cwnd),
        s.base_window() <= s.inflight_cap() ==> s.window_bytes() == s.base_window(),
{
    assert(s.long_term_cap() <= s.inflight_hi);
}

/// A congestion signal while probing lowers the long-term bound to the flight of
/// the lost packet, but not below seven tenths of the model nor four packets; it
/// never raises it. It installs no short-term bound, and ends an upward probe.
pub proof fn law_probing_loss_lowers_only_the_long_term_bound(
    s: Bbr,
    now: Instant,
    in_flight: u64,
    app_limited: bool,
)
    requires
        s.is_probing_bandwidth(),
        s.bw_probe_samples,
    ensures
        ({
            let t = s.signal_handled(now, in_flight, app_limited);
            &&& t.inflight_hi == smaller(
                s.inflight_hi,
                larger(in_flight, s.inflight_loss_floor()),
            )
            &&& t.inflight_hi >= smaller(s.inflight_hi, s.min_cwnd)
            &&& t.inflight_lo == s.inflight_lo
            &&& t.bw_lo == s.bw_lo
            &&& !t.bw_probe_samples
            &&& s.mode == Mode::ProbeBw && s.probe_bw_phase == ProbeBwPhase::Up
                ==> t.probe_bw_phase == ProbeBwPhase::Down
        }),
{
    let noted = s.signal_noted(in_flight);
    assert(noted.target_cwnd(UNIT_GAIN) == s.target_cwnd(UNIT_GAIN));
}

/// A congestion signal outside of probing leaves the long-term bound and the phase
/// alone. The short-term bound on the flight then covers the flight of the lost
/// packet and the model, and the one on the bandwidth stays above zero.
pub proof fn law_other_loss_lowers_only_the_short_term_bounds(
    s: Bbr,
    now: Instant,
    in_flight: u64,
    app_limited: bool,
)
    requires
        !(s.is_probing_bandwidth() && s.bw_probe_samples),
    ensures
        ({
            let t = s.signal_handled(now, in_flight, app_limited);
            &&& t.inflight_hi == s.inflight_hi
            &&& t.probe_bw_phase == s.probe_bw_phase
            &&& t.bw_probe_samples == s.bw_probe_samples
            &&& t.inflight_lo >= in_flight
            &&& t.inflight_lo >= s.inflight_floor()
            &&& t.inflight_lo >= s.min_cwnd
            &&& app_limited ==> t.bw_lo == s.bw_lo
            &&& !app_limited && s.bw_lo > 0 && s.max_bandwidth.estimate() > 0 ==> t.bw_lo > 0
        }),
{
    let noted = s.signal_noted(in_flight);
    assert(noted.target_cwnd(UNIT_GAIN) == s.target_cwnd(UNIT_GAIN));
}

/// No congestion signal raises the long-term bound, and of two in a row only the
/// first can lower it.
pub proof fn law_only_the_first_signal_lowers_the_long_term_bound(
    s: Bbr,
    now: Instant,
    in_flight: u64,
    app_limited: bool,
    later: Instant,
    later_in_flight: u64,
    later_app_limited: bool,
)
    ensures
        ({
            let once = s.signal_handled(now, in_flight, app_limited);
            let twice = once.signal_handled(later, later_in_flight, later_app_limited);
            &&& once.inflight_hi <= s.inflight_hi
            &&& twice.inflight_hi == once.inflight_hi
        }),
{
    let once = s.signal_handled(now, in_flight, app_limited);
    if s.is_probing_bandwidth() && s.bw_probe_samples {
        law_probing_loss_lowers_only_the_long_term_bound(s, now, in_flight, app_limited);
    } else {
        law_other_loss_lowers_only_the_short_term_bounds(s, now, in_flight, app_limited);
        assert(once.mode == s.mode && once.version == s.version);
    }
    law_other_loss_lowers_only_the_short_term_bounds(
        once,
        later,
        later_in_flight,
        later_app_limited,
    );
}

/// ProbeRtt is entered exactly where the minimum RTT has expired and the sender
/// does not come out of quiescence; it is left exactly at the start of a round,
/// once its time is over, for ProbeBw where the path is known to be full and for
/// Startup where it is not.
pub proof fn law_probe_rtt_is_entered_and_left_in_time(
    s: Bbr,
    now: Instant,
    is_round_start: bool,
    in_flight: u64,
    app_limited: bool,
    draw: u8,
)
    ensures
        ({
            let t = s.probe_rtt_updated(now, is_round_start, in_flight, app_limited, draw);
            let due = s.min_rtt_expired(now, app_limited) && !s.exiting_quiescence;
            &&& !t.exiting_quiescence
            &&& s.mode != Mode::ProbeRtt ==> {
                &&& t.mode == (if due {
                    Mode::ProbeRtt
                } else {
                    s.mode
                })
                &&& due ==> t.pacing_gain == UNIT_GAIN && t.probe_rtt_last_started_at == Some(now)
                &&& !due ==> t == (Bbr { exiting_quiescence: false, ..s })
            }
            &&& s.mode == Mode::ProbeRtt ==> t.mode == (if !s.probe_rtt_ends(now, is_round_start) {
                Mode::ProbeRtt
            } else if s.is_at_full_bandwidth {
                Mode::ProbeBw
            } else {
                Mode::Startup
            })
        }),
{
}

/// Where a batch draws no random number, it does the same whatever the number; and
/// the full model never draws one.
pub proof fn law_chance_plays_no_part_without_a_draw(
    s: Bbr,
    now: Instant,
    in_flight: u64,
    app_limited: bool,
    largest: Option<u64>,
    draw: u8,
    other: u8,
)
    requires
        s.full_model() || !s.batch_draws(now, in_flight, app_limited, largest),
    ensures
        s.acks_ended(now, in_flight, app_limited, largest, draw) == s.acks_ended(
            now,
            in_flight,
            app_limited,
            largest,
            other,
        ),
        !s.batch_draws(now, in_flight, app_limited, largest),
{
    lemma_batch_model_changes(s, now, in_flight, app_limited, largest);
    lemma_end_of_batch_by_step(s, now, in_flight, app_limited, largest, draw);
    lemma_end_of_batch_by_step(s, now, in_flight, app_limited, largest, other);
    lemma_undrawn_number_is_not_used(
        s.batch_modelled(now, in_flight, app_limited, largest),
        now,
        s.round_begins(largest),
        in_flight,
        app_limited,
        draw,
        other,
    );
}

/// The long-term bound falls only with congestion that meets the full model while
/// it probes for bandwidth, at the start of a round.
pub proof fn law_long_term_bound_falls_only_while_probing(
    s: Bbr,
    now: Instant,
    in_flight: u64,
    app_limited: bool,
    largest: Option<u64>,
    draw: u8,
)
    requires
        s.acks_ended(now, in_flight, app_limited, largest, draw).inflight_hi < s.inflight_hi,
    ensures
        s.full_model(),
        s.is_probing_bandwidth(),
        s.bw_probe_samples,
        s.round_begins(largest),
        s.batch_taken_in(now, in_flight, largest).loss_state.congested(),
{
    lemma_batch(s, now, in_flight, app_limited, largest, draw);
}

/// The long-term bound rises only during an upward probe of the full model that
/// makes use of it, and without congestion.
pub proof fn law_long_term_bound_rises_only_in_use(
    s: Bbr,
    now: Instant,
    in_flight: u64,
    app_limited: bool,
    largest: Option<u64>,
    draw: u8,
)
    requires
        s.acks_ended(now, in_flight, app_limited, largest, draw).inflight_hi > s.inflight_hi,
    ensures
        s.full_model(),
        s.mode == Mode::ProbeBw,
        s.pacing_gain > UNIT_GAIN,
        s.limit_utilized(s.batch_acked(), in_flight),
        !s.batch_taken_in(now, in_flight, largest).loss_state.congested(),
{
    lemma_batch(s, now, in_flight, app_limited, largest, draw);
}

/// Filling the path up to be probed, and probing it, lifts the short-term bounds.
pub proof fn law_probing_lifts_the_short_term_bounds(s: Bbr, now: Instant)
    ensures
        s.refilling(now).inflight_lo == u64::MAX && s.refilling(now).bw_lo == u64::MAX,
        s.probing_up(now).inflight_lo == u64::MAX && s.probing_up(now).bw_lo == u64::MAX,
        s.refilling(now).inflight_hi == s.inflight_hi,
        s.probing_up(now).inflight_hi == s.inflight_hi,
{
}

/// Acknowledgements during an upward probe count towards the long-term bound even
/// if the probe ends with them: the bound grows first, and no change of phase
/// takes the growth back.
pub proof fn law_growth_comes_before_the_phase(
    s: Bbr,
    now: Instant,
    bytes_acked: u64,
    is_round_start: bool,
    in_flight: u64,
)
    requires
        s.mode == Mode::ProbeBw,
    ensures
        s.bandwidth_probed(now, bytes_acked, is_round_start, in_flight).inflight_hi == s.probed_up(
            bytes_acked,
            is_round_start,
            in_flight,
        ).inflight_hi,
        s.probed_up(bytes_acked, is_round_start, in_flight).inflight_hi >= s.inflight_hi,
        !s.limit_utilized(bytes_acked, in_flight) ==> s.probed_up(
            bytes_acked,
            is_round_start,
            in_flight,
        ).inflight_hi == s.inflight_hi,
{
}

/// After a new MTU the window limits are at least four packets of it, and so is
/// the window outside of recovery and ProbeRtt. BBRv2 lifts its bounds with them.
pub proof fn law_mtu_lifts_the_windows(s: Bbr, mtu: u16)
    ensures
        ({
            let t = s.mtu_updated(mtu);
            &&& t.min_cwnd == min_window(mtu as u64)
            &&& t.cwnd >= t.min_cwnd
            &&& t.init_cwnd >= t.min_cwnd
            &&& t.cwnd >= s.cwnd
            &&& s.version == BbrVersion::V2 ==> t.inflight_hi >= t.min_cwnd && t.inflight_lo
                >= t.min_cwnd && t.inflight_hi >= s.mtu_changed(mtu).inflight_floor()
            &&& !t.recovery_state.in_recovery() && t.mode != Mode::ProbeRtt ==> t.window_bytes()
                >= t.min_cwnd
        }),
{
}

/// A window of at least four packets stays one through every batch. Before the
/// path is known to be full, it does not shrink either.
pub proof fn law_window_stays_open(
    s: Bbr,
    now: Instant,
    in_flight: u64,
    app_limited: bool,
    largest: Option<u64>,
    draw: u8,
)
    requires
        s.cwnd >= s.min_cwnd,
        s.cwnd + s.batch_acked() <= u64::MAX,
    ensures
        ({
            let t = s.acks_ended(now, in_flight, app_limited, largest, draw);
            &&& t.cwnd >= t.min_cwnd
            &&& t.cwnd <= larger((s.cwnd + s.batch_acked()) as u64, s.min_cwnd)
            &&& !t.is_at_full_bandwidth ==> t.cwnd >= s.cwnd
        }),
{
    lemma_batch(s, now, in_flight, app_limited, largest, draw);
}

/// The pacing rate does not fall before the path is known to be full.
pub proof fn law_pacing_does_not_fall_in_startup(
    s: Bbr,
    now: Instant,
    in_flight: u64,
    app_limited: bool,
    largest: Option<u64>,
    draw: u8,
)
    ensures
        ({
            let t = s.acks_ended(now, in_flight, app_limited, largest, draw);
            !t.is_at_full_bandwidth ==> t.pacing_rate >= s.pacing_rate
        }),
{
    lemma_batch(s, now, in_flight, app_limited, largest, draw);
}

/// In recovery the window covers what is in flight and what was just acknowledged,
/// and is no less than four packets.
pub proof fn law_recovery_window_covers_the_flight(
    s: Bbr,
    now: Instant,
    in_flight: u64,
    app_limited: bool,
    largest: Option<u64>,
    draw: u8,
)
    requires
        in_flight + s.batch_acked() <= u64::MAX,
    ensures
        ({
            let t = s.acks_ended(now, in_flight, app_limited, largest, draw);
            t.recovery_state.in_recovery() ==> t.recovery_window >= in_flight + s.batch_acked()
                && t.recovery_window >= t.min_cwnd
        }),
{
    lemma_batch(s, now, in_flight, app_limited, largest, draw);
}

/// A batch that counts as congestion starts recovery, or finds the controller in
/// it; without one no recovery begins, and recovery is over once everything sent
/// before the last congestion is acknowledged.
pub proof fn law_recovery_follows_congestion(
    s: Bbr,
    now: Instant,
    in_flight: u64,
    app_limited: bool,
    largest: Option<u64>,
    draw: u8,
)
    ensures
        ({
            let t = s.acks_ended(now, in_flight, app_limited, largest, draw);
            let congested = s.batch_taken_in(now, in_flight, largest).loss_state.congested();
            &&& congested ==> t.recovery_state.in_recovery()
            &&& !congested && !s.recovery_state.in_recovery() ==> !t.recovery_state.in_recovery()
            &&& !congested && s.newest_acked(largest) > s.end_recovery_at_packet_number
                ==> !t.recovery_state.in_recovery()
        }),
{
    lemma_batch(s, now, in_flight, app_limited, largest, draw);
}

/// An acknowledgement brings the minimum RTT down to what was measured, and lifts
/// it only when the old one has expired. The bandwidth estimate never falls with
/// it, and does not move where the sender had too little to send.
pub proof fn law_acknowledgements_sharpen_the_model(
    s: Bbr,
    now: Instant,
    bytes: u64,
    packet_number: u64,
    app_limited: bool,
    rtt: RttEstimator,
)
    requires
        s.wf(),
    ensures
        ({
            let t = s.delivered(now, bytes, packet_number, app_limited, rtt);
            &&& t.min_rtt.nanos <= rtt.min.nanos
            &&& !s.min_rtt_expired(now, app_limited) ==> t.min_rtt.nanos <= s.min_rtt.nanos
            &&& t.max_bandwidth.estimate() >= s.max_bandwidth.estimate()
            &&& app_limited ==> t.max_bandwidth.estimate() == s.max_bandwidth.estimate()
        }),
{
}

/// The phases of the full model follow each other: down, cruise, refill, up. An
/// upward probe that is not ended by loss lasts longer than the minimum RTT.
pub proof fn law_phases_follow_each_other(
    s: Bbr,
    now: Instant,
    in_flight: u64,
    is_round_start: bool,
)
    requires
        s.full_model(),
    ensures
        ({
            let t = s.phase_updated(now, in_flight, is_round_start);
            t.probe_bw_phase == s.probe_bw_phase || t.probe_bw_phase == (match s.probe_bw_phase {
                ProbeBwPhase::Down => ProbeBwPhase::Cruise,
                ProbeBwPhase::Cruise => ProbeBwPhase::Refill,
                ProbeBwPhase::Refill => ProbeBwPhase::Up,
                ProbeBwPhase::Up => ProbeBwPhase::Down,
            })
        }),
        s.probe_bw_phase == ProbeBwPhase::Up && s.phase_updated(
            now,
            in_flight,
            is_round_start,
        ).probe_bw_phase != ProbeBwPhase::Up ==> s.step_outlasts(now, s.min_rtt.nanos as int),
{
}

/// The packet store never outgrows its limit, which itself is bounded, and a
/// packet with a number above all others is remembered.
pub proof fn law_packet_store_is_bounded(
    s: Bbr,
    packet_number: u64,
    packet: BbrSentPacket,
    kept: Map<u64, BbrSentPacket>,
)
    requires
        keeps_newest(
            s.sent_packets@.insert(packet_number, packet),
            kept,
            s.packet_limit() as nat,
        ),
        s.sent_packets@.dom().finite(),
        forall|number: u64| #[trigger]
            s.sent_packets@.contains_key(number) ==> number <= packet_number,
    ensures
        BBR_SENT_PACKET_MODEL_MIN_PACKETS <= s.packet_limit() <= BBR_SENT_PACKET_MODEL_MAX_PACKETS,
        kept.len() <= s.packet_limit(),
        kept.contains_key(packet_number) && kept[packet_number] == packet,
{
    let all = s.sent_packets@.insert(packet_number, packet);
    assert(all.dom().contains(packet_number));
    assert(all.len() > 0) by {
        assert(all.dom() =~= s.sent_packets@.dom().insert(packet_number));
        if all.dom().len() == 0 {
            assert(all.dom() =~= Set::empty());
        }
    }
    assert(kept.dom().len() > 0);
    let held = kept.dom().choose();
    assert(kept.dom().contains(held)) by {
        if forall|number: u64| !kept.dom().contains(number) {
            assert(kept.dom() =~= Set::empty());
        }
    }
    assert(kept.contains_key(held));
    assert(all.contains_key(held));
    if !kept.contains_key(packet_number) {
        assert(packet_number < held);
    }
}

/// The gain cycle never starts with the draining step, and every other step can be
/// the first one.
pub proof fn law_cycle_starts_without_draining(draw: u8, step: u8)
    ensures
        draw < CYCLE_LENGTH - 1 ==> cycle_start(draw) < CYCLE_LENGTH && cycle_gain(
            cycle_start(draw),
        ) != CYCLE_DRAIN_GAIN,
        step < CYCLE_LENGTH && cycle_gain(step) != CYCLE_DRAIN_GAIN ==> exists|d: u8|
            d < CYCLE_LENGTH - 1 && #[trigger] cycle_start(d) == step,
{
    if step == 0 {
        assert(cycle_start(0) == step);
    } else if step < CYCLE_LENGTH && step != 1 {
        assert(cycle_start((step - 1) as u8) == step);
    }
}

/// No window of the model exceeds the initial one, four packets or 55 bits.
proof fn lemma_target_is_bounded(s: Bbr, gain: u32)
    ensures
        s.target_cwnd(gain) <= larger(larger(s.init_cwnd, s.min_cwnd), 0x80_0000_0000_0000),
{
    law_millionth_part_is_small(gain, s.bdp() as u64);
}

/// Where the bandwidth-delay product fits without the short-term bound, it fits
/// with it.
proof fn lemma_bdp_is_bounded(s: Bbr, t: Bbr)
    requires
        s.min_rtt.micros() * s.max_bandwidth.estimate() <= u64::MAX,
        t.min_rtt == s.min_rtt,
        t.max_bandwidth.estimate() == s.max_bandwidth.estimate(),
    ensures
        t.bdp_fits(),
{
    let (rtt, low, high) = (
        s.min_rtt.micros() as int,
        t.effective_bandwidth() as int,
        s.max_bandwidth.estimate() as int,
    );
    assert(rtt * low <= rtt * high) by (nonlinear_arith)
        requires
            rtt >= 0,
            low <= high,
    ;
}

/// Probing upward leaves alone what the arithmetic of the phases rests on.
proof fn lemma_probing_up_keeps_the_model(
    s: Bbr,
    bytes_acked: u64,
    is_round_start: bool,
    in_flight: u64,
)
    ensures
        ({
            let up = s.probed_up(bytes_acked, is_round_start, in_flight);
            up == (Bbr {
                inflight_hi: up.inflight_hi,
                probe_up_acked: up.probe_up_acked,
                probe_up_rounds: up.probe_up_rounds,
                ..s
            })
        }),
{
}

/// A step of the phases does not count rounds without growth.
proof fn lemma_phases_count_no_growth(
    s: Bbr,
    now: Instant,
    in_flight: u64,
    is_round_start: bool,
)
    ensures
        s.phase_updated(now, in_flight, is_round_start).round_wo_bw_gain == s.round_wo_bw_gain,
{
}

/// Ordinary batches can be probed with.
#[verifier::spinoff_prover]
proof fn lemma_ordinary_probe_fits(
    s: Bbr,
    now: Instant,
    bytes_acked: u64,
    is_round_start: bool,
    in_flight: u64,
)
    requires
        s.current_mtu > 0,
        s.min_rtt.micros() * s.max_bandwidth.estimate() <= u64::MAX,
        s.min_rtt.octuple_fits(),
    ensures
        s.bandwidth_probe_fits(now, bytes_acked, is_round_start, in_flight),
{
    let up = s.probed_up(bytes_acked, is_round_start, in_flight);
    lemma_probing_up_keeps_the_model(s, bytes_acked, is_round_start, in_flight);
    lemma_bdp_is_bounded(s, up);
}

/// The model takes in ordinary batches.
#[verifier::spinoff_prover]
proof fn lemma_ordinary_model_fits(
    s: Bbr,
    now: Instant,
    bytes_acked: u64,
    is_round_start: bool,
    in_flight: u64,
    app_limited: bool,
)
    requires
        s.current_mtu > 0,
        s.min_rtt.micros() * s.max_bandwidth.estimate() <= u64::MAX,
        s.min_rtt.octuple_fits(),
        s.round_wo_bw_gain < u64::MAX,
    ensures
        s.model_fits(now, bytes_acked, is_round_start, in_flight, app_limited),
{
    lemma_ordinary_probe_fits(s, now, bytes_acked, is_round_start, in_flight);
    let up = s.probed_up(bytes_acked, is_round_start, in_flight);
    lemma_probing_up_keeps_the_model(s, bytes_acked, is_round_start, in_flight);
    lemma_phases_count_no_growth(up, now, in_flight, is_round_start);
    let probed = s.bandwidth_probed(now, bytes_acked, is_round_start, in_flight);
    assert(probed.round_wo_bw_gain == s.round_wo_bw_gain);
    reveal(Bbr::model_fits);
}

/// The mode and the windows take in ordinary batches.
proof fn lemma_ordinary_windows_fit(
    s: Bbr,
    now: Instant,
    in_flight: u64,
    app_limited: bool,
    largest: Option<u64>,
    draw: u8,
)
    requires
        s.wf(),
        s.min_rtt.micros() * s.max_bandwidth.estimate() <= u64::MAX,
        s.max_bandwidth.estimate() * s.ack_aggregation.epoch_micros(now) <= u64::MAX,
        now.nanos + PROBE_RTT_NANOS <= u128::MAX,
        in_flight < ORDINARY_BYTES,
        s.batch_acked() < ORDINARY_BYTES,
        s.cwnd < ORDINARY_BYTES,
        s.init_cwnd < ORDINARY_BYTES,
        s.recovery_window < ORDINARY_BYTES,
        s.ack_aggregation.aggregation_epoch_bytes < ORDINARY_BYTES,
        s.ack_aggregation.max_ack_height.best.value < ORDINARY_BYTES,
        s.ack_aggregation.max_ack_height.second.value < ORDINARY_BYTES,
        s.ack_aggregation.max_ack_height.third.value < ORDINARY_BYTES,
    ensures
        s.batch_window_fits(now, in_flight, app_limited, largest, draw),
{
    let begins = s.round_begins(largest);
    let acked = s.batch_acked();
    let excess = s.batch_excess(now);
    let taken = s.batch_taken_in(now, in_flight, largest);
    let answered = taken.losses_answered(now, in_flight, app_limited, begins);
    let modelled = answered.path_modelled(now, acked, begins, in_flight, app_limited);
    let moded = modelled.mode_updated(now, begins, in_flight, app_limited, draw);
    lemma_taking_in_changes(s, now, in_flight, largest);
    lemma_answering_changes(taken, now, in_flight, app_limited, begins);
    lemma_modelling_changes(answered, now, acked, begins, in_flight, app_limited);
    lemma_mode_changes(modelled, now, begins, in_flight, app_limited, draw);
    law_maximum_was_measured(s.ack_aggregation.max_ack_height, s.round_count, excess);
    assert(excess < 2 * ORDINARY_BYTES);
    assert(moded.ack_aggregation.max_ack_height.get() < 2 * ORDINARY_BYTES);
    lemma_ordinary_mode_fits(s, modelled, now, in_flight, app_limited, draw);
    lemma_bdp_is_bounded(s, moded.paced());
    lemma_target_is_bounded(moded.paced(), moded.cwnd_gain);
    assert(moded.windows_fit(acked, excess, in_flight)) by {
        reveal(Bbr::windows_fit);
    }
    reveal(Bbr::batch_window_fits);
    reveal(Bbr::batch_modelled);
}

/// The mode takes in ordinary batches.
proof fn lemma_ordinary_mode_fits(
    s: Bbr,
    t: Bbr,
    now: Instant,
    in_flight: u64,
    app_limited: bool,
    draw: u8,
)
    requires
        s.min_rtt.micros() * s.max_bandwidth.estimate() <= u64::MAX,
        now.nanos + PROBE_RTT_NANOS <= u128::MAX,
        t.min_rtt == s.min_rtt,
        t.max_bandwidth.estimate() == s.max_bandwidth.estimate(),
        t.current_mtu <= u16::MAX,
        t.min_cwnd == min_window(t.current_mtu),
        t.init_cwnd < ORDINARY_BYTES,
    ensures
        t.mode_fits(now, in_flight, app_limited, draw),
{
    reveal(Bbr::mode_fits);
    lemma_bdp_is_bounded(s, t.startup_left());
    let entered = t.drain_left(now, in_flight, draw).probe_rtt_entered(now, app_limited);
    lemma_bdp_is_bounded(s, entered);
    lemma_target_is_bounded(entered, MODERATE_PROBE_RTT_MULTIPLIER);
}

/// Batches of ordinary size can be taken in: it is enough that every counter of
/// bytes stays below `2^60`, and that the bandwidth-delay product and what the
/// bandwidth delivers in an aggregation epoch fit 64 bits.
pub proof fn law_ordinary_batches_fit(
    s: Bbr,
    now: Instant,
    in_flight: u64,
    app_limited: bool,
    largest: Option<u64>,
)
    requires
        s.wf(),
        s.current_mtu > 0,
        s.min_rtt.micros() * s.max_bandwidth.estimate() <= u64::MAX,
        s.max_bandwidth.estimate() * s.ack_aggregation.epoch_micros(now) <= u64::MAX,
        s.min_rtt.octuple_fits(),
        now.nanos + PROBE_RTT_NANOS <= u128::MAX,
        s.round_count < u64::MAX,
        s.round_wo_bw_gain < u64::MAX,
        in_flight < ORDINARY_BYTES,
        s.batch_acked() < ORDINARY_BYTES,
        s.cwnd < ORDINARY_BYTES,
        s.init_cwnd < ORDINARY_BYTES,
        s.recovery_window < ORDINARY_BYTES,
        s.loss_state.round_delivered_bytes < ORDINARY_BYTES,
        s.loss_state.round_lost_bytes < ORDINARY_BYTES,
        s.ack_aggregation.aggregation_epoch_bytes < ORDINARY_BYTES,
        s.ack_aggregation.max_ack_height.best.value < ORDINARY_BYTES,
        s.ack_aggregation.max_ack_height.second.value < ORDINARY_BYTES,
        s.ack_aggregation.max_ack_height.third.value < ORDINARY_BYTES,
    ensures
        s.end_acks_fits(now, in_flight, app_limited, largest),
{
    let begins = s.round_begins(largest);
    let acked = s.batch_acked();
    let taken = s.batch_taken_in(now, in_flight, largest);
    let answered = taken.losses_answered(now, in_flight, app_limited, begins);
    lemma_taking_in_changes(s, now, in_flight, largest);
    lemma_answering_changes(taken, now, in_flight, app_limited, begins);
    lemma_bdp_is_bounded(s, taken);
    lemma_bdp_is_bounded(s, answered);
    assert(s.batch_fits(now, in_flight, largest)) by {
        reveal(Bbr::batch_fits);
    }
    assert(taken.losses_fit(begins)) by {
        reveal(Bbr::losses_fit);
    }
    lemma_ordinary_model_fits(answered, now, acked, begins, in_flight, app_limited);
    assert(s.batch_model_fits(now, in_flight, app_limited, largest)) by {
        reveal(Bbr::batch_model_fits);
    }
    assert forall|draw: u8| draw < CYCLE_LENGTH - 1 implies #[trigger] s.batch_window_fits(
        now,
        in_flight,
        app_limited,
        largest,
        draw,
    ) by {
        lemma_ordinary_windows_fit(s, now, in_flight, app_limited, largest, draw);
    }
}

} // verus!
