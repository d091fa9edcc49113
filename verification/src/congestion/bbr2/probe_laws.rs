//! What probing, cycling, loss and recovery come to, in numbers.

use vstd::prelude::*;

use vstd::arithmetic::power2::{lemma2_to64, lemma_pow2_pos, lemma_pow2_unfold, pow2};

use crate::arith::larger;
use crate::gain::UNIT_GAIN;
use crate::time::Instant;
use super::{Bbr, BbrVersion, Mode, ProbeBwPhase, RecoveryState};

verus! {

/// The gains of the phases, as multiples of `2^-25`: 0.9 to drain, 1 to cruise and to
/// refill, 1.25 to probe; the window gain is 2, and 2.25 to probe. Each phase counts
/// its time from its start. Probes take samples, draining does not.
pub proof fn law_phases_set_their_gains(s: Bbr, now: Instant)
    ensures
        ({
            let t = s.probing_down(now);
            &&& t.probe_bw_phase == ProbeBwPhase::Down && t.last_cycle_start == Some(now)
            &&& t.pacing_gain == 30_198_988 && t.cwnd_gain == 67_108_864
            &&& !t.bw_probe_samples && t.probe_up_acked == 0
            &&& t.has_bounds_of(s) && t.mode == s.mode && t.probe_up_rounds == s.probe_up_rounds
        }),
        ({
            let t = s.cruising(now);
            &&& t.probe_bw_phase == ProbeBwPhase::Cruise && t.last_cycle_start == Some(now)
            &&& t.pacing_gain == 33_554_432 && t.cwnd_gain == 67_108_864
            &&& t.bw_probe_samples == s.bw_probe_samples && t.probe_up_acked == s.probe_up_acked
            &&& t.has_bounds_of(s) && t.mode == s.mode && t.probe_up_rounds == s.probe_up_rounds
        }),
        ({
            let t = s.refilling(now);
            &&& t.probe_bw_phase == ProbeBwPhase::Refill && t.last_cycle_start == Some(now)
            &&& t.pacing_gain == 33_554_432 && t.cwnd_gain == 67_108_864
            &&& t.bw_probe_samples && t.probe_up_acked == 0
            &&& t.inflight_lo == u64::MAX && t.bw_lo == u64::MAX && t.inflight_hi == s.inflight_hi
            &&& t.mode == s.mode && t.probe_up_rounds == s.probe_up_rounds
        }),
        ({
            let t = s.probing_up(now);
            &&& t.probe_bw_phase == ProbeBwPhase::Up && t.last_cycle_start == Some(now)
            &&& t.pacing_gain == 41_943_040 && t.cwnd_gain == 75_497_472
            &&& t.bw_probe_samples && t.probe_up_acked == 0
            &&& t.inflight_lo == u64::MAX && t.bw_lo == u64::MAX && t.inflight_hi == s.inflight_hi
            &&& t.mode == s.mode && t.probe_up_rounds == s.probe_up_rounds
        }),
{
}

/// Draining is over exactly once no more is in flight than the target, and no more
/// than 85 of a hundred bytes of the long-term bound where there is one.
pub proof fn law_draining_ends_when_the_queue_is_gone(
    s: Bbr,
    now: Instant,
    in_flight: u64,
    is_round_start: bool,
)
    requires
        s.full_model(),
        s.probe_bw_phase == ProbeBwPhase::Down,
        s.inflight_hi < u64::MAX ==> s.inflight_hi * 85 <= u64::MAX,
    ensures
        ({
            let t = s.phase_updated(now, in_flight, is_round_start);
            let drained = in_flight <= s.target_cwnd(UNIT_GAIN) && (s.inflight_hi < u64::MAX
                ==> in_flight * 100 <= s.inflight_hi * 85);
            &&& drained ==> t == s.cruising(now)
            &&& !drained ==> t == s
        }),
{
}

/// The other phases: cruising ends more than eight minimum RTTs after its start,
/// refilling with a round, and an upward probe more than one minimum RTT after its
/// start, if then more is in flight than one and a quarter targets.
pub proof fn law_phases_end_in_time(
    s: Bbr,
    now: Instant,
    in_flight: u64,
    is_round_start: bool,
    start: Instant,
)
    requires
        s.full_model(),
        s.last_cycle_start == Some(start),
        start.nanos <= now.nanos,
    ensures
        ({
            let t = s.phase_updated(now, in_flight, is_round_start);
            let elapsed = now.nanos - start.nanos;
            &&& s.probe_bw_phase == ProbeBwPhase::Cruise && elapsed > 8 * s.min_rtt.nanos ==> t
                == s.refilling(now)
            &&& s.probe_bw_phase == ProbeBwPhase::Cruise && elapsed <= 8 * s.min_rtt.nanos ==> t
                == s
            &&& s.probe_bw_phase == ProbeBwPhase::Refill && is_round_start ==> t == s.probing_up(
                now,
            )
            &&& s.probe_bw_phase == ProbeBwPhase::Refill && !is_round_start ==> t == s
            &&& s.probe_bw_phase == ProbeBwPhase::Up && elapsed > s.min_rtt.nanos && in_flight
                > s.target_cwnd(41_943_040) ==> t == s.probing_down(now)
            &&& s.probe_bw_phase == ProbeBwPhase::Up && !(elapsed > s.min_rtt.nanos && in_flight
                > s.target_cwnd(41_943_040)) ==> t == s
        }),
{
}

/// Without the full model a bandwidth probe is the gain cycle; the phase stays.
pub proof fn law_gain_cycle_is_the_probe_without_the_full_model(
    s: Bbr,
    now: Instant,
    in_flight: u64,
    is_round_start: bool,
)
    requires
        !s.full_model(),
    ensures
        s.phase_updated(now, in_flight, is_round_start) == s.gain_cycled(now, in_flight),
        s.gain_cycled(now, in_flight).probe_bw_phase == s.probe_bw_phase,
        s.gain_cycled(now, in_flight).has_bounds_of(s),
{
}

/// The gain cycle moves on more than a minimum RTT after its last step. A probe
/// without loss waits until its target was in flight; a drain does not wait once no
/// more than the target is in flight.
pub proof fn law_gain_cycle_moves_in_time(s: Bbr, now: Instant, in_flight: u64)
    requires
        !s.full_model(),
        s.current_cycle_offset < 8,
    ensures
        ({
            let t = s.gain_cycled(now, in_flight);
            let outlasted = s.last_cycle_start is Some && now.since(s.last_cycle_start->0).nanos
                > s.min_rtt.nanos;
            let unfilled = s.pacing_gain > UNIT_GAIN && s.loss_state.congestion_lost_bytes == 0
                && s.prev_in_flight_count < s.target_cwnd(s.pacing_gain);
            let drained = s.pacing_gain < UNIT_GAIN && in_flight <= s.target_cwnd(UNIT_GAIN);
            let moves = drained || (outlasted && !unfilled);
            &&& !moves ==> t == s
            &&& moves ==> t.last_cycle_start == Some(now)
            &&& moves && s.current_cycle_offset < 7 ==> t.current_cycle_offset
                == s.current_cycle_offset + 1
            &&& moves && s.current_cycle_offset == 7 ==> t.current_cycle_offset == 0
            &&& moves && t.current_cycle_offset == 0 ==> t.pacing_gain == 41_943_040
            &&& moves && t.current_cycle_offset == 1 ==> t.pacing_gain == 25_165_824
            &&& moves && t.current_cycle_offset >= 2 ==> t.pacing_gain == (if s.pacing_gain
                < UNIT_GAIN && in_flight > s.target_cwnd(UNIT_GAIN) {
                s.pacing_gain
            } else {
                33_554_432
            })
            &&& t == (Bbr {
                current_cycle_offset: t.current_cycle_offset,
                last_cycle_start: t.last_cycle_start,
                pacing_gain: t.pacing_gain,
                ..s
            })
        }),
{
}

/// In the full model a gain cycle that comes to its probing step starts an upward
/// probe; all other steps are as without the full model.
pub proof fn law_gain_cycle_of_the_full_model(s: Bbr, now: Instant, in_flight: u64, plain: Bbr)
    requires
        s.full_model(),
        s.current_cycle_offset < 8,
        !plain.full_model(),
        plain == (Bbr { config: plain.config, ..s }),
    ensures
        ({
            let t = s.gain_cycled(now, in_flight);
            let p = plain.gain_cycled(now, in_flight);
            let probes = p.current_cycle_offset != s.current_cycle_offset && p.current_cycle_offset
                == 0;
            &&& t.current_cycle_offset == p.current_cycle_offset
            &&& probes ==> t == (Bbr { current_cycle_offset: 0, ..s.probing_up(now) })
            &&& !probes ==> t == (Bbr { config: s.config, ..p })
        }),
{
    assert(plain.target_cwnd(UNIT_GAIN) == s.target_cwnd(UNIT_GAIN));
    assert(plain.target_cwnd(s.pacing_gain) == s.target_cwnd(s.pacing_gain));
    assert(plain.cycle_advances(now, in_flight) == s.cycle_advances(now, in_flight));
}

/// How ProbeBw begins: the window gain is 2. The full model begins by draining; else
/// the gain cycle begins at the step drawn, and the phase is to cruise.
pub proof fn law_probing_begins(s: Bbr, now: Instant, draw: u8)
    requires
        draw < 7,
    ensures
        ({
            let t = s.probing_bandwidth(now, draw);
            &&& t.mode == Mode::ProbeBw && t.last_cycle_start == Some(now) && t.cwnd_gain
                == 67_108_864
            &&& t.has_bounds_of(s) && t.cwnd == s.cwnd && t.pacing_rate == s.pacing_rate
            &&& s.full_model() ==> t.probe_bw_phase == ProbeBwPhase::Down && t.pacing_gain
                == 30_198_988 && !t.bw_probe_samples && t.probe_up_acked == 0
                && t.current_cycle_offset == s.current_cycle_offset
            &&& !s.full_model() ==> t.probe_bw_phase == ProbeBwPhase::Cruise
                && t.bw_probe_samples == s.bw_probe_samples
            &&& !s.full_model() && draw == 0 ==> t.current_cycle_offset == 0 && t.pacing_gain
                == 41_943_040
            &&& !s.full_model() && draw > 0 ==> t.current_cycle_offset == draw + 1 && t.pacing_gain
                == 33_554_432
        }),
{
}

/// How the other modes begin: Startup with its own gains, and Drain with its own.
pub proof fn law_modes_set_their_gains(s: Bbr)
    ensures
        s.starting_up() == (Bbr {
            mode: Mode::Startup,
            pacing_gain: s.high_gain,
            cwnd_gain: s.high_cwnd_gain,
            ..s
        }),
        s.mode == Mode::Startup && s.is_at_full_bandwidth ==> s.startup_left() == (Bbr {
            mode: Mode::Drain,
            pacing_gain: s.drain_gain,
            cwnd_gain: s.high_cwnd_gain,
            ..s
        }),
        s.mode != Mode::Startup || !s.is_at_full_bandwidth ==> s.startup_left() == s,
{
}

/// Startup is left once the path is known to be full, and Drain once no more than the
/// target is in flight; both can happen at once.
pub proof fn law_startup_and_drain_end(s: Bbr, now: Instant, in_flight: u64, draw: u8)
    requires
        draw < 7,
    ensures
        ({
            let t = s.drain_left(now, in_flight, draw);
            let draining = s.mode == Mode::Drain || (s.mode == Mode::Startup
                && s.is_at_full_bandwidth);
            let target = (Bbr { mode: Mode::Drain, ..s }).target_cwnd(UNIT_GAIN);
            &&& !draining ==> t == s
            &&& draining && in_flight > target ==> t.mode == Mode::Drain
            &&& draining && in_flight <= target ==> t.mode == Mode::ProbeBw && t.cwnd_gain
                == 67_108_864 && t.last_cycle_start == Some(now)
            &&& draining && in_flight > target && s.mode == Mode::Startup ==> t.pacing_gain
                == s.drain_gain && t.cwnd_gain == s.high_cwnd_gain
            &&& draining && in_flight > target && s.mode == Mode::Drain ==> t == s
            &&& t.has_bounds_of(s)
        }),
{
    let left = s.startup_left();
    assert(left.target_cwnd(UNIT_GAIN) == (Bbr { mode: Mode::Drain, ..s }).target_cwnd(UNIT_GAIN)
        || !(s.mode == Mode::Drain || (s.mode == Mode::Startup && s.is_at_full_bandwidth)));
}

/// When ProbeRtt sets its end: once less is in flight than three quarters of the
/// target and one packet; 200 milliseconds from then.
pub proof fn law_probe_rtt_sets_its_end(
    s: Bbr,
    now: Instant,
    is_round_start: bool,
    in_flight: u64,
    draw: u8,
)
    requires
        s.mode == Mode::ProbeRtt,
        now.nanos + 200_000_000 <= u128::MAX,
    ensures
        ({
            let t = s.probe_rtt_left(now, is_round_start, in_flight, draw);
            let reached = in_flight < s.target_cwnd(25_165_824) + s.current_mtu;
            &&& s.exit_probe_rtt_at is None && reached ==> t.exit_probe_rtt_at is Some
                && t.exit_probe_rtt_at->0.nanos == now.nanos + 200_000_000 && t.mode
                == Mode::ProbeRtt
            &&& s.exit_probe_rtt_at is None && !reached ==> t == s
            &&& s.exit_probe_rtt_at matches Some(exit) ==> {
                &&& is_round_start && now.nanos >= exit.nanos && !s.is_at_full_bandwidth ==> t.mode
                    == Mode::Startup && t.pacing_gain == s.high_gain && t.cwnd_gain
                    == s.high_cwnd_gain
                &&& is_round_start && now.nanos >= exit.nanos && s.is_at_full_bandwidth ==> t
                    == s.probing_bandwidth(now, draw)
                &&& !(is_round_start && now.nanos >= exit.nanos) ==> t == s
            }
        }),
{
}

/// ProbeRtt begins where the sender had enough to send, does not come out of
/// quiescence, and has not begun one in the last ten seconds; with gain 1, and with
/// its end still open.
pub proof fn law_probe_rtt_begins(s: Bbr, now: Instant, app_limited: bool)
    ensures
        ({
            let t = s.probe_rtt_entered(now, app_limited);
            let due = !app_limited && !s.exiting_quiescence && s.mode != Mode::ProbeRtt && (
            s.probe_rtt_last_started_at is None || now.since(
                s.probe_rtt_last_started_at->0,
            ).nanos > 10_000_000_000);
            &&& due ==> t == (Bbr {
                mode: Mode::ProbeRtt,
                pacing_gain: 33_554_432,
                exit_probe_rtt_at: None,
                probe_rtt_last_started_at: Some(now),
                ..s
            })
            &&& !due ==> t == s
        }),
{
}

/// How a batch moves recovery. Congestion, in recovery or not, moves its end to the
/// last packet sent; it begins with congestion; it ends only by a batch without
/// congestion that acknowledges a packet beyond that end; and conservation turns into
/// growth with a round.
pub proof fn law_recovery_in_numbers(s: Bbr, is_round_start: bool)
    ensures
        ({
            let t = s.recovery_updated(is_round_start);
            let congested = s.loss_state.congestion_lost_bytes > 0;
            let before = s.recovery_state != RecoveryState::NotInRecovery;
            let after = t.recovery_state != RecoveryState::NotInRecovery;
            &&& congested ==> t.end_recovery_at_packet_number == s.max_sent_packet_number
            &&& !congested ==> t.end_recovery_at_packet_number == s.end_recovery_at_packet_number
            &&& congested ==> after
            &&& !congested && !before ==> !after
            &&& !congested && before ==> (after <==> s.max_acked_packet_number
                <= s.end_recovery_at_packet_number)
            &&& congested && !before ==> t.recovery_state == RecoveryState::Conservation
                && t.recovery_window == 0 && t.current_round_trip_end_packet_number
                == s.max_sent_packet_number
            &&& !congested || before ==> t.recovery_window == s.recovery_window
                && t.current_round_trip_end_packet_number == s.current_round_trip_end_packet_number
            &&& before && after && is_round_start ==> t.recovery_state == RecoveryState::Growth
            &&& before && after && !is_round_start ==> t.recovery_state == s.recovery_state
            &&& t == (Bbr {
                end_recovery_at_packet_number: t.end_recovery_at_packet_number,
                recovery_state: t.recovery_state,
                recovery_window: t.recovery_window,
                current_round_trip_end_packet_number: t.current_round_trip_end_packet_number,
                ..s
            })
        }),
{
}

/// Recovery outlasts the losses in it: after a batch with congestion, whatever came
/// before, a later batch without it ends recovery exactly if it acknowledges a packet
/// sent after the last congested one.
pub proof fn law_recovery_outlasts_every_loss(
    s: Bbr,
    is_round_start: bool,
    later: Bbr,
    later_round_start: bool,
)
    requires
        s.loss_state.congestion_lost_bytes > 0,
        later.loss_state.congestion_lost_bytes == 0,
        later.recovery_state == s.recovery_updated(is_round_start).recovery_state,
        later.end_recovery_at_packet_number == s.recovery_updated(
            is_round_start,
        ).end_recovery_at_packet_number,
    ensures
        later.recovery_updated(later_round_start).recovery_state == RecoveryState::NotInRecovery
            <==> later.max_acked_packet_number > s.max_sent_packet_number,
{
}

/// What a loss outside of probing leaves of the short-term bounds: seven tenths of
/// the bound, or of the window and the estimate where there was none yet; but no less
/// than the flight of the lost packet, what was delivered last, and the model.
pub proof fn law_short_term_bounds_in_numbers(s: Bbr, in_flight: u64, app_limited: bool)
    requires
        s.version == BbrVersion::V2,
        !(s.is_probing_bandwidth() && s.bw_probe_samples),
        s.cwnd * 7 <= u64::MAX,
        s.inflight_lo < u64::MAX ==> s.inflight_lo * 7 <= u64::MAX,
        s.bw_lo < u64::MAX ==> s.bw_lo * 7 <= u64::MAX,
        s.max_bandwidth.estimate() * 7 <= u64::MAX,
    ensures
        forall|now: Instant|
            ({
                let t = #[trigger] s.signal_handled(now, in_flight, app_limited);
                let flight = if s.inflight_lo == u64::MAX {
                    s.cwnd
                } else {
                    s.inflight_lo
                };
                let bw = if s.bw_lo == u64::MAX {
                    s.max_bandwidth.estimate()
                } else {
                    s.bw_lo
                };
                &&& 10 * t.inflight_lo + 10 > 7 * flight
                &&& t.inflight_lo >= in_flight && t.inflight_lo >= s.target_cwnd(UNIT_GAIN)
                    && t.inflight_lo >= s.min_cwnd
                &&& 10 * t.inflight_lo <= 7 * flight || t.inflight_lo == in_flight || t.inflight_lo
                    == s.target_cwnd(UNIT_GAIN) || t.inflight_lo == s.min_cwnd
                &&& app_limited ==> t.bw_lo == s.bw_lo
                &&& !app_limited && bw > 0 ==> t.bw_lo >= 1 && 10 * t.bw_lo + 10 > 7 * bw
                    && t.bw_lo >= s.max_bandwidth.estimate() && (10 * t.bw_lo <= 7 * bw || t.bw_lo
                    == 1 || t.bw_lo == s.max_bandwidth.estimate())
                &&& !app_limited && bw == 0 ==> t.bw_lo == 0
                &&& t.inflight_hi == s.inflight_hi
                &&& t.inflight_latest == in_flight && t.bw_latest == s.max_bandwidth.estimate()
            }),
{
    assert forall|now: Instant| ({
        let t = #[trigger] s.signal_handled(now, in_flight, app_limited);
        let noted = s.signal_noted(in_flight);
        t == noted.short_term_reduced(in_flight, app_limited) && noted.target_cwnd(UNIT_GAIN)
            == s.target_cwnd(UNIT_GAIN)
    }) by {}
}

/// A reduction of the short-term bounds keeps what was delivered last.
pub proof fn law_short_term_bounds_keep_what_was_delivered(
    s: Bbr,
    in_flight: u64,
    app_limited: bool,
)
    ensures
        s.short_term_reduced(in_flight, app_limited).inflight_lo >= s.inflight_latest,
        !app_limited && s.bw_lo > 0 && s.max_bandwidth.estimate() > 0 ==> s.short_term_reduced(
            in_flight,
            app_limited,
        ).bw_lo >= s.bw_latest,
{
}

/// A signal while probing sets the counts of the upward probe back, and keeps
/// everything but the long-term bound, the samples and the phase.
pub proof fn law_probing_loss_restarts_the_growth(
    s: Bbr,
    now: Instant,
    in_flight: u64,
    app_limited: bool,
)
    requires
        s.is_probing_bandwidth(),
        s.bw_probe_samples,
    ensures
        ({
            let t = s.signal_handled(now, in_flight, app_limited);
            &&& t.probe_up_acked == 0 && t.probe_up_rounds == 0
            &&& t.cwnd == s.cwnd && t.mode == s.mode && t.max_bandwidth == s.max_bandwidth
            &&& t.inflight_latest == in_flight && t.bw_latest == s.max_bandwidth.estimate()
            &&& !(s.mode == Mode::ProbeBw && s.probe_bw_phase == ProbeBwPhase::Up)
                ==> t.probe_bw_phase == s.probe_bw_phase && t.pacing_gain == s.pacing_gain
                && t.cwnd_gain == s.cwnd_gain && t.last_cycle_start == s.last_cycle_start
            &&& s.mode == Mode::ProbeBw && s.probe_bw_phase == ProbeBwPhase::Up ==> t.pacing_gain
                == 30_198_988 && t.cwnd_gain == 67_108_864 && t.last_cycle_start == Some(now)
        }),
{
}

/// How the long-term bound grows in an upward probe without loss: for every `portion`
/// of bytes acknowledged while the bound is in use, by one packet. The portion is the
/// window in the first round and half the last one in each further round, but at least
/// one packet. What is left of a portion counts on; where the bound is not in use, it
/// is lost.
pub proof fn law_upward_probe_in_numbers(
    s: Bbr,
    bytes_acked: u64,
    is_round_start: bool,
    in_flight: u64,
)
    requires
        s.full_model(),
        s.mode == Mode::ProbeBw,
        s.pacing_gain > UNIT_GAIN,
        s.inflight_hi < u64::MAX,
        s.loss_state.congestion_lost_bytes == 0,
        0 < s.current_mtu <= u16::MAX,
        s.probe_up_rounds < u64::MAX,
        s.probe_up_acked + bytes_acked <= u64::MAX,
        in_flight + bytes_acked <= u64::MAX,
    ensures
        ({
            let t = s.probed_up(bytes_acked, is_round_start, in_flight);
            let used = in_flight + bytes_acked >= s.inflight_hi || s.cwnd >= s.inflight_hi;
            let total = s.probe_up_acked + bytes_acked;
            let portion = t.probe_up_bytes() as int;
            &&& t.probe_up_rounds == s.probe_up_rounds + if is_round_start {
                1int
            } else {
                0int
            }
            &&& !used ==> t.inflight_hi == s.inflight_hi && t.probe_up_acked == 0
            &&& used ==> t.probe_up_acked < portion
            &&& used && total < portion ==> t.inflight_hi == s.inflight_hi && t.probe_up_acked
                == total
            &&& used && t.inflight_hi < u64::MAX && total >= portion ==> exists|packets: int|
                packets >= 1 && #[trigger] (packets * portion) + t.probe_up_acked == total
                    && t.inflight_hi == s.inflight_hi + packets * s.current_mtu
            &&& t == (Bbr {
                inflight_hi: t.inflight_hi,
                probe_up_acked: t.probe_up_acked,
                probe_up_rounds: t.probe_up_rounds,
                ..s
            })
        }),
{
    let counted = s.probe_round_counted(is_round_start);
    let portion = counted.probe_up_bytes();
    let total = (s.probe_up_acked + bytes_acked) as u64;
    assert(portion > 0);
    let t = s.probed_up(bytes_acked, is_round_start, in_flight);
    assert(t.probe_up_bytes() == portion);
    vstd::arithmetic::div_mod::lemma_fundamental_div_mod(total as int, portion as int);
    let packets = (total / portion) as int;
    assert(packets * portion == portion * packets) by (nonlinear_arith);
    assert(packets * portion + total % portion == total);
    if total >= portion {
        assert(packets >= 1) by (nonlinear_arith)
            requires
                packets == total as int / portion as int,
                total >= portion,
                portion > 0,
        ;
    }
    assert(packets * s.current_mtu >= 0) by (nonlinear_arith)
        requires
            packets >= 0,
            s.current_mtu >= 0,
    ;
}

/// The portion in numbers: the window in the rounds up to the first, and from round to
/// round half of it, to the thirtieth halving; at least one packet.
pub proof fn law_portion_halves_from_round_to_round(s: Bbr, next: Bbr)
    requires
        next == (Bbr { probe_up_rounds: next.probe_up_rounds, ..s }),
        next.probe_up_rounds == s.probe_up_rounds + 1,
    ensures
        s.probe_up_bytes() >= s.current_mtu,
        s.probe_up_rounds <= 1 ==> s.probe_up_bytes() == larger(s.cwnd, s.current_mtu),
        1 <= s.probe_up_rounds <= 30 && s.probe_up_bytes() > s.current_mtu && next.probe_up_bytes()
            > s.current_mtu ==> next.probe_up_bytes() == s.probe_up_bytes() / 2,
        1 <= s.probe_up_rounds <= 30 && s.probe_up_bytes() / 2 > s.current_mtu
            ==> next.probe_up_bytes() == s.probe_up_bytes() / 2,
        s.probe_up_rounds > 30 ==> next.probe_up_bytes() == s.probe_up_bytes(),
{
    lemma2_to64();
    if s.probe_up_rounds <= 1 {
        assert(s.probe_up_rounds.saturating_sub(1) == 0);
        assert(pow2(0) == 1);
        let unit = pow2(0) as u64;
        assert(s.cwnd / unit == s.cwnd) by (nonlinear_arith)
            requires
                unit == 1,
        ;
        assert(pow2(s.probe_up_rounds.saturating_sub(1) as nat) as u64 == unit);
    }
    if 1 <= s.probe_up_rounds <= 30 {
        let k = (s.probe_up_rounds - 1) as nat;
        lemma_pow2_unfold(k + 1);
        lemma_pow2_pos(k);
        vstd::arithmetic::power2::lemma_pow2_strictly_increases(k + 1, 31);
        vstd::arithmetic::div_mod::lemma_div_denominator(s.cwnd as int, pow2(k) as int, 2);
        assert(pow2(k) * 2 == pow2(k + 1));
        vstd::arithmetic::power2::lemma_pow2_strictly_increases(k, 31);
    }
}

/// No acknowledgement counts towards the bound without the full model, outside of
/// ProbeBw, without a gain above one, without a bound, or with congestion.
pub proof fn law_growth_needs_a_clean_upward_probe(
    s: Bbr,
    bytes_acked: u64,
    is_round_start: bool,
    in_flight: u64,
)
    requires
        !s.full_model() || s.mode != Mode::ProbeBw || s.pacing_gain <= 33_554_432 || s.inflight_hi
            == u64::MAX || s.loss_state.congestion_lost_bytes > 0,
    ensures
        s.probed_up(bytes_acked, is_round_start, in_flight) == s,
{
}

} // verus!
