//! What the end of a batch of acknowledgements comes to, from the state before it to
//! the state after it.

use vstd::prelude::*;

use crate::arith::{larger, smaller};
use crate::gain::{law_comparison_is_exact, scaled, UNIT_GAIN};
use crate::time::Instant;
use super::frame::{
    lemma_answering_changes, lemma_end_of_batch_by_step, lemma_ending_changes, lemma_mode_changes,
    lemma_modelling_changes, lemma_taking_in_changes, lemma_window_changes,
};
use super::loss_state::LossState;
use super::probe_laws::{law_recovery_in_numbers, law_startup_and_drain_end};
use super::{Bbr, Mode, RecoveryState};

verus! {

/// What is lost and marked in the batch under way, once what it delivered is counted
/// and what counts as congestion is decided in the round that it belongs to.
pub open spec fn losses(s: Bbr, largest: Option<u64>) -> LossState {
    s.loss_state.delivered(s.batch_acked()).classified(
        s.version,
        s.current_mtu,
        if begins_round(s, largest) {
            (s.round_count + 1) as u64
        } else {
            s.round_count
        },
    )
}

/// Whether the batch under way acknowledges something, and a packet beyond the last
/// one of the round under way.
pub open spec fn begins_round(s: Bbr, largest: Option<u64>) -> bool {
    let newest = match largest {
        Some(number) => number,
        None => s.max_acked_packet_number,
    };
    s.max_bandwidth.total_acked > s.max_bandwidth.acked_at_last_window && newest
        > s.current_round_trip_end_packet_number
}

/// The bytes that the batch under way acknowledges: those that no batch before it did.
pub proof fn law_batch_acknowledges_what_is_new(s: Bbr, largest: Option<u64>, now: Instant)
    requires
        s.wf(),
    ensures
        s.batch_excess(now) == s.ack_aggregation.excess(
            s.batch_acked(),
            now,
            s.max_bandwidth.max_filter.best.value,
        ),
        s.batch_acked() == s.max_bandwidth.total_acked - s.max_bandwidth.acked_at_last_window,
        s.round_begins(largest) == begins_round(s, largest),
        s.newest_acked(largest) == (match largest {
            Some(number) => number,
            None => s.max_acked_packet_number,
        }),
{
}

/// The losses that the steps of a batch see.
proof fn lemma_losses_seen(
    s: Bbr,
    now: Instant,
    in_flight: u64,
    app_limited: bool,
    largest: Option<u64>,
)
    requires
        s.wf(),
    ensures
        ({
            let begins = s.round_begins(largest);
            let taken = s.batch_taken_in(now, in_flight, largest);
            let answered = taken.losses_answered(now, in_flight, app_limited, begins);
            let modelled = answered.path_modelled(
                now,
                s.batch_acked(),
                begins,
                in_flight,
                app_limited,
            );
            &&& begins == begins_round(s, largest)
            &&& taken.loss_state == losses(s, largest)
            &&& answered.loss_state == losses(s, largest)
            &&& modelled.loss_state == losses(s, largest)
        }),
{
    let begins = s.round_begins(largest);
    let taken = s.batch_taken_in(now, in_flight, largest);
    let answered = taken.losses_answered(now, in_flight, app_limited, begins);
    lemma_taking_in_changes(s, now, in_flight, largest);
    lemma_answering_changes(taken, now, in_flight, app_limited, begins);
    lemma_modelling_changes(answered, now, s.batch_acked(), begins, in_flight, app_limited);
}

/// What the end of a batch notes: the flight as the connection tells it, the newest
/// packet acknowledged, and that the batch is over. The losses of the batch are
/// forgotten; those of the round are kept until a round begins, with what the batch
/// delivered.
pub proof fn law_batch_is_noted(
    s: Bbr,
    now: Instant,
    in_flight: u64,
    app_limited: bool,
    largest: Option<u64>,
    draw: u8,
)
    requires
        s.wf(),
        s.round_count < u64::MAX,
        s.loss_state.round_delivered_bytes + s.batch_acked() <= u64::MAX,
    ensures
        ({
            let t = s.acks_ended(now, in_flight, app_limited, largest, draw);
            let begins = begins_round(s, largest);
            &&& t.tracked_in_flight == in_flight && t.prev_in_flight_count == in_flight
            &&& largest is Some ==> Some(t.max_acked_packet_number) == largest
            &&& largest is None ==> t.max_acked_packet_number == s.max_acked_packet_number
            &&& t.round_count == s.round_count + if begins {
                1int
            } else {
                0int
            }
            &&& t.max_bandwidth.total_acked == s.max_bandwidth.total_acked
                && t.max_bandwidth.acked_at_last_window == s.max_bandwidth.total_acked
                && t.max_bandwidth.estimate() == s.max_bandwidth.estimate()
            &&& t.loss_state.lost_bytes == 0 && t.loss_state.ecn_ce_count == 0
                && t.loss_state.congestion_lost_bytes == 0
            &&& begins ==> t.loss_state.round_lost_bytes == 0 && t.loss_state.round_ecn_ce_count
                == 0 && t.loss_state.round_delivered_bytes == 0 && t.loss_state.latest_lost_round
                is None && t.loss_state.latest_loss_tx_in_flight is None
                && !t.loss_state.persistent_congestion
            &&& !begins ==> t.loss_state.round_lost_bytes == s.loss_state.round_lost_bytes
                && t.loss_state.round_ecn_ce_count == s.loss_state.round_ecn_ce_count
                && t.loss_state.round_delivered_bytes == s.loss_state.round_delivered_bytes
                + s.batch_acked() && t.loss_state.latest_lost_round
                == s.loss_state.latest_lost_round && t.loss_state.latest_loss_tx_in_flight
                == s.loss_state.latest_loss_tx_in_flight && t.loss_state.persistent_congestion
                == s.loss_state.persistent_congestion
            &&& t.max_sent_packet_number == s.max_sent_packet_number && t.acked_bytes
                == s.acked_bytes && t.min_rtt == s.min_rtt && t.delivered_bytes
                == s.delivered_bytes && t.delivered_time == s.delivered_time && t.sent_packets
                == s.sent_packets && t.high_gain == s.high_gain && t.drain_gain == s.drain_gain
                && t.high_cwnd_gain == s.high_cwnd_gain && t.min_cwnd == s.min_cwnd && t.init_cwnd
                == s.init_cwnd && t.current_mtu == s.current_mtu
            &&& !t.exiting_quiescence
        }),
{
    let begins = s.round_begins(largest);
    let acked = s.batch_acked();
    let excess = s.batch_excess(now);
    let taken = s.batch_taken_in(now, in_flight, largest);
    let answered = taken.losses_answered(now, in_flight, app_limited, begins);
    let modelled = answered.path_modelled(now, acked, begins, in_flight, app_limited);
    let moded = modelled.mode_updated(now, begins, in_flight, app_limited, draw);
    let windowed = moded.windows_updated(acked, excess, in_flight);
    lemma_end_of_batch_by_step(s, now, in_flight, app_limited, largest, draw);
    lemma_taking_in_changes(s, now, in_flight, largest);
    lemma_answering_changes(taken, now, in_flight, app_limited, begins);
    lemma_modelling_changes(answered, now, acked, begins, in_flight, app_limited);
    lemma_mode_changes(modelled, now, begins, in_flight, app_limited, draw);
    lemma_window_changes(moded, acked, excess, in_flight);
    lemma_ending_changes(windowed, in_flight, begins, acked, largest);
    assert(windowed.loss_state == taken.loss_state);
    assert(windowed.batch_ended(in_flight, begins, acked, largest).loss_state == (if begins {
        taken.loss_state.batch_cleared().round_cleared()
    } else {
        taken.loss_state.batch_cleared()
    })) by {
        reveal(Bbr::batch_ended);
    }
}

/// What the losses of a batch do to recovery. Congestion, in recovery or not, moves
/// the end of recovery to the last packet sent. Recovery is on after the batch exactly
/// if the batch counts as congestion, or recovery was on and the batch acknowledges no
/// packet beyond its end. Where it begins, the round is extended to the last packet
/// sent.
pub proof fn law_batch_moves_recovery(
    s: Bbr,
    now: Instant,
    in_flight: u64,
    app_limited: bool,
    largest: Option<u64>,
    draw: u8,
)
    requires
        s.wf(),
    ensures
        ({
            let t = s.acks_ended(now, in_flight, app_limited, largest, draw);
            let begins = begins_round(s, largest);
            let congested = losses(s, largest).congestion_lost_bytes > 0;
            let before = s.recovery_state != RecoveryState::NotInRecovery;
            let after = t.recovery_state != RecoveryState::NotInRecovery;
            &&& congested ==> t.end_recovery_at_packet_number == s.max_sent_packet_number
            &&& !congested ==> t.end_recovery_at_packet_number == s.end_recovery_at_packet_number
            &&& after <==> congested || (before && t.max_acked_packet_number
                <= s.end_recovery_at_packet_number)
            &&& after && !before ==> t.recovery_state == RecoveryState::Conservation
            &&& after && before && begins ==> t.recovery_state == RecoveryState::Growth
            &&& after && before && !begins ==> t.recovery_state == s.recovery_state
            &&& begins || (after && !before) ==> t.current_round_trip_end_packet_number
                == s.max_sent_packet_number
            &&& !begins && (before || !after) ==> t.current_round_trip_end_packet_number
                == s.current_round_trip_end_packet_number
        }),
{
    let begins = s.round_begins(largest);
    let acked = s.batch_acked();
    let excess = s.batch_excess(now);
    let taken = s.batch_taken_in(now, in_flight, largest);
    let answered = taken.losses_answered(now, in_flight, app_limited, begins);
    let modelled = answered.path_modelled(now, acked, begins, in_flight, app_limited);
    let moded = modelled.mode_updated(now, begins, in_flight, app_limited, draw);
    let windowed = moded.windows_updated(acked, excess, in_flight);
    lemma_end_of_batch_by_step(s, now, in_flight, app_limited, largest, draw);
    lemma_taking_in_changes(s, now, in_flight, largest);
    lemma_modelling_changes(answered, now, acked, begins, in_flight, app_limited);
    lemma_mode_changes(modelled, now, begins, in_flight, app_limited, draw);
    lemma_window_changes(moded, acked, excess, in_flight);
    lemma_ending_changes(windowed, in_flight, begins, acked, largest);
    lemma_losses_seen(s, now, in_flight, app_limited, largest);
    lemma_answer_moves_recovery(taken, now, in_flight, app_limited, begins);
    lemma_answering_changes(taken, now, in_flight, app_limited, begins);
    law_recovery_in_numbers(taken, begins);
    assert(taken.current_round_trip_end_packet_number == (if begins {
        s.max_sent_packet_number
    } else {
        s.current_round_trip_end_packet_number
    })) by {
        reveal(Bbr::batch_taken_in);
    }
}

/// What answering to losses does to recovery.
proof fn lemma_answer_moves_recovery(
    s: Bbr,
    now: Instant,
    in_flight: u64,
    app_limited: bool,
    is_round_start: bool,
)
    ensures
        ({
            let t = s.losses_answered(now, in_flight, app_limited, is_round_start);
            let r = s.recovery_updated(is_round_start);
            &&& t.end_recovery_at_packet_number == r.end_recovery_at_packet_number
            &&& t.recovery_state == r.recovery_state
            &&& t.recovery_window == r.recovery_window
            &&& t.current_round_trip_end_packet_number == r.current_round_trip_end_packet_number
        }),
{
    reveal(Bbr::losses_answered);
    let u = s.signal_answered(now, in_flight, app_limited, is_round_start);
    law_recovery_in_numbers(s, is_round_start);
    assert(u.loss_state == s.loss_state && u.recovery_state == s.recovery_state
        && u.recovery_window == s.recovery_window && u.max_sent_packet_number
        == s.max_sent_packet_number && u.max_acked_packet_number == s.max_acked_packet_number
        && u.end_recovery_at_packet_number == s.end_recovery_at_packet_number
        && u.current_round_trip_end_packet_number == s.current_round_trip_end_packet_number);
}

/// Where a batch leaves recovery on, its window begins with what is in use, or gives
/// way by what counts as lost, to one packet where that is more than it held, and gains
/// in growth what was acknowledged; and it is never less than what is in use, nor than
/// four packets.
pub proof fn law_batch_moves_the_recovery_window(
    s: Bbr,
    now: Instant,
    in_flight: u64,
    app_limited: bool,
    largest: Option<u64>,
    draw: u8,
)
    requires
        s.wf(),
        in_flight + s.batch_acked() <= u64::MAX,
        s.recovery_window + s.batch_acked() <= u64::MAX,
        s.current_mtu + s.batch_acked() <= u64::MAX,
    ensures
        ({
            let t = s.acks_ended(now, in_flight, app_limited, largest, draw);
            let w = t.recovery_window as int;
            let lost = losses(s, largest).congestion_lost_bytes;
            let used = in_flight + s.batch_acked();
            let before = s.recovery_state != RecoveryState::NotInRecovery;
            let after = t.recovery_state != RecoveryState::NotInRecovery;
            let rest = if s.recovery_window >= lost {
                s.recovery_window - lost
            } else {
                s.current_mtu as int
            };
            let gain: int = if t.recovery_state == RecoveryState::Growth {
                s.batch_acked() as int
            } else {
                0
            };
            &&& !after ==> w == s.recovery_window
            &&& after ==> w >= used && w >= s.min_cwnd
            &&& after && (!before || s.recovery_window == 0) ==> w == used || w == s.min_cwnd
            &&& after && before && s.recovery_window > 0 ==> w >= rest + gain && (w == rest + gain
                || w == used || w == s.min_cwnd)
        }),
{
    let begins = s.round_begins(largest);
    let acked = s.batch_acked();
    let excess = s.batch_excess(now);
    let taken = s.batch_taken_in(now, in_flight, largest);
    let answered = taken.losses_answered(now, in_flight, app_limited, begins);
    let modelled = answered.path_modelled(now, acked, begins, in_flight, app_limited);
    let moded = modelled.mode_updated(now, begins, in_flight, app_limited, draw);
    let windowed = moded.windows_updated(acked, excess, in_flight);
    lemma_end_of_batch_by_step(s, now, in_flight, app_limited, largest, draw);
    lemma_taking_in_changes(s, now, in_flight, largest);
    lemma_modelling_changes(answered, now, acked, begins, in_flight, app_limited);
    lemma_mode_changes(modelled, now, begins, in_flight, app_limited, draw);
    lemma_window_changes(moded, acked, excess, in_flight);
    lemma_ending_changes(windowed, in_flight, begins, acked, largest);
    lemma_losses_seen(s, now, in_flight, app_limited, largest);
    lemma_answer_moves_recovery(taken, now, in_flight, app_limited, begins);
    lemma_answering_changes(taken, now, in_flight, app_limited, begins);
    law_recovery_in_numbers(taken, begins);
    let v = moded.paced().windowed(acked, excess);
    let lost = moded.loss_state.congestion_lost_bytes;
    assert(windowed.recovery_window == v.recovery_windowed(acked, lost, in_flight).recovery_window)
        by {
        reveal(Bbr::windows_updated);
    }
    assert(v.recovery_window == moded.recovery_window && v.recovery_state == moded.recovery_state
        && v.min_cwnd == moded.min_cwnd && v.current_mtu == moded.current_mtu);
}

/// When the path counts as full after a batch: a batch that begins a round of a sender
/// with enough to send is checked for growth by a quarter; the third round in a row
/// without it, or one in recovery, makes it full. Other batches change nothing of that.
pub proof fn law_batch_checks_for_growth(
    s: Bbr,
    now: Instant,
    in_flight: u64,
    app_limited: bool,
    largest: Option<u64>,
    draw: u8,
)
    requires
        s.wf(),
        s.round_wo_bw_gain < u64::MAX,
    ensures
        ({
            let t = s.acks_ended(now, in_flight, app_limited, largest, draw);
            let checked = begins_round(s, largest) && !s.is_at_full_bandwidth && !app_limited;
            let estimate = s.max_bandwidth.estimate();
            let grew = estimate >= scaled(41_943_040, s.bw_at_last_round);
            &&& !checked ==> t.is_at_full_bandwidth == s.is_at_full_bandwidth && t.bw_at_last_round
                == s.bw_at_last_round && t.round_wo_bw_gain == s.round_wo_bw_gain
            &&& checked && grew ==> !t.is_at_full_bandwidth && t.bw_at_last_round == estimate
                && t.round_wo_bw_gain == 0 && t.ack_aggregation.max_ack_height.get() == 0
            &&& checked && !grew ==> t.bw_at_last_round == s.bw_at_last_round && t.round_wo_bw_gain
                == s.round_wo_bw_gain + 1 && (t.is_at_full_bandwidth <==> t.round_wo_bw_gain >= 3
                || t.recovery_state != RecoveryState::NotInRecovery)
            &&& !(checked && grew) ==> t.ack_aggregation == s.ack_aggregation.updated(
                s.batch_acked(),
                now,
                s.round_count,
                estimate,
            )
        }),
{
    let begins = s.round_begins(largest);
    let acked = s.batch_acked();
    let excess = s.batch_excess(now);
    let taken = s.batch_taken_in(now, in_flight, largest);
    let answered = taken.losses_answered(now, in_flight, app_limited, begins);
    let modelled = answered.path_modelled(now, acked, begins, in_flight, app_limited);
    let moded = modelled.mode_updated(now, begins, in_flight, app_limited, draw);
    let windowed = moded.windows_updated(acked, excess, in_flight);
    lemma_end_of_batch_by_step(s, now, in_flight, app_limited, largest, draw);
    lemma_taking_in_changes(s, now, in_flight, largest);
    lemma_answering_changes(taken, now, in_flight, app_limited, begins);
    lemma_mode_changes(modelled, now, begins, in_flight, app_limited, draw);
    lemma_window_changes(moded, acked, excess, in_flight);
    lemma_ending_changes(windowed, in_flight, begins, acked, largest);
    lemma_model_checks_for_growth(answered, now, acked, begins, in_flight, app_limited);
    lemma_modelling_changes(answered, now, acked, begins, in_flight, app_limited);
}

/// What the model notes of growth.
proof fn lemma_model_checks_for_growth(
    s: Bbr,
    now: Instant,
    bytes_acked: u64,
    is_round_start: bool,
    in_flight: u64,
    app_limited: bool,
)
    requires
        s.round_wo_bw_gain < u64::MAX,
    ensures
        ({
            let t = s.path_modelled(now, bytes_acked, is_round_start, in_flight, app_limited);
            let checked = is_round_start && !s.is_at_full_bandwidth && !app_limited;
            let estimate = s.max_bandwidth.estimate();
            let grew = estimate >= scaled(41_943_040, s.bw_at_last_round);
            &&& !checked ==> t.is_at_full_bandwidth == s.is_at_full_bandwidth && t.bw_at_last_round
                == s.bw_at_last_round && t.round_wo_bw_gain == s.round_wo_bw_gain
                && t.ack_aggregation == s.ack_aggregation
            &&& checked && grew ==> !t.is_at_full_bandwidth && t.bw_at_last_round == estimate
                && t.round_wo_bw_gain == 0 && t.ack_aggregation.max_ack_height.get() == 0
            &&& checked && !grew ==> t.bw_at_last_round == s.bw_at_last_round && t.round_wo_bw_gain
                == s.round_wo_bw_gain + 1 && t.ack_aggregation == s.ack_aggregation && (
            t.is_at_full_bandwidth <==> t.round_wo_bw_gain >= 3 || s.recovery_state
                != RecoveryState::NotInRecovery)
        }),
{
    reveal(Bbr::path_modelled);
    let p = s.bandwidth_probed(now, bytes_acked, is_round_start, in_flight);
    assert(p.is_at_full_bandwidth == s.is_at_full_bandwidth && p.bw_at_last_round
        == s.bw_at_last_round && p.round_wo_bw_gain == s.round_wo_bw_gain && p.ack_aggregation
        == s.ack_aggregation && p.recovery_state == s.recovery_state && p.max_bandwidth
        == s.max_bandwidth);
}

/// Which mode a batch leads to. A due ProbeRtt goes before all else. Startup goes on
/// until the path is known to be full; Drain goes on while more than the target is in
/// flight; ProbeBw goes on. ProbeRtt goes on until its end, and a round, and then gives
/// way to ProbeBw, or to Startup where the path is not known to be full.
pub proof fn law_batch_chooses_the_mode(
    s: Bbr,
    now: Instant,
    in_flight: u64,
    app_limited: bool,
    largest: Option<u64>,
    draw: u8,
)
    requires
        s.wf(),
        draw < 7,
    ensures
        ({
            let t = s.acks_ended(now, in_flight, app_limited, largest, draw);
            let due = !app_limited && !s.exiting_quiescence && s.mode != Mode::ProbeRtt && (
            s.probe_rtt_last_started_at is None || now.since(
                s.probe_rtt_last_started_at->0,
            ).nanos > 10_000_000_000);
            let done = begins_round(s, largest) && s.exit_probe_rtt_at is Some && now.nanos
                >= s.exit_probe_rtt_at->0.nanos;
            let draining = s.mode == Mode::Drain || (s.mode == Mode::Startup
                && t.is_at_full_bandwidth);
            let target = (Bbr { mode: Mode::Drain, ..t }).target_cwnd(UNIT_GAIN);
            &&& due ==> t.mode == Mode::ProbeRtt && t.pacing_gain == 33_554_432
                && t.probe_rtt_last_started_at == Some(now)
            &&& due && draining && in_flight <= target ==> t.cwnd_gain == 67_108_864
                && t.last_cycle_start == Some(now)
            &&& due && draining && in_flight > target && s.mode == Mode::Startup ==> t.cwnd_gain
                == s.high_cwnd_gain
            &&& !due ==> t.probe_rtt_last_started_at == s.probe_rtt_last_started_at
            &&& !due && s.mode == Mode::Startup && !t.is_at_full_bandwidth ==> t.mode
                == Mode::Startup
            &&& !due && draining && in_flight > target ==> t.mode == Mode::Drain && t.pacing_gain
                == (if s.mode == Mode::Startup {
                s.drain_gain
            } else {
                t.pacing_gain
            })
            &&& !due && draining && in_flight <= target ==> t.mode == Mode::ProbeBw && t.cwnd_gain
                == 67_108_864 && t.last_cycle_start == Some(now)
            &&& !due && s.mode == Mode::ProbeBw ==> t.mode == Mode::ProbeBw
            &&& s.mode == Mode::ProbeRtt && !done ==> t.mode == Mode::ProbeRtt
            &&& s.mode == Mode::ProbeRtt && done && t.is_at_full_bandwidth ==> t.mode
                == Mode::ProbeBw && t.cwnd_gain == 67_108_864 && t.last_cycle_start == Some(now)
            &&& s.mode == Mode::ProbeRtt && done && !t.is_at_full_bandwidth ==> t.mode
                == Mode::Startup && t.pacing_gain == s.high_gain && t.cwnd_gain == s.high_cwnd_gain
        }),
{
    let begins = s.round_begins(largest);
    let acked = s.batch_acked();
    let excess = s.batch_excess(now);
    let taken = s.batch_taken_in(now, in_flight, largest);
    let answered = taken.losses_answered(now, in_flight, app_limited, begins);
    let modelled = answered.path_modelled(now, acked, begins, in_flight, app_limited);
    let moded = modelled.mode_updated(now, begins, in_flight, app_limited, draw);
    let windowed = moded.windows_updated(acked, excess, in_flight);
    lemma_end_of_batch_by_step(s, now, in_flight, app_limited, largest, draw);
    lemma_taking_in_changes(s, now, in_flight, largest);
    lemma_answering_changes(taken, now, in_flight, app_limited, begins);
    lemma_modelling_changes(answered, now, acked, begins, in_flight, app_limited);
    lemma_mode_changes(modelled, now, begins, in_flight, app_limited, draw);
    lemma_window_changes(moded, acked, excess, in_flight);
    lemma_ending_changes(windowed, in_flight, begins, acked, largest);
    lemma_mode_by_rules(modelled, now, begins, in_flight, app_limited, draw);
    let t = s.acks_ended(now, in_flight, app_limited, largest, draw);
    assert((Bbr { mode: Mode::Drain, ..t }).target_cwnd(UNIT_GAIN) == (Bbr {
        mode: Mode::Drain,
        ..modelled
    }).target_cwnd(UNIT_GAIN));
}

/// Which mode the model leads to.
proof fn lemma_mode_by_rules(
    s: Bbr,
    now: Instant,
    is_round_start: bool,
    in_flight: u64,
    app_limited: bool,
    draw: u8,
)
    requires
        draw < 7,
    ensures
        ({
            let t = s.mode_updated(now, is_round_start, in_flight, app_limited, draw);
            let due = !app_limited && !s.exiting_quiescence && s.mode != Mode::ProbeRtt && (
            s.probe_rtt_last_started_at is None || now.since(
                s.probe_rtt_last_started_at->0,
            ).nanos > 10_000_000_000);
            let done = is_round_start && s.exit_probe_rtt_at is Some && now.nanos
                >= s.exit_probe_rtt_at->0.nanos;
            let draining = s.mode == Mode::Drain || (s.mode == Mode::Startup
                && s.is_at_full_bandwidth);
            let target = (Bbr { mode: Mode::Drain, ..s }).target_cwnd(UNIT_GAIN);
            &&& due ==> t.mode == Mode::ProbeRtt && t.pacing_gain == 33_554_432
                && t.probe_rtt_last_started_at == Some(now)
            &&& due && draining && in_flight <= target ==> t.cwnd_gain == 67_108_864
                && t.last_cycle_start == Some(now)
            &&& due && draining && in_flight > target && s.mode == Mode::Startup ==> t.cwnd_gain
                == s.high_cwnd_gain
            &&& !due ==> t.probe_rtt_last_started_at == s.probe_rtt_last_started_at
            &&& !due && s.mode == Mode::Startup && !s.is_at_full_bandwidth ==> t.mode
                == Mode::Startup
            &&& !due && draining && in_flight > target ==> t.mode == Mode::Drain && t.pacing_gain
                == (if s.mode == Mode::Startup {
                s.drain_gain
            } else {
                s.pacing_gain
            })
            &&& !due && draining && in_flight <= target ==> t.mode == Mode::ProbeBw && t.cwnd_gain
                == 67_108_864 && t.last_cycle_start == Some(now)
            &&& !due && s.mode == Mode::ProbeBw ==> t == (Bbr { exiting_quiescence: false, ..s })
            &&& s.mode == Mode::ProbeRtt && !done ==> t.mode == Mode::ProbeRtt
            &&& s.mode == Mode::ProbeRtt && done && s.is_at_full_bandwidth ==> t.mode
                == Mode::ProbeBw && t.cwnd_gain == 67_108_864 && t.last_cycle_start == Some(now)
            &&& s.mode == Mode::ProbeRtt && done && !s.is_at_full_bandwidth ==> t.mode
                == Mode::Startup && t.pacing_gain == s.high_gain && t.cwnd_gain == s.high_cwnd_gain
        }),
{
    reveal(Bbr::mode_updated);
    law_startup_and_drain_end(s, now, in_flight, draw);
    let left = s.drain_left(now, in_flight, draw);
    assert(left.probe_rtt_last_started_at == s.probe_rtt_last_started_at
        && left.exiting_quiescence == s.exiting_quiescence && left.exit_probe_rtt_at
        == s.exit_probe_rtt_at);
}

/// The pacing rate after a batch fits the model after it: gain times the bandwidth in
/// use once the path is known to be full, and no less than that before.
pub proof fn law_batch_sets_the_pacing_rate(
    s: Bbr,
    now: Instant,
    in_flight: u64,
    app_limited: bool,
    largest: Option<u64>,
    draw: u8,
)
    ensures
        ({
            let t = s.acks_ended(now, in_flight, app_limited, largest, draw);
            let bw = t.effective_bandwidth();
            &&& bw == 0 ==> t.pacing_rate == s.pacing_rate
            &&& bw > 0 && t.is_at_full_bandwidth ==> t.pacing_rate == scaled(t.pacing_gain, bw)
            &&& bw > 0 && !t.is_at_full_bandwidth && (s.pacing_rate > 0 || t.min_rtt.nanos == 0)
                ==> t.pacing_rate == larger(s.pacing_rate, scaled(t.pacing_gain, bw))
            &&& bw > 0 && !t.is_at_full_bandwidth && s.pacing_rate == 0 && t.min_rtt.nanos > 0
                ==> Some(t.pacing_rate) == super::bw_estimation::BandwidthEstimation::rate(
                t.init_cwnd,
                t.min_rtt,
            )
        }),
{
    let begins = s.round_begins(largest);
    let acked = s.batch_acked();
    let excess = s.batch_excess(now);
    let taken = s.batch_taken_in(now, in_flight, largest);
    let answered = taken.losses_answered(now, in_flight, app_limited, begins);
    let modelled = answered.path_modelled(now, acked, begins, in_flight, app_limited);
    let moded = modelled.mode_updated(now, begins, in_flight, app_limited, draw);
    let windowed = moded.windows_updated(acked, excess, in_flight);
    lemma_end_of_batch_by_step(s, now, in_flight, app_limited, largest, draw);
    lemma_taking_in_changes(s, now, in_flight, largest);
    lemma_answering_changes(taken, now, in_flight, app_limited, begins);
    lemma_modelling_changes(answered, now, acked, begins, in_flight, app_limited);
    lemma_mode_changes(modelled, now, begins, in_flight, app_limited, draw);
    lemma_window_changes(moded, acked, excess, in_flight);
    lemma_ending_changes(windowed, in_flight, begins, acked, largest);
}

/// The window after a batch, by the model after it. In ProbeRtt it stays. Before the
/// path is known to be full it grows by what the batch acknowledges, wherever the
/// target is 128 bytes or more. After that it moves up to its target by what the batch
/// acknowledges, and down to it at once. Four packets are its floor.
pub proof fn law_batch_sets_the_window(
    s: Bbr,
    now: Instant,
    in_flight: u64,
    app_limited: bool,
    largest: Option<u64>,
    draw: u8,
)
    requires
        s.cwnd + s.batch_acked() <= u64::MAX,
    ensures
        ({
            let t = s.acks_ended(now, in_flight, app_limited, largest, draw);
            let target = t.target_cwnd(t.cwnd_gain);
            let full = target + t.ack_aggregation.max_ack_height.best.value;
            let young = target + s.batch_excess(now);
            let grown = s.cwnd + s.batch_acked();
            &&& t.mode == Mode::ProbeRtt ==> t.cwnd == s.cwnd
            &&& t.mode != Mode::ProbeRtt ==> t.cwnd >= s.min_cwnd
            &&& t.mode != Mode::ProbeRtt && t.is_at_full_bandwidth && full <= u64::MAX ==> t.cwnd
                == larger(smaller(full as u64, grown as u64), s.min_cwnd)
            &&& t.mode != Mode::ProbeRtt && !t.is_at_full_bandwidth && 128 <= young <= u64::MAX
                ==> t.cwnd == larger(grown as u64, s.min_cwnd)
            &&& t.mode != Mode::ProbeRtt && !t.is_at_full_bandwidth && s.acked_bytes < s.init_cwnd
                ==> t.cwnd == larger(grown as u64, s.min_cwnd)
        }),
{
    let begins = s.round_begins(largest);
    let acked = s.batch_acked();
    let excess = s.batch_excess(now);
    let taken = s.batch_taken_in(now, in_flight, largest);
    let answered = taken.losses_answered(now, in_flight, app_limited, begins);
    let modelled = answered.path_modelled(now, acked, begins, in_flight, app_limited);
    let moded = modelled.mode_updated(now, begins, in_flight, app_limited, draw);
    let windowed = moded.windows_updated(acked, excess, in_flight);
    lemma_end_of_batch_by_step(s, now, in_flight, app_limited, largest, draw);
    lemma_taking_in_changes(s, now, in_flight, largest);
    lemma_answering_changes(taken, now, in_flight, app_limited, begins);
    lemma_modelling_changes(answered, now, acked, begins, in_flight, app_limited);
    lemma_mode_changes(modelled, now, begins, in_flight, app_limited, draw);
    lemma_window_changes(moded, acked, excess, in_flight);
    lemma_ending_changes(windowed, in_flight, begins, acked, largest);
    let t = s.acks_ended(now, in_flight, app_limited, largest, draw);
    assert(t.target_cwnd(t.cwnd_gain) == moded.target_cwnd(moded.cwnd_gain));
    law_comparison_is_exact(moded.cwnd_gain, moded.target_window(excess) as u64);
}

/// Whether two states differ at most in what does not matter to probing: counts of
/// packets, rounds and recovery.
spec fn alike(a: Bbr, b: Bbr) -> bool {
    &&& b == (Bbr {
        tracked_in_flight: b.tracked_in_flight,
        ack_aggregation: b.ack_aggregation,
        max_bandwidth: b.max_bandwidth,
        max_acked_packet_number: b.max_acked_packet_number,
        current_round_trip_end_packet_number: b.current_round_trip_end_packet_number,
        round_count: b.round_count,
        end_recovery_at_packet_number: b.end_recovery_at_packet_number,
        recovery_state: b.recovery_state,
        recovery_window: b.recovery_window,
        ..a
    })
    &&& a.max_bandwidth.estimate() == b.max_bandwidth.estimate()
}

/// Such states have the same targets.
proof fn lemma_alike_targets(a: Bbr, b: Bbr, gain: u32)
    requires
        alike(a, b),
    ensures
        a.target_cwnd(gain) == b.target_cwnd(gain),
{
}

/// Such states answer alike to a signal.
proof fn lemma_alike_signals(a: Bbr, b: Bbr, now: Instant, in_flight: u64, app_limited: bool)
    requires
        alike(a, b),
    ensures
        alike(
            a.signal_handled(now, in_flight, app_limited),
            b.signal_handled(now, in_flight, app_limited),
        ),
{
    let (c, d) = (a.signal_noted(in_flight), b.signal_noted(in_flight));
    lemma_alike_targets(c, d, UNIT_GAIN);
}

/// Such states grow their long-term bound alike.
proof fn lemma_alike_growth(
    a: Bbr,
    b: Bbr,
    bytes_acked: u64,
    is_round_start: bool,
    in_flight: u64,
)
    requires
        alike(a, b),
    ensures
        alike(
            a.probed_up(bytes_acked, is_round_start, in_flight),
            b.probed_up(bytes_acked, is_round_start, in_flight),
        ),
{
    let (c, d) = (a.probe_round_counted(is_round_start), b.probe_round_counted(is_round_start));
    assert(c.probe_up_bytes() == d.probe_up_bytes());
    assert(alike(c.bound_grown(bytes_acked), d.bound_grown(bytes_acked)));
}

/// Such states move their gain cycle alike.
proof fn lemma_alike_cycles(a: Bbr, b: Bbr, now: Instant, in_flight: u64)
    requires
        alike(a, b),
    ensures
        alike(a.gain_cycled(now, in_flight), b.gain_cycled(now, in_flight)),
{
    lemma_alike_targets(a, b, UNIT_GAIN);
    lemma_alike_targets(a, b, a.pacing_gain);
    assert(a.cycle_advances(now, in_flight) == b.cycle_advances(now, in_flight));
}

/// Such states move their phase alike.
proof fn lemma_alike_phases(a: Bbr, b: Bbr, now: Instant, in_flight: u64, is_round_start: bool)
    requires
        alike(a, b),
    ensures
        alike(
            a.phase_updated(now, in_flight, is_round_start),
            b.phase_updated(now, in_flight, is_round_start),
        ),
{
    if !a.full_model() {
        lemma_alike_cycles(a, b, now, in_flight);
    } else {
        lemma_alike_targets(a, b, UNIT_GAIN);
        lemma_alike_targets(a, b, super::model::BBR2_PROBE_UP_PACING_GAIN);
        assert(a.drained_inflight() == b.drained_inflight());
    }
}

/// The state once the bandwidth probe was looked at.
#[verifier::opaque]
spec fn probed(a: Bbr, now: Instant, bytes_acked: u64, is_round_start: bool, in_flight: u64) -> Bbr {
    if a.mode == Mode::ProbeBw {
        a.probed_up(bytes_acked, is_round_start, in_flight).phase_updated(
            now,
            in_flight,
            is_round_start,
        )
    } else {
        a
    }
}

/// Such states probe alike.
proof fn lemma_alike_probes(
    a: Bbr,
    b: Bbr,
    now: Instant,
    bytes_acked: u64,
    is_round_start: bool,
    in_flight: u64,
)
    requires
        alike(a, b),
    ensures
        alike(
            probed(a, now, bytes_acked, is_round_start, in_flight),
            probed(b, now, bytes_acked, is_round_start, in_flight),
        ),
{
    reveal(probed);
    lemma_alike_growth(a, b, bytes_acked, is_round_start, in_flight);
    lemma_alike_phases(
        a.probed_up(bytes_acked, is_round_start, in_flight),
        b.probed_up(bytes_acked, is_round_start, in_flight),
        now,
        in_flight,
        is_round_start,
    );
}

/// The model is the probe, checked for growth.
proof fn lemma_model_is_the_probe(
    s: Bbr,
    now: Instant,
    bytes_acked: u64,
    is_round_start: bool,
    in_flight: u64,
    app_limited: bool,
)
    ensures
        ({
            let t = s.path_modelled(now, bytes_acked, is_round_start, in_flight, app_limited);
            t == (Bbr {
                is_at_full_bandwidth: t.is_at_full_bandwidth,
                bw_at_last_round: t.bw_at_last_round,
                round_wo_bw_gain: t.round_wo_bw_gain,
                ack_aggregation: t.ack_aggregation,
                ..probed(s, now, bytes_acked, is_round_start, in_flight)
            })
        }),
{
    reveal(Bbr::path_modelled);
    reveal(probed);
    let p = probed(s, now, bytes_acked, is_round_start, in_flight);
    assert(p == s.bandwidth_probed(now, bytes_acked, is_round_start, in_flight));
}

/// The losses are answered as `answered_to` says.
proof fn lemma_losses_are_answered(
    s: Bbr,
    now: Instant,
    in_flight: u64,
    app_limited: bool,
    largest: Option<u64>,
)
    requires
        s.wf(),
    ensures
        alike(
            answered_to(s, now, in_flight, app_limited, largest),
            s.batch_taken_in(now, in_flight, largest).losses_answered(
                now,
                in_flight,
                app_limited,
                s.round_begins(largest),
            ),
        ),
{
    let begins = s.round_begins(largest);
    let taken = s.batch_taken_in(now, in_flight, largest);
    lemma_taking_in_changes(s, now, in_flight, largest);
    lemma_losses_seen(s, now, in_flight, app_limited, largest);
    let start = Bbr { loss_state: losses(s, largest), ..s };
    assert(alike(start, taken));
    let flight = match s.loss_state.latest_loss_tx_in_flight {
        Some(flight) => flight,
        None => in_flight,
    };
    lemma_alike_signals(start, taken, now, flight, app_limited);
    lemma_answer_is_the_signal(taken, now, in_flight, app_limited, begins);
    assert(taken.loss_state.latest_loss_tx_in_flight == s.loss_state.latest_loss_tx_in_flight);
}

/// Answering to losses is answering to the signal, as far as it matters to probing.
proof fn lemma_answer_is_the_signal(
    s: Bbr,
    now: Instant,
    in_flight: u64,
    app_limited: bool,
    is_round_start: bool,
)
    ensures
        alike(
            if s.full_model() && s.loss_state.congestion_lost_bytes > 0 && is_round_start {
                s.signal_handled(
                    now,
                    match s.loss_state.latest_loss_tx_in_flight {
                        Some(flight) => flight,
                        None => in_flight,
                    },
                    app_limited,
                )
            } else {
                s
            },
            s.losses_answered(now, in_flight, app_limited, is_round_start),
        ),
{
    let u = s.signal_answered(now, in_flight, app_limited, is_round_start);
    assert(s.losses_answered(now, in_flight, app_limited, is_round_start) == u.recovery_updated(
        is_round_start,
    )) by {
        reveal(Bbr::losses_answered);
    }
    law_recovery_in_numbers(u, is_round_start);
}

/// What a batch does to what matters to probing, up to the choice of the mode.
proof fn lemma_probing_by_steps(
    s: Bbr,
    now: Instant,
    in_flight: u64,
    app_limited: bool,
    largest: Option<u64>,
)
    requires
        s.wf(),
    ensures
        ({
            let begins = s.round_begins(largest);
            let a = answered_to(s, now, in_flight, app_limited, largest);
            let p = probed(a, now, s.batch_acked(), begins, in_flight);
            let modelled = s.batch_taken_in(now, in_flight, largest).losses_answered(
                now,
                in_flight,
                app_limited,
                begins,
            ).path_modelled(now, s.batch_acked(), begins, in_flight, app_limited);
            &&& alike(p, (Bbr {
                is_at_full_bandwidth: p.is_at_full_bandwidth,
                bw_at_last_round: p.bw_at_last_round,
                round_wo_bw_gain: p.round_wo_bw_gain,
                ..modelled
            }))
        }),
{
    let begins = s.round_begins(largest);
    let a = answered_to(s, now, in_flight, app_limited, largest);
    let answered = s.batch_taken_in(now, in_flight, largest).losses_answered(
        now,
        in_flight,
        app_limited,
        begins,
    );
    lemma_losses_are_answered(s, now, in_flight, app_limited, largest);
    lemma_alike_probes(a, answered, now, s.batch_acked(), begins, in_flight);
    lemma_model_is_the_probe(answered, now, s.batch_acked(), begins, in_flight, app_limited);
}

/// The state once a batch of losses is answered: where the full model meets congestion
/// at the start of a round, it answers to the flight at which the lost packet was sent,
/// or to the flight now where that is not known.
pub open spec fn answered_to(
    s: Bbr,
    now: Instant,
    in_flight: u64,
    app_limited: bool,
    largest: Option<u64>,
) -> Bbr {
    let start = Bbr { loss_state: losses(s, largest), ..s };
    if s.full_model() && losses(s, largest).congestion_lost_bytes > 0 && begins_round(s, largest) {
        start.signal_handled(
            now,
            match s.loss_state.latest_loss_tx_in_flight {
                Some(flight) => flight,
                None => in_flight,
            },
            app_limited,
        )
    } else {
        start
    }
}

/// What a batch does to bounds and phases. First the losses are answered. In ProbeBw
/// the long-term bound then grows by what the batch acknowledges, and only then the
/// phase moves on. Outside of ProbeBw nothing else touches the bounds.
pub proof fn law_batch_probes_the_path(
    s: Bbr,
    now: Instant,
    in_flight: u64,
    app_limited: bool,
    largest: Option<u64>,
    draw: u8,
)
    requires
        s.wf(),
    ensures
        ({
            let t = s.acks_ended(now, in_flight, app_limited, largest, draw);
            let begins = begins_round(s, largest);
            let a = answered_to(s, now, in_flight, app_limited, largest);
            let grown = a.probed_up(s.batch_acked(), begins, in_flight);
            let m = grown.phase_updated(now, in_flight, begins);
            let due = !app_limited && !s.exiting_quiescence && (s.probe_rtt_last_started_at is None
                || now.since(s.probe_rtt_last_started_at->0).nanos > 10_000_000_000);
            &&& s.mode != Mode::ProbeBw ==> t.has_bounds_of(a) && t.probe_up_rounds
                == a.probe_up_rounds
            &&& s.mode == Mode::ProbeBw ==> {
                &&& t.inflight_hi == grown.inflight_hi && t.inflight_lo == m.inflight_lo && t.bw_lo
                    == m.bw_lo
                &&& t.probe_bw_phase == m.probe_bw_phase && t.last_cycle_start
                    == m.last_cycle_start && t.cwnd_gain == m.cwnd_gain && t.current_cycle_offset
                    == m.current_cycle_offset
                &&& t.probe_up_rounds == m.probe_up_rounds && t.probe_up_acked == m.probe_up_acked
                    && t.bw_probe_samples == m.bw_probe_samples
                &&& !due ==> t.pacing_gain == m.pacing_gain
            }
        }),
{
    let begins = s.round_begins(largest);
    let acked = s.batch_acked();
    let excess = s.batch_excess(now);
    let taken = s.batch_taken_in(now, in_flight, largest);
    let answered = taken.losses_answered(now, in_flight, app_limited, begins);
    let modelled = answered.path_modelled(now, acked, begins, in_flight, app_limited);
    let moded = modelled.mode_updated(now, begins, in_flight, app_limited, draw);
    let windowed = moded.windows_updated(acked, excess, in_flight);
    lemma_end_of_batch_by_step(s, now, in_flight, app_limited, largest, draw);
    lemma_taking_in_changes(s, now, in_flight, largest);
    lemma_answering_changes(taken, now, in_flight, app_limited, begins);
    lemma_modelling_changes(answered, now, acked, begins, in_flight, app_limited);
    lemma_mode_changes(modelled, now, begins, in_flight, app_limited, draw);
    lemma_window_changes(moded, acked, excess, in_flight);
    lemma_ending_changes(windowed, in_flight, begins, acked, largest);
    lemma_losses_seen(s, now, in_flight, app_limited, largest);
    lemma_probing_by_steps(s, now, in_flight, app_limited, largest);
    lemma_mode_keeps_the_probe(modelled, now, begins, in_flight, app_limited, draw);
    lemma_probe_in_parts(
        answered_to(s, now, in_flight, app_limited, largest),
        now,
        acked,
        begins,
        in_flight,
    );
    lemma_answer_keeps_the_mode(s, now, in_flight, app_limited, largest);
}

/// The parts of a look at the bandwidth probe.
proof fn lemma_probe_in_parts(
    a: Bbr,
    now: Instant,
    bytes_acked: u64,
    is_round_start: bool,
    in_flight: u64,
)
    ensures
        ({
            let grown = a.probed_up(bytes_acked, is_round_start, in_flight);
            let m = grown.phase_updated(now, in_flight, is_round_start);
            let p = probed(a, now, bytes_acked, is_round_start, in_flight);
            &&& a.mode == Mode::ProbeBw ==> p == m && m.inflight_hi == grown.inflight_hi
            &&& a.mode != Mode::ProbeBw ==> p == a
        }),
{
    reveal(probed);
}

/// The answer to losses does not touch the mode.
proof fn lemma_answer_keeps_the_mode(
    s: Bbr,
    now: Instant,
    in_flight: u64,
    app_limited: bool,
    largest: Option<u64>,
)
    ensures
        answered_to(s, now, in_flight, app_limited, largest).mode == s.mode,
{
}

/// Choosing the mode leaves a probe under way alone.
proof fn lemma_mode_keeps_the_probe(
    s: Bbr,
    now: Instant,
    is_round_start: bool,
    in_flight: u64,
    app_limited: bool,
    draw: u8,
)
    ensures
        ({
            let t = s.mode_updated(now, is_round_start, in_flight, app_limited, draw);
            let due = !app_limited && !s.exiting_quiescence && (s.probe_rtt_last_started_at is None
                || now.since(s.probe_rtt_last_started_at->0).nanos > 10_000_000_000);
            &&& s.mode == Mode::ProbeBw ==> t == (Bbr {
                mode: t.mode,
                pacing_gain: t.pacing_gain,
                exit_probe_rtt_at: t.exit_probe_rtt_at,
                probe_rtt_last_started_at: t.probe_rtt_last_started_at,
                exiting_quiescence: false,
                ..s
            })
            &&& s.mode == Mode::ProbeBw && !due ==> t.pacing_gain == s.pacing_gain
        }),
{
    reveal(Bbr::mode_updated);
}

/// What the latest signals are after a batch: for the full model at the start of a
/// round, the flight at which the newest packet was sent, or what the batch
/// acknowledged where that is not known, and the estimate. Otherwise they are those of
/// the answer to the losses.
pub proof fn law_batch_advances_the_signals(
    s: Bbr,
    now: Instant,
    in_flight: u64,
    app_limited: bool,
    largest: Option<u64>,
    draw: u8,
)
    requires
        s.wf(),
    ensures
        ({
            let t = s.acks_ended(now, in_flight, app_limited, largest, draw);
            let a = answered_to(s, now, in_flight, app_limited, largest);
            let advances = s.full_model() && begins_round(s, largest) && largest is Some;
            &&& advances && s.sent_packets@.contains_key(largest->0) ==> t.inflight_latest
                == s.sent_packets@[largest->0].tx_in_flight
            &&& advances && !s.sent_packets@.contains_key(largest->0) ==> t.inflight_latest
                == s.batch_acked()
            &&& advances ==> t.bw_latest == s.max_bandwidth.estimate()
            &&& !advances ==> t.inflight_latest == a.inflight_latest && t.bw_latest == a.bw_latest
        }),
{
    let begins = s.round_begins(largest);
    let acked = s.batch_acked();
    let excess = s.batch_excess(now);
    let taken = s.batch_taken_in(now, in_flight, largest);
    let answered = taken.losses_answered(now, in_flight, app_limited, begins);
    let modelled = answered.path_modelled(now, acked, begins, in_flight, app_limited);
    let moded = modelled.mode_updated(now, begins, in_flight, app_limited, draw);
    let windowed = moded.windows_updated(acked, excess, in_flight);
    lemma_end_of_batch_by_step(s, now, in_flight, app_limited, largest, draw);
    lemma_taking_in_changes(s, now, in_flight, largest);
    lemma_answering_changes(taken, now, in_flight, app_limited, begins);
    lemma_modelling_changes(answered, now, acked, begins, in_flight, app_limited);
    lemma_mode_changes(modelled, now, begins, in_flight, app_limited, draw);
    lemma_window_changes(moded, acked, excess, in_flight);
    lemma_ending_changes(windowed, in_flight, begins, acked, largest);
    lemma_losses_seen(s, now, in_flight, app_limited, largest);
    lemma_probing_by_steps(s, now, in_flight, app_limited, largest);
    lemma_probe_keeps_the_signals(
        answered_to(s, now, in_flight, app_limited, largest),
        now,
        acked,
        begins,
        in_flight,
    );
    lemma_end_advances_the_signals(windowed, in_flight, begins, acked, largest);
}

/// A look at the bandwidth probe does not touch the latest signals.
proof fn lemma_probe_keeps_the_signals(
    a: Bbr,
    now: Instant,
    bytes_acked: u64,
    is_round_start: bool,
    in_flight: u64,
)
    ensures
        ({
            let p = probed(a, now, bytes_acked, is_round_start, in_flight);
            p.inflight_latest == a.inflight_latest && p.bw_latest == a.bw_latest
        }),
{
    reveal(probed);
}

/// What the end of a batch does to the latest signals.
proof fn lemma_end_advances_the_signals(
    s: Bbr,
    in_flight: u64,
    is_round_start: bool,
    bytes_acked: u64,
    largest: Option<u64>,
)
    ensures
        ({
            let t = s.batch_ended(in_flight, is_round_start, bytes_acked, largest);
            let advances = s.full_model() && is_round_start && largest is Some;
            &&& advances && s.sent_packets@.contains_key(largest->0) ==> t.inflight_latest
                == s.sent_packets@[largest->0].tx_in_flight
            &&& advances && !s.sent_packets@.contains_key(largest->0) ==> t.inflight_latest
                == bytes_acked
            &&& advances ==> t.bw_latest == s.max_bandwidth.estimate()
            &&& !advances ==> t.inflight_latest == s.inflight_latest && t.bw_latest == s.bw_latest
        }),
{
    reveal(Bbr::batch_ended);
}

/// When a batch sets the end of ProbeRtt: once less is in flight than three quarters of
/// the target and one packet, to 200 milliseconds from then; and it stays.
pub proof fn law_batch_sets_the_end_of_probe_rtt(
    s: Bbr,
    now: Instant,
    in_flight: u64,
    app_limited: bool,
    largest: Option<u64>,
    draw: u8,
)
    requires
        s.wf(),
        now.nanos + 200_000_000 <= u128::MAX,
    ensures
        ({
            let t = s.acks_ended(now, in_flight, app_limited, largest, draw);
            let open = s.mode != Mode::ProbeRtt || s.exit_probe_rtt_at is None;
            let reached = in_flight < t.target_cwnd(25_165_824) + t.current_mtu;
            &&& t.mode == Mode::ProbeRtt && open && reached ==> t.exit_probe_rtt_at is Some
                && t.exit_probe_rtt_at->0.nanos == now.nanos + 200_000_000
            &&& t.mode == Mode::ProbeRtt && open && !reached ==> t.exit_probe_rtt_at is None
            &&& t.mode == Mode::ProbeRtt && !open ==> t.exit_probe_rtt_at == s.exit_probe_rtt_at
        }),
{
    let begins = s.round_begins(largest);
    let acked = s.batch_acked();
    let excess = s.batch_excess(now);
    let taken = s.batch_taken_in(now, in_flight, largest);
    let answered = taken.losses_answered(now, in_flight, app_limited, begins);
    let modelled = answered.path_modelled(now, acked, begins, in_flight, app_limited);
    let moded = modelled.mode_updated(now, begins, in_flight, app_limited, draw);
    let windowed = moded.windows_updated(acked, excess, in_flight);
    lemma_end_of_batch_by_step(s, now, in_flight, app_limited, largest, draw);
    lemma_taking_in_changes(s, now, in_flight, largest);
    lemma_answering_changes(taken, now, in_flight, app_limited, begins);
    lemma_modelling_changes(answered, now, acked, begins, in_flight, app_limited);
    lemma_mode_changes(modelled, now, begins, in_flight, app_limited, draw);
    lemma_window_changes(moded, acked, excess, in_flight);
    lemma_ending_changes(windowed, in_flight, begins, acked, largest);
    lemma_losses_seen(s, now, in_flight, app_limited, largest);
    lemma_end_of_probe_rtt_by_rules(modelled, now, begins, in_flight, app_limited, draw);
    let t = s.acks_ended(now, in_flight, app_limited, largest, draw);
    assert(t.target_cwnd(25_165_824) == moded.target_cwnd(25_165_824));
}

/// When the choice of the mode sets the end of ProbeRtt.
proof fn lemma_end_of_probe_rtt_by_rules(
    s: Bbr,
    now: Instant,
    is_round_start: bool,
    in_flight: u64,
    app_limited: bool,
    draw: u8,
)
    requires
        now.nanos + 200_000_000 <= u128::MAX,
    ensures
        ({
            let t = s.mode_updated(now, is_round_start, in_flight, app_limited, draw);
            let open = s.mode != Mode::ProbeRtt || s.exit_probe_rtt_at is None;
            let reached = in_flight < t.target_cwnd(25_165_824) + t.current_mtu;
            &&& t.mode == Mode::ProbeRtt && open && reached ==> t.exit_probe_rtt_at is Some
                && t.exit_probe_rtt_at->0.nanos == now.nanos + 200_000_000
            &&& t.mode == Mode::ProbeRtt && open && !reached ==> t.exit_probe_rtt_at is None
            &&& t.mode == Mode::ProbeRtt && !open ==> t.exit_probe_rtt_at == s.exit_probe_rtt_at
        }),
{
    reveal(Bbr::mode_updated);
    let entered = s.drain_left(now, in_flight, draw).probe_rtt_entered(now, app_limited);
    let t = s.mode_updated(now, is_round_start, in_flight, app_limited, draw);
    if entered.mode == Mode::ProbeRtt && t.mode == Mode::ProbeRtt {
        assert(t.target_cwnd(25_165_824) == entered.target_cwnd(25_165_824));
    }
}

} // verus!
