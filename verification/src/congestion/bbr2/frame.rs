//! What the steps at the end of a batch do not depend on, and what they leave
//! alone.

use vstd::prelude::*;

use rand_pcg::Pcg32;

use crate::gain::UNIT_GAIN;
use crate::time::Instant;
use super::min_max::MinMax;
use super::model::CYCLE_LENGTH;
use super::{Bbr, BbrVersion, Mode};

verus! {

/// The ProbeRtt step does not look at the random generator.
#[verifier::spinoff_prover]
pub(crate) proof fn lemma_probe_rtt_ignores_generator(
    s: Bbr,
    generator: Pcg32,
    now: Instant,
    is_round_start: bool,
    in_flight: u64,
    app_limited: bool,
)
    ensures
        s.with_generator(generator).probe_rtt_fits(now, in_flight, app_limited)
            == s.probe_rtt_fits(now, in_flight, app_limited),
        forall|draw: u8|
            (#[trigger] s.with_generator(generator).probe_rtt_updated(
                now,
                is_round_start,
                in_flight,
                app_limited,
                draw,
            )) == s.probe_rtt_updated(
                now,
                is_round_start,
                in_flight,
                app_limited,
                draw,
            ).with_generator(generator),
{
}

/// At most one of the two mode steps makes use of its random number, so one
/// number does for both.
pub(crate) proof fn lemma_one_draw_suffices(
    s: Bbr,
    now: Instant,
    is_round_start: bool,
    in_flight: u64,
    app_limited: bool,
    first: u8,
    second: u8,
)
    ensures
        ({
            let after = s.drain_left(now, in_flight, first).probe_rtt_updated(
                now,
                is_round_start,
                in_flight,
                app_limited,
                second,
            );
            ||| after == s.drain_left(now, in_flight, first).probe_rtt_updated(
                now,
                is_round_start,
                in_flight,
                app_limited,
                first,
            )
            ||| after == s.drain_left(now, in_flight, second).probe_rtt_updated(
                now,
                is_round_start,
                in_flight,
                app_limited,
                second,
            )
        }),
{
    let left = s.startup_left();
    if left.mode == Mode::Drain && in_flight <= left.target_cwnd(UNIT_GAIN) {
        assert(s.drain_left(now, in_flight, first).mode == Mode::ProbeBw);
    } else {
        assert(s.drain_left(now, in_flight, first) == s.drain_left(now, in_flight, second));
    }
}

/// The windows do not depend on the random generator.
#[verifier::spinoff_prover]
pub(crate) proof fn lemma_windows_ignore_generator(
    s: Bbr,
    generator: Pcg32,
    bytes_acked: u64,
    excess_acked: u64,
    in_flight: u64,
    is_round_start: bool,
    largest: Option<u64>,
)
    ensures
        s.with_generator(generator).windows_fit(bytes_acked, excess_acked, in_flight)
            == s.windows_fit(bytes_acked, excess_acked, in_flight),
        s.with_generator(generator).windows_updated(
            bytes_acked,
            excess_acked,
            in_flight,
        ).batch_ended(in_flight, is_round_start, bytes_acked, largest) == s.windows_updated(
            bytes_acked,
            excess_acked,
            in_flight,
        ).batch_ended(in_flight, is_round_start, bytes_acked, largest).with_generator(generator),
{
    reveal(Bbr::windows_fit);
    reveal(Bbr::windows_updated);
    reveal(Bbr::batch_ended);
    let t = s.with_generator(generator);
    let lost = s.loss_state.congestion_lost_bytes;
    assert(t.paced() == s.paced().with_generator(generator));
    let (p, q) = (s.paced(), t.paced());
    assert(q.windowed(bytes_acked, excess_acked) == p.windowed(
        bytes_acked,
        excess_acked,
    ).with_generator(generator));
    let (v, w) = (p.windowed(bytes_acked, excess_acked), q.windowed(bytes_acked, excess_acked));
    assert(w.recovery_windowed(bytes_acked, lost, in_flight) == v.recovery_windowed(
        bytes_acked,
        lost,
        in_flight,
    ).with_generator(generator));
}

/// What the end of a batch asks for, step by step.
pub(crate) proof fn lemma_end_of_batch_by_step(
    s: Bbr,
    now: Instant,
    in_flight: u64,
    app_limited: bool,
    largest: Option<u64>,
    draw: u8,
)
    ensures
        ({
            let begins = s.round_begins(largest);
            let acked = s.batch_acked();
            let excess = s.batch_excess(now);
            let taken = s.batch_taken_in(now, in_flight, largest);
            let answered = taken.losses_answered(now, in_flight, app_limited, begins);
            let modelled = answered.path_modelled(now, acked, begins, in_flight, app_limited);
            let moded = modelled.mode_updated(now, begins, in_flight, app_limited, draw);
            &&& s.batch_model_fits(now, in_flight, app_limited, largest) ==> taken.losses_fit(
                begins,
            ) && answered.model_fits(now, acked, begins, in_flight, app_limited)
            &&& s.batch_window_fits(now, in_flight, app_limited, largest, draw)
                ==> modelled.mode_fits(now, in_flight, app_limited, draw) && moded.windows_fit(
                acked,
                excess,
                in_flight,
            )
            &&& modelled == s.batch_modelled(now, in_flight, app_limited, largest)
            &&& s.batch_draws(now, in_flight, app_limited, largest) == modelled.mode_draws(
                now,
                begins,
                in_flight,
            )
            &&& s.acks_ended(now, in_flight, app_limited, largest, draw) == moded.windows_updated(
                acked,
                excess,
                in_flight,
            ).batch_ended(in_flight, begins, acked, largest)
        }),
{
    reveal(Bbr::batch_model_fits);
    reveal(Bbr::batch_window_fits);
    reveal(Bbr::batch_modelled);
    reveal(Bbr::batch_draws);
    reveal(Bbr::acks_ended);
}

/// Where the windows fit for every random number, so does the choice of the mode;
/// and where the batch draws none, choosing the mode draws none.
pub(crate) proof fn lemma_every_draw_fits(
    s: Bbr,
    now: Instant,
    in_flight: u64,
    app_limited: bool,
    largest: Option<u64>,
)
    requires
        forall|draw: u8|
            draw < CYCLE_LENGTH - 1 ==> #[trigger] s.batch_window_fits(
                now,
                in_flight,
                app_limited,
                largest,
                draw,
            ),
    ensures
        forall|draw: u8|
            draw < CYCLE_LENGTH - 1 ==> #[trigger] s.batch_modelled(
                now,
                in_flight,
                app_limited,
                largest,
            ).mode_fits(now, in_flight, app_limited, draw),
        s.batch_modelled(now, in_flight, app_limited, largest).random_number_generator
            == s.random_number_generator,
        s.full_model() || !s.batch_draws(now, in_flight, app_limited, largest)
            ==> !s.batch_modelled(now, in_flight, app_limited, largest).mode_draws(
            now,
            s.round_begins(largest),
            in_flight,
        ),
{
    assert forall|draw: u8| draw < CYCLE_LENGTH - 1 implies #[trigger] s.batch_modelled(
        now,
        in_flight,
        app_limited,
        largest,
    ).mode_fits(now, in_flight, app_limited, draw) by {
        lemma_end_of_batch_by_step(s, now, in_flight, app_limited, largest, draw);
        assert(s.batch_window_fits(now, in_flight, app_limited, largest, draw));
    }
    lemma_end_of_batch_by_step(s, now, in_flight, app_limited, largest, 0);
    lemma_batch_model_changes(s, now, in_flight, app_limited, largest);
}

/// Once the mode is chosen, the windows fit, and recalculating them ends the batch,
/// whatever has become of the random generator.
pub(crate) proof fn lemma_mode_leads_to_windows(
    s: Bbr,
    generator: Pcg32,
    now: Instant,
    in_flight: u64,
    app_limited: bool,
    largest: Option<u64>,
    draw: u8,
)
    requires
        s.batch_window_fits(now, in_flight, app_limited, largest, draw),
    ensures
        ({
            let begins = s.round_begins(largest);
            let moded = s.batch_modelled(now, in_flight, app_limited, largest).mode_updated(
                now,
                begins,
                in_flight,
                app_limited,
                draw,
            ).with_generator(generator);
            &&& moded.windows_fit(s.batch_acked(), s.batch_excess(now), in_flight)
            &&& moded.windows_updated(s.batch_acked(), s.batch_excess(now), in_flight).batch_ended(
                in_flight,
                begins,
                s.batch_acked(),
                largest,
            ) == s.acks_ended(now, in_flight, app_limited, largest, draw).with_generator(generator)
        }),
{
    let begins = s.round_begins(largest);
    lemma_end_of_batch_by_step(s, now, in_flight, app_limited, largest, draw);
    lemma_windows_ignore_generator(
        s.batch_modelled(now, in_flight, app_limited, largest).mode_updated(
            now,
            begins,
            in_flight,
            app_limited,
            draw,
        ),
        generator,
        s.batch_acked(),
        s.batch_excess(now),
        in_flight,
        begins,
        largest,
    );
}

/// What taking in a batch leaves alone.
pub(crate) proof fn lemma_taking_in_changes(
    s: Bbr,
    now: Instant,
    in_flight: u64,
    largest: Option<u64>,
)
    ensures
        ({
            let t = s.batch_taken_in(now, in_flight, largest);
            &&& t == (Bbr {
                tracked_in_flight: in_flight,
                ack_aggregation: t.ack_aggregation,
                max_bandwidth: s.max_bandwidth.window_closed(),
                max_acked_packet_number: s.newest_acked(largest),
                current_round_trip_end_packet_number: t.current_round_trip_end_packet_number,
                round_count: t.round_count,
                loss_state: t.loss_state,
                ..s
            })
            &&& t.ack_aggregation == s.ack_aggregation.updated(
                s.batch_acked(),
                now,
                s.round_count,
                s.max_bandwidth.estimate(),
            )
            &&& t.round_count == (if s.round_begins(largest) {
                (s.round_count + 1) as u64
            } else {
                s.round_count
            })
            &&& t.loss_state == s.loss_state.delivered(s.batch_acked()).classified(
                s.version,
                s.current_mtu,
                t.round_count,
            )
        }),
{
    reveal(Bbr::batch_taken_in);
}

/// What answering to losses leaves alone.
pub(crate) proof fn lemma_answering_changes(
    s: Bbr,
    now: Instant,
    in_flight: u64,
    app_limited: bool,
    is_round_start: bool,
)
    ensures
        ({
            let t = s.losses_answered(now, in_flight, app_limited, is_round_start);
            &&& t == (Bbr {
                inflight_hi: t.inflight_hi,
                inflight_lo: t.inflight_lo,
                bw_lo: t.bw_lo,
                inflight_latest: t.inflight_latest,
                bw_latest: t.bw_latest,
                probe_up_acked: t.probe_up_acked,
                probe_up_rounds: t.probe_up_rounds,
                probe_bw_phase: t.probe_bw_phase,
                bw_probe_samples: t.bw_probe_samples,
                pacing_gain: t.pacing_gain,
                cwnd_gain: t.cwnd_gain,
                last_cycle_start: t.last_cycle_start,
                end_recovery_at_packet_number: t.end_recovery_at_packet_number,
                recovery_state: t.recovery_state,
                recovery_window: t.recovery_window,
                current_round_trip_end_packet_number: t.current_round_trip_end_packet_number,
                ..s
            })
            &&& !s.answers_signal(is_round_start) ==> t.inflight_hi == s.inflight_hi
                && t.inflight_lo == s.inflight_lo && t.bw_lo == s.bw_lo
            &&& s.answers_signal(is_round_start) && s.is_probing_bandwidth() && s.bw_probe_samples
                ==> t.inflight_hi <= s.inflight_hi && t.inflight_lo == s.inflight_lo && t.bw_lo
                == s.bw_lo
            &&& s.answers_signal(is_round_start) && !(s.is_probing_bandwidth()
                && s.bw_probe_samples) ==> t.inflight_hi == s.inflight_hi
            &&& t.recovery_window == s.recovery_window || t.recovery_window == 0
            &&& !s.loss_state.congested() && !s.recovery_state.in_recovery()
                ==> !t.recovery_state.in_recovery()
            &&& s.loss_state.congested() ==> t.recovery_state.in_recovery()
            &&& !s.loss_state.congested() && s.max_acked_packet_number
                > s.end_recovery_at_packet_number ==> !t.recovery_state.in_recovery()
            &&& !s.loss_state.congested() ==> t.pacing_gain == s.pacing_gain
        }),
{
    reveal(Bbr::losses_answered);
    let answered = s.signal_answered(now, in_flight, app_limited, is_round_start);
    assert(answered.recovery_state == s.recovery_state);
    assert(answered.loss_state == s.loss_state);
}

/// What bringing the model up to date leaves alone.
pub(crate) proof fn lemma_modelling_changes(
    s: Bbr,
    now: Instant,
    bytes_acked: u64,
    is_round_start: bool,
    in_flight: u64,
    app_limited: bool,
)
    ensures
        ({
            let t = s.path_modelled(now, bytes_acked, is_round_start, in_flight, app_limited);
            &&& t == (Bbr {
                inflight_hi: t.inflight_hi,
                inflight_lo: t.inflight_lo,
                bw_lo: t.bw_lo,
                probe_up_acked: t.probe_up_acked,
                probe_up_rounds: t.probe_up_rounds,
                probe_bw_phase: t.probe_bw_phase,
                bw_probe_samples: t.bw_probe_samples,
                pacing_gain: t.pacing_gain,
                cwnd_gain: t.cwnd_gain,
                last_cycle_start: t.last_cycle_start,
                current_cycle_offset: t.current_cycle_offset,
                bw_at_last_round: t.bw_at_last_round,
                round_wo_bw_gain: t.round_wo_bw_gain,
                is_at_full_bandwidth: t.is_at_full_bandwidth,
                ack_aggregation: t.ack_aggregation,
                ..s
            })
            &&& t.inflight_hi >= s.inflight_hi
            &&& t.inflight_hi > s.inflight_hi ==> s.probe_up_counts() && s.limit_utilized(
                bytes_acked,
                in_flight,
            )
            &&& !s.full_model() ==> t.inflight_hi == s.inflight_hi && t.inflight_lo
                == s.inflight_lo && t.bw_lo == s.bw_lo
            &&& s.current_cycle_offset < CYCLE_LENGTH ==> t.current_cycle_offset < CYCLE_LENGTH
            &&& s.is_at_full_bandwidth ==> t.is_at_full_bandwidth
            &&& t.ack_aggregation.max_ack_height == s.ack_aggregation.max_ack_height
                || t.ack_aggregation.max_ack_height == MinMax::empty(
                s.ack_aggregation.max_ack_height.window,
            )
        }),
{
    reveal(Bbr::path_modelled);
    let probed = s.bandwidth_probed(now, bytes_acked, is_round_start, in_flight);
    let up = s.probed_up(bytes_acked, is_round_start, in_flight);
    assert(up == (Bbr {
        inflight_hi: up.inflight_hi,
        probe_up_acked: up.probe_up_acked,
        probe_up_rounds: up.probe_up_rounds,
        ..s
    }));
    assert(up.inflight_hi >= s.inflight_hi);
    assert(probed == (Bbr {
        inflight_hi: up.inflight_hi,
        inflight_lo: probed.inflight_lo,
        bw_lo: probed.bw_lo,
        probe_up_acked: probed.probe_up_acked,
        probe_up_rounds: probed.probe_up_rounds,
        probe_bw_phase: probed.probe_bw_phase,
        bw_probe_samples: probed.bw_probe_samples,
        pacing_gain: probed.pacing_gain,
        cwnd_gain: probed.cwnd_gain,
        last_cycle_start: probed.last_cycle_start,
        current_cycle_offset: probed.current_cycle_offset,
        ..s
    }) || s.mode != Mode::ProbeBw);
}

/// What choosing the mode leaves alone.
pub(crate) proof fn lemma_mode_changes(
    s: Bbr,
    now: Instant,
    is_round_start: bool,
    in_flight: u64,
    app_limited: bool,
    draw: u8,
)
    ensures
        ({
            let t = s.mode_updated(now, is_round_start, in_flight, app_limited, draw);
            &&& t == (Bbr {
                mode: t.mode,
                pacing_gain: t.pacing_gain,
                cwnd_gain: t.cwnd_gain,
                last_cycle_start: t.last_cycle_start,
                probe_bw_phase: t.probe_bw_phase,
                probe_up_acked: t.probe_up_acked,
                bw_probe_samples: t.bw_probe_samples,
                current_cycle_offset: t.current_cycle_offset,
                exit_probe_rtt_at: t.exit_probe_rtt_at,
                probe_rtt_last_started_at: t.probe_rtt_last_started_at,
                exiting_quiescence: false,
                ..s
            })
            &&& s.current_cycle_offset < CYCLE_LENGTH && draw < CYCLE_LENGTH - 1
                ==> t.current_cycle_offset < CYCLE_LENGTH
            &&& t.mode == Mode::Startup ==> !s.is_at_full_bandwidth && (s.mode == Mode::Startup
                || s.mode == Mode::ProbeRtt)
            &&& t.mode == Mode::Drain ==> s.is_at_full_bandwidth || s.mode == Mode::Drain
            &&& s.min_rtt_expired(now, app_limited) && !s.exiting_quiescence && s.mode
                != Mode::ProbeRtt ==> t.mode == Mode::ProbeRtt && t.pacing_gain == UNIT_GAIN
                && t.probe_rtt_last_started_at == Some(now)
            &&& s.mode == Mode::ProbeRtt && t.mode != Mode::ProbeRtt ==> is_round_start
                && (s.exit_probe_rtt_at matches Some(exit) && now.reached(exit))
        }),
{
    reveal(Bbr::mode_updated);
}

/// What recalculating the windows leaves alone.
pub(crate) proof fn lemma_window_changes(
    s: Bbr,
    bytes_acked: u64,
    excess_acked: u64,
    in_flight: u64,
)
    ensures
        ({
            let t = s.windows_updated(bytes_acked, excess_acked, in_flight);
            &&& t == (Bbr {
                pacing_rate: s.next_pacing_rate(),
                cwnd: t.cwnd,
                recovery_window: t.recovery_window,
                ..s
            })
            &&& t.cwnd == (if s.mode == Mode::ProbeRtt {
                s.cwnd
            } else {
                s.next_cwnd(bytes_acked, excess_acked)
            })
            &&& !s.recovery_state.in_recovery() ==> t.recovery_window == s.recovery_window
            &&& s.recovery_state.in_recovery() ==> t.recovery_window >= s.min_cwnd
                && t.recovery_window >= (in_flight + bytes_acked) as u64
        }),
{
    reveal(Bbr::windows_updated);
    assert(s.paced().next_cwnd(bytes_acked, excess_acked) == s.next_cwnd(
        bytes_acked,
        excess_acked,
    ));
}

/// What ending a batch leaves alone.
pub(crate) proof fn lemma_ending_changes(
    s: Bbr,
    in_flight: u64,
    is_round_start: bool,
    bytes_acked: u64,
    largest: Option<u64>,
)
    ensures
        ({
            let t = s.batch_ended(in_flight, is_round_start, bytes_acked, largest);
            t == (Bbr {
                prev_in_flight_count: in_flight,
                loss_state: t.loss_state,
                inflight_latest: t.inflight_latest,
                bw_latest: t.bw_latest,
                ..s
            })
        }),
{
    reveal(Bbr::batch_ended);
}

/// BBRv1 takes in batches and answers to losses whatever the bounds.
pub(crate) proof fn lemma_v1_losses_ignore_bounds(
    s: Bbr,
    bounds: (u64, u64, u64),
    now: Instant,
    in_flight: u64,
    app_limited: bool,
    is_round_start: bool,
    largest: Option<u64>,
)
    requires
        s.version == BbrVersion::V1,
    ensures
        s.with_bounds(bounds.0, bounds.1, bounds.2).batch_taken_in(now, in_flight, largest)
            == s.batch_taken_in(now, in_flight, largest).with_bounds(bounds.0, bounds.1, bounds.2),
        s.with_bounds(bounds.0, bounds.1, bounds.2).losses_answered(
            now,
            in_flight,
            app_limited,
            is_round_start,
        ) == s.losses_answered(now, in_flight, app_limited, is_round_start).with_bounds(
            bounds.0,
            bounds.1,
            bounds.2,
        ),
{
    reveal(Bbr::batch_taken_in);
    reveal(Bbr::losses_answered);
}

/// BBRv1 models the path whatever the bounds.
#[verifier::spinoff_prover]
pub(crate) proof fn lemma_v1_model_ignores_bounds(
    s: Bbr,
    bounds: (u64, u64, u64),
    now: Instant,
    bytes_acked: u64,
    is_round_start: bool,
    in_flight: u64,
    app_limited: bool,
)
    requires
        s.version == BbrVersion::V1,
    ensures
        s.with_bounds(bounds.0, bounds.1, bounds.2).path_modelled(
            now,
            bytes_acked,
            is_round_start,
            in_flight,
            app_limited,
        ) == s.path_modelled(
            now,
            bytes_acked,
            is_round_start,
            in_flight,
            app_limited,
        ).with_bounds(bounds.0, bounds.1, bounds.2),
{
    reveal(Bbr::path_modelled);
    let t = s.with_bounds(bounds.0, bounds.1, bounds.2);
    assert(t.gain_cycled(now, in_flight) == s.gain_cycled(now, in_flight).with_bounds(
        bounds.0,
        bounds.1,
        bounds.2,
    ));
}

/// BBRv1 looks at ProbeRtt whatever the bounds.
#[verifier::spinoff_prover]
proof fn lemma_v1_probe_rtt_ignores_bounds(
    s: Bbr,
    bounds: (u64, u64, u64),
    now: Instant,
    is_round_start: bool,
    in_flight: u64,
    app_limited: bool,
    draw: u8,
)
    requires
        s.version == BbrVersion::V1,
    ensures
        s.with_bounds(bounds.0, bounds.1, bounds.2).probe_rtt_updated(
            now,
            is_round_start,
            in_flight,
            app_limited,
            draw,
        ) == s.probe_rtt_updated(now, is_round_start, in_flight, app_limited, draw).with_bounds(
            bounds.0,
            bounds.1,
            bounds.2,
        ),
{
    let t = s.with_bounds(bounds.0, bounds.1, bounds.2);
    let entered = s.probe_rtt_entered(now, app_limited);
    assert(t.probe_rtt_entered(now, app_limited) == entered.with_bounds(
        bounds.0,
        bounds.1,
        bounds.2,
    ));
    assert(entered.with_bounds(bounds.0, bounds.1, bounds.2).probe_rtt_left(
        now,
        is_round_start,
        in_flight,
        draw,
    ) == entered.probe_rtt_left(now, is_round_start, in_flight, draw).with_bounds(
        bounds.0,
        bounds.1,
        bounds.2,
    ));
}

/// BBRv1 chooses its mode whatever the bounds.
#[verifier::spinoff_prover]
pub(crate) proof fn lemma_v1_mode_ignores_bounds(
    s: Bbr,
    bounds: (u64, u64, u64),
    now: Instant,
    is_round_start: bool,
    in_flight: u64,
    app_limited: bool,
    draw: u8,
)
    requires
        s.version == BbrVersion::V1,
    ensures
        s.with_bounds(bounds.0, bounds.1, bounds.2).mode_updated(
            now,
            is_round_start,
            in_flight,
            app_limited,
            draw,
        ) == s.mode_updated(now, is_round_start, in_flight, app_limited, draw).with_bounds(
            bounds.0,
            bounds.1,
            bounds.2,
        ),
{
    reveal(Bbr::mode_updated);
    let t = s.with_bounds(bounds.0, bounds.1, bounds.2);
    assert(t.drain_left(now, in_flight, draw) == s.drain_left(now, in_flight, draw).with_bounds(
        bounds.0,
        bounds.1,
        bounds.2,
    ));
    lemma_v1_probe_rtt_ignores_bounds(
        s.drain_left(now, in_flight, draw),
        bounds,
        now,
        is_round_start,
        in_flight,
        app_limited,
        draw,
    );
}

/// BBRv1 recalculates its windows and ends a batch whatever the bounds.
pub(crate) proof fn lemma_v1_windows_ignore_bounds(
    s: Bbr,
    bounds: (u64, u64, u64),
    bytes_acked: u64,
    excess_acked: u64,
    in_flight: u64,
    is_round_start: bool,
    largest: Option<u64>,
)
    requires
        s.version == BbrVersion::V1,
    ensures
        s.with_bounds(bounds.0, bounds.1, bounds.2).windows_updated(
            bytes_acked,
            excess_acked,
            in_flight,
        ) == s.windows_updated(bytes_acked, excess_acked, in_flight).with_bounds(
            bounds.0,
            bounds.1,
            bounds.2,
        ),
        s.with_bounds(bounds.0, bounds.1, bounds.2).batch_ended(
            in_flight,
            is_round_start,
            bytes_acked,
            largest,
        ) == s.batch_ended(in_flight, is_round_start, bytes_acked, largest).with_bounds(
            bounds.0,
            bounds.1,
            bounds.2,
        ),
{
    reveal(Bbr::windows_updated);
    reveal(Bbr::batch_ended);
    let t = s.with_bounds(bounds.0, bounds.1, bounds.2);
    assert(t.paced() == s.paced().with_bounds(bounds.0, bounds.1, bounds.2));
    assert(t.paced().windowed(bytes_acked, excess_acked) == s.paced().windowed(
        bytes_acked,
        excess_acked,
    ).with_bounds(bounds.0, bounds.1, bounds.2));
}

/// What the first part of the mode step asks for, and what it leaves to the second.
pub(crate) proof fn lemma_mode_fits_by_step(
    s: Bbr,
    generator: Pcg32,
    now: Instant,
    is_round_start: bool,
    in_flight: u64,
    app_limited: bool,
    draw: u8,
)
    requires
        s.mode_fits(now, in_flight, app_limited, draw),
    ensures
        s.drain_check_fits(),
        s.drain_left(now, in_flight, draw).with_generator(generator).probe_rtt_fits(
            now,
            in_flight,
            app_limited,
        ),
        !s.mode_draws(now, is_round_start, in_flight) ==> !s.drain_draws(in_flight) && !s.drain_left(
            now,
            in_flight,
            draw,
        ).with_generator(generator).probe_rtt_draws(now, is_round_start),
{
    reveal(Bbr::mode_fits);
    lemma_probe_rtt_ignores_generator(
        s.drain_left(now, in_flight, draw),
        generator,
        now,
        is_round_start,
        in_flight,
        app_limited,
    );
    assert(!s.mode_draws(now, is_round_start, in_flight) ==> !s.drain_left(
        now,
        in_flight,
        draw,
    ).with_generator(generator).probe_rtt_draws(now, is_round_start));
}

/// The two parts of the mode step, one after the other, are the step for one of
/// their random numbers.
pub(crate) proof fn lemma_mode_step_is_whole(
    s: Bbr,
    left: Bbr,
    done: Bbr,
    now: Instant,
    is_round_start: bool,
    in_flight: u64,
    app_limited: bool,
    first: u8,
    second: u8,
) -> (draw: u8)
    requires
        left == s.drain_left(now, in_flight, first).with_generator(left.random_number_generator),
        done == left.probe_rtt_updated(
            now,
            is_round_start,
            in_flight,
            app_limited,
            second,
        ).with_generator(done.random_number_generator),
    ensures
        draw == first || draw == second,
        done == s.mode_updated(
            now,
            is_round_start,
            in_flight,
            app_limited,
            draw,
        ).with_generator(done.random_number_generator),
{
    let drained = s.drain_left(now, in_flight, first);
    lemma_probe_rtt_ignores_generator(
        drained,
        left.random_number_generator,
        now,
        is_round_start,
        in_flight,
        app_limited,
    );
    assert(done == drained.probe_rtt_updated(
        now,
        is_round_start,
        in_flight,
        app_limited,
        second,
    ).with_generator(done.random_number_generator));
    lemma_one_draw_suffices(s, now, is_round_start, in_flight, app_limited, first, second);
    reveal(Bbr::mode_updated);
    if drained.probe_rtt_updated(now, is_round_start, in_flight, app_limited, second)
        == drained.probe_rtt_updated(now, is_round_start, in_flight, app_limited, first) {
        first
    } else {
        second
    }
}

/// Where the mode step draws no number, none makes a difference to it.
#[verifier::spinoff_prover]
pub(crate) proof fn lemma_undrawn_number_is_not_used(
    s: Bbr,
    now: Instant,
    is_round_start: bool,
    in_flight: u64,
    app_limited: bool,
    draw: u8,
    other: u8,
)
    requires
        !s.mode_draws(now, is_round_start, in_flight),
    ensures
        s.mode_updated(now, is_round_start, in_flight, app_limited, draw) == s.mode_updated(
            now,
            is_round_start,
            in_flight,
            app_limited,
            other,
        ),
{
    reveal(Bbr::mode_updated);
    assert(s.drain_left(now, in_flight, draw) == s.drain_left(now, in_flight, other));
}

/// A batch is modelled without a random number, and the full model does not draw
/// one afterwards.
pub(crate) proof fn lemma_batch_model_changes(
    s: Bbr,
    now: Instant,
    in_flight: u64,
    app_limited: bool,
    largest: Option<u64>,
)
    ensures
        s.batch_modelled(now, in_flight, app_limited, largest).random_number_generator
            == s.random_number_generator,
        s.full_model() ==> !s.batch_draws(now, in_flight, app_limited, largest),
{
    reveal(Bbr::batch_draws);
    reveal(Bbr::batch_modelled);
    let begins = s.round_begins(largest);
    let taken = s.batch_taken_in(now, in_flight, largest);
    let answered = taken.losses_answered(now, in_flight, app_limited, begins);
    lemma_taking_in_changes(s, now, in_flight, largest);
    lemma_answering_changes(taken, now, in_flight, app_limited, begins);
    lemma_modelling_changes(answered, now, s.batch_acked(), begins, in_flight, app_limited);
}

} // verus!
