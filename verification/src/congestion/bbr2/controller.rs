//! The controller as the connection sees it.

use vstd::prelude::*;

use std::collections::BTreeMap;
use std::sync::Arc;

use crate::arith::{larger, smaller};
use crate::congestion::{CongestionEvent, Controller, ControllerFactory, ControllerMetrics};
use crate::connection::RttEstimator;
use crate::time::{Duration, Instant};
use super::ack_aggregation::AckAggregationState;
use super::bw_estimation::BandwidthEstimation;
use super::config::{BbrConfig, BbrV2Config};
use super::frame::{
    lemma_ending_changes, lemma_every_draw_fits, lemma_mode_fits_by_step,
    lemma_mode_leads_to_windows, lemma_mode_step_is_whole, lemma_window_changes,
};
use super::history::Report;
use super::loss_state::LossState;
use super::model::{keeps_newest, CYCLE_LENGTH, DEFAULT_DRAIN_GAIN, DEFAULT_HIGH_GAIN};
use super::operations::calculate_min_window;
use super::random::seeded_generator;
use super::{Bbr, BbrVersion, Mode, ProbeBwPhase, RecoveryState};

verus! {

impl Clone for Bbr {
    fn clone(&self) -> (copy: Self)
        ensures
            copy == (Bbr { sent_packets: copy.sent_packets, ..*self }),
            copy.sent_packets@ == self.sent_packets@,
    {
        Bbr {
            config: self.config.clone(),
            version: self.version,
            current_mtu: self.current_mtu,
            max_bandwidth: self.max_bandwidth,
            acked_bytes: self.acked_bytes,
            mode: self.mode,
            loss_state: self.loss_state,
            recovery_state: self.recovery_state,
            recovery_window: self.recovery_window,
            is_at_full_bandwidth: self.is_at_full_bandwidth,
            pacing_gain: self.pacing_gain,
            high_gain: self.high_gain,
            drain_gain: self.drain_gain,
            cwnd_gain: self.cwnd_gain,
            high_cwnd_gain: self.high_cwnd_gain,
            last_cycle_start: self.last_cycle_start,
            current_cycle_offset: self.current_cycle_offset,
            init_cwnd: self.init_cwnd,
            min_cwnd: self.min_cwnd,
            prev_in_flight_count: self.prev_in_flight_count,
            tracked_in_flight: self.tracked_in_flight,
            exit_probe_rtt_at: self.exit_probe_rtt_at,
            probe_rtt_last_started_at: self.probe_rtt_last_started_at,
            min_rtt: self.min_rtt,
            exiting_quiescence: self.exiting_quiescence,
            pacing_rate: self.pacing_rate,
            max_acked_packet_number: self.max_acked_packet_number,
            max_sent_packet_number: self.max_sent_packet_number,
            end_recovery_at_packet_number: self.end_recovery_at_packet_number,
            cwnd: self.cwnd,
            current_round_trip_end_packet_number: self.current_round_trip_end_packet_number,
            round_count: self.round_count,
            bw_at_last_round: self.bw_at_last_round,
            round_wo_bw_gain: self.round_wo_bw_gain,
            ack_aggregation: self.ack_aggregation,
            sent_packets: self.sent_packets.clone(),
            delivered_bytes: self.delivered_bytes,
            delivered_time: self.delivered_time,
            inflight_hi: self.inflight_hi,
            inflight_lo: self.inflight_lo,
            bw_lo: self.bw_lo,
            inflight_latest: self.inflight_latest,
            bw_latest: self.bw_latest,
            probe_up_acked: self.probe_up_acked,
            probe_up_rounds: self.probe_up_rounds,
            probe_bw_phase: self.probe_bw_phase,
            bw_probe_samples: self.bw_probe_samples,
            random_number_generator: self.random_number_generator.clone(),
        }
    }
}

impl Bbr {
    /// Construct a state using the given `config` and current MTU
    pub fn new(config: Arc<BbrConfig>, current_mtu: u16) -> (bbr: Self)
        ensures
            bbr.is_fresh(*config, current_mtu, BbrVersion::V1),
    {
        Self::new_with_version(config, current_mtu, BbrVersion::V1)
    }

    /// Construct a state for the given algorithm.
    pub fn new_with_version(config: Arc<BbrConfig>, current_mtu: u16, version: BbrVersion) -> (bbr:
        Self)
        ensures
            bbr.is_fresh(*config, current_mtu, version),
    {
        let initial_window: u64 = config.initial_window;
        Bbr {
            config,
            version,
            current_mtu: current_mtu as u64,
            max_bandwidth: BandwidthEstimation::default(),
            acked_bytes: 0,
            mode: Mode::Startup,
            loss_state: LossState::default(),
            recovery_state: RecoveryState::NotInRecovery,
            recovery_window: 0,
            is_at_full_bandwidth: false,
            pacing_gain: DEFAULT_HIGH_GAIN,
            high_gain: DEFAULT_HIGH_GAIN,
            drain_gain: DEFAULT_DRAIN_GAIN,
            cwnd_gain: DEFAULT_HIGH_GAIN,
            high_cwnd_gain: DEFAULT_HIGH_GAIN,
            last_cycle_start: None,
            current_cycle_offset: 0,
            init_cwnd: initial_window,
            min_cwnd: calculate_min_window(current_mtu as u64),
            prev_in_flight_count: 0,
            tracked_in_flight: 0,
            exit_probe_rtt_at: None,
            probe_rtt_last_started_at: None,
            min_rtt: Duration::default(),
            exiting_quiescence: false,
            pacing_rate: 0,
            max_acked_packet_number: 0,
            max_sent_packet_number: 0,
            end_recovery_at_packet_number: 0,
            cwnd: initial_window,
            current_round_trip_end_packet_number: 0,
            round_count: 0,
            bw_at_last_round: 0,
            round_wo_bw_gain: 0,
            ack_aggregation: AckAggregationState::default(),
            sent_packets: BTreeMap::new(),
            delivered_bytes: 0,
            delivered_time: None,
            inflight_hi: u64::MAX,
            inflight_lo: u64::MAX,
            bw_lo: u64::MAX,
            inflight_latest: 0,
            bw_latest: 0,
            probe_up_acked: 0,
            probe_up_rounds: 0,
            probe_bw_phase: ProbeBwPhase::Cruise,
            bw_probe_samples: false,
            random_number_generator: seeded_generator(),
        }
    }
}

impl Bbr {
    /// Counts delivered bytes and brings the minimum RTT up to date.
    fn count_delivery(
        &mut self,
        now: Instant,
        sent: Instant,
        bytes: u64,
        app_limited: bool,
        rtt: &RttEstimator,
    )
        requires
            old(self).max_bandwidth.wf(old(self).round_count),
            old(self).max_bandwidth.total_acked + bytes <= u64::MAX,
            old(self).acked_bytes + bytes <= u64::MAX,
        ensures
            *final(self) == old(self).delivery_counted(now, bytes, app_limited, *rtt),
            final(self).max_bandwidth.wf(final(self).round_count),
    {
        self.tracked_in_flight = self.tracked_in_flight.saturating_sub(bytes);
        self.max_bandwidth.on_ack(now, sent, bytes, self.round_count, app_limited);
        self.acked_bytes = self.acked_bytes + bytes;
        if self.is_min_rtt_expired(now, app_limited) || self.min_rtt.exceeds(rtt.min()) {
            self.min_rtt = rtt.min();
        }
    }

    /// Counts a batch of acknowledgements and classifies its losses. Returns by how
    /// much the batch is ahead of the bandwidth, and whether it starts a round.
    #[verifier::spinoff_prover]
    fn take_in_batch(
        &mut self,
        now: Instant,
        in_flight: u64,
        app_limited: bool,
        largest_packet_num_acked: Option<u64>,
    ) -> (taken: (u64, bool))
        requires
            old(self).wf(),
            old(self).batch_fits(now, in_flight, largest_packet_num_acked),
        ensures
            taken.0 == old(self).batch_excess(now),
            taken.1 == old(self).round_begins(largest_packet_num_acked),
            *final(self) == old(self).batch_taken_in(now, in_flight, largest_packet_num_acked),
            final(self).current_cycle_offset == old(self).current_cycle_offset,
    {
        reveal(Bbr::batch_taken_in);
        reveal(Bbr::batch_fits);
        // Recovery owns the canonical count. Resynchronizing here prevents
        // accounting drift across non-ack-eliciting packets and path events.
        self.tracked_in_flight = in_flight;
        let bytes_acked: u64 = self.max_bandwidth.bytes_acked_this_window();
        let excess_acked: u64 = self.ack_aggregation.update_ack_aggregation_bytes(
            bytes_acked,
            now,
            self.round_count,
            self.max_bandwidth.get_estimate(),
        );
        self.max_bandwidth.end_acks(self.round_count, app_limited);
        if let Some(largest_acked_packet) = largest_packet_num_acked {
            self.max_acked_packet_number = largest_acked_packet;
        }
        let mut is_round_start = false;
        if bytes_acked > 0 {
            is_round_start = self.max_acked_packet_number
                > self.current_round_trip_end_packet_number;
            if is_round_start {
                self.current_round_trip_end_packet_number = self.max_sent_packet_number;
                self.round_count = self.round_count + 1;
            }
        }
        self.loss_state.record_delivered(bytes_acked);
        self.loss_state.classify_congestion_signal(
            self.version,
            self.current_mtu,
            self.round_count,
        );
        (excess_acked, is_round_start)
    }

    /// Answers to the losses of a batch.
    fn answer_losses(
        &mut self,
        now: Instant,
        in_flight: u64,
        app_limited: bool,
        is_round_start: bool,
    )
        requires
            old(self).losses_fit(is_round_start),
        ensures
            *final(self) == old(self).losses_answered(
                now,
                in_flight,
                app_limited,
                is_round_start,
            ),
            final(self).current_cycle_offset == old(self).current_cycle_offset,
    {
        reveal(Bbr::losses_answered);
        reveal(Bbr::losses_fit);
        // V2 experimental path: use separate long-term and short-term bounds.
        // Loss while probing bandwidth adapts `inflight_hi`; loss outside
        // probing only adapts the short-term bounds so random loss does not
        // permanently poison the path model.
        if self.version == BbrVersion::V2 && self.config.bbrv2_experimental_inflight_hi_shrink
            && self.loss_state.has_congestion_losses() && is_round_start {
            let signal_inflight: u64 = match self.loss_state.latest_loss_tx_in_flight() {
                Some(flight) => flight,
                None => in_flight,
            };
            self.bbrv2_handle_congestion_signal(now, signal_inflight, app_limited);
        }
        self.update_recovery_state(is_round_start);
    }

    /// Brings the model of the path up to date.
    fn update_model(
        &mut self,
        now: Instant,
        bytes_acked: u64,
        is_round_start: bool,
        in_flight: u64,
        app_limited: bool,
    )
        requires
            old(self).current_cycle_offset < CYCLE_LENGTH,
            old(self).model_fits(now, bytes_acked, is_round_start, in_flight, app_limited),
        ensures
            *final(self) == old(self).path_modelled(
                now,
                bytes_acked,
                is_round_start,
                in_flight,
                app_limited,
            ),
    {
        reveal(Bbr::model_fits);
        reveal(Bbr::path_modelled);
        if self.mode == Mode::ProbeBw {
            // BBRv2 raises long-term bounds from clean ProbeBW_UP samples before
            // phase transition checks can move the sender back to DOWN.
            self.bbrv2_probe_up_inflight_hi(bytes_acked, is_round_start, in_flight);
            self.bbrv2_update_probe_bw_phase(now, in_flight, is_round_start);
        }
        if is_round_start && !self.is_at_full_bandwidth {
            self.check_if_full_bw_reached(app_limited);
        }
    }

    /// Takes in a batch of acknowledgements, up to the choice of the mode. Returns the
    /// bytes that the batch acknowledges, by how much it is ahead of the bandwidth, and
    /// whether it starts a round.
    fn model_batch(
        &mut self,
        now: Instant,
        in_flight: u64,
        app_limited: bool,
        largest_packet_num_acked: Option<u64>,
    ) -> (taken: (u64, u64, bool))
        requires
            old(self).wf(),
            old(self).batch_fits(now, in_flight, largest_packet_num_acked),
            old(self).batch_model_fits(now, in_flight, app_limited, largest_packet_num_acked),
        ensures
            taken.0 == old(self).batch_acked(),
            taken.1 == old(self).batch_excess(now),
            taken.2 == old(self).round_begins(largest_packet_num_acked),
            *final(self) == old(self).batch_modelled(
                now,
                in_flight,
                app_limited,
                largest_packet_num_acked,
            ),
    {
        reveal(Bbr::batch_modelled);
        reveal(Bbr::batch_model_fits);
        let bytes_acked: u64 = self.max_bandwidth.bytes_acked_this_window();
        let (excess_acked, is_round_start) = self.take_in_batch(
            now,
            in_flight,
            app_limited,
            largest_packet_num_acked,
        );
        self.answer_losses(now, in_flight, app_limited, is_round_start);
        self.update_model(now, bytes_acked, is_round_start, in_flight, app_limited);
        (bytes_acked, excess_acked, is_round_start)
    }

    /// Brings the mode up to date.
    #[verifier::spinoff_prover]
    fn update_mode(
        &mut self,
        now: Instant,
        is_round_start: bool,
        in_flight: u64,
        app_limited: bool,
    )
        requires
            forall|draw: u8|
                draw < CYCLE_LENGTH - 1 ==> #[trigger] old(self).mode_fits(
                    now,
                    in_flight,
                    app_limited,
                    draw,
                ),
        ensures
            exists|draw: u8|
                draw < CYCLE_LENGTH - 1 && *final(self) == (#[trigger] old(self).mode_updated(
                    now,
                    is_round_start,
                    in_flight,
                    app_limited,
                    draw,
                )).with_generator(final(self).random_number_generator),
            !old(self).mode_draws(now, is_round_start, in_flight)
                ==> final(self).random_number_generator == old(self).random_number_generator,
    {
        proof {
            lemma_mode_fits_by_step(
                *self,
                self.random_number_generator,
                now,
                is_round_start,
                in_flight,
                app_limited,
                0,
            );
        }
        self.maybe_exit_startup_or_drain(now, in_flight);
        let ghost left = *self;
        let ghost first: u8 = choose|draw: u8|
            draw < CYCLE_LENGTH - 1 && left == (#[trigger] old(self).drain_left(
                now,
                in_flight,
                draw,
            )).with_generator(left.random_number_generator);
        proof {
            lemma_mode_fits_by_step(
                *old(self),
                left.random_number_generator,
                now,
                is_round_start,
                in_flight,
                app_limited,
                first,
            );
        }
        self.maybe_enter_or_exit_probe_rtt(now, is_round_start, in_flight, app_limited);
        proof {
            let second: u8 = choose|draw: u8|
                draw < CYCLE_LENGTH - 1 && *self == (#[trigger] left.probe_rtt_updated(
                    now,
                    is_round_start,
                    in_flight,
                    app_limited,
                    draw,
                )).with_generator(self.random_number_generator);
            let draw = lemma_mode_step_is_whole(
                *old(self),
                left,
                *self,
                now,
                is_round_start,
                in_flight,
                app_limited,
                first,
                second,
            );
            assert(draw < CYCLE_LENGTH - 1);
        }
    }

    /// Recalculates the pacing rate and the congestion windows.
    fn update_windows(&mut self, bytes_acked: u64, excess_acked: u64, in_flight: u64)
        requires
            old(self).windows_fit(bytes_acked, excess_acked, in_flight),
        ensures
            *final(self) == old(self).windows_updated(bytes_acked, excess_acked, in_flight),
    {
        reveal(Bbr::windows_fit);
        reveal(Bbr::windows_updated);
        self.calculate_pacing_rate();
        self.calculate_cwnd(bytes_acked, excess_acked);
        self.calculate_recovery_window(
            bytes_acked,
            self.loss_state.congestion_lost_bytes(),
            in_flight,
        );
    }

    /// Recalculates the windows at the end of a batch, and makes ready for the next.
    fn close_batch(
        &mut self,
        bytes_acked: u64,
        excess_acked: u64,
        in_flight: u64,
        is_round_start: bool,
        largest_packet_num_acked: Option<u64>,
    )
        requires
            old(self).windows_fit(bytes_acked, excess_acked, in_flight),
        ensures
            *final(self) == old(self).windows_updated(
                bytes_acked,
                excess_acked,
                in_flight,
            ).batch_ended(in_flight, is_round_start, bytes_acked, largest_packet_num_acked),
            final(self).random_number_generator == old(self).random_number_generator,
    {
        self.update_windows(bytes_acked, excess_acked, in_flight);
        proof {
            lemma_window_changes(*old(self), bytes_acked, excess_acked, in_flight);
            lemma_ending_changes(
                *self,
                in_flight,
                is_round_start,
                bytes_acked,
                largest_packet_num_acked,
            );
        }
        self.finish_batch(in_flight, is_round_start, bytes_acked, largest_packet_num_acked);
    }

    /// Makes ready for the next batch.
    fn finish_batch(
        &mut self,
        in_flight: u64,
        is_round_start: bool,
        bytes_acked: u64,
        largest_packet_num_acked: Option<u64>,
    )
        ensures
            *final(self) == old(self).batch_ended(
                in_flight,
                is_round_start,
                bytes_acked,
                largest_packet_num_acked,
            ),
    {
        reveal(Bbr::batch_ended);
        self.prev_in_flight_count = in_flight;
        self.loss_state.reset_batch();
        if is_round_start {
            self.loss_state.reset_round();
            if self.version == BbrVersion::V2 && self.config.bbrv2_experimental_inflight_hi_shrink {
                if let Some(largest_acked_packet) = largest_packet_num_acked {
                    self.bbrv2_advance_latest_delivery_signals(largest_acked_packet, bytes_acked);
                }
            }
        }
    }
}

impl Controller for Bbr {
    open spec fn sent_fits(&self, bytes: u64) -> bool {
        self.max_bandwidth.total_sent + bytes <= u64::MAX
    }

    open spec fn packet_sent_fits(&self, bytes: u16) -> bool {
        self.full_model() ==> self.bdp_fits()
    }

    open spec fn ack_fits(&self, bytes: u64) -> bool {
        &&& self.max_bandwidth.wf(self.round_count)
        &&& self.max_bandwidth.total_acked + bytes <= u64::MAX
        &&& self.acked_bytes + bytes <= u64::MAX
    }

    open spec fn end_acks_fits(
        &self,
        now: Instant,
        in_flight: u64,
        app_limited: bool,
        largest_packet_num_acked: Option<u64>,
    ) -> bool {
        &&& self.wf()
        &&& self.batch_fits(now, in_flight, largest_packet_num_acked)
        &&& self.batch_model_fits(now, in_flight, app_limited, largest_packet_num_acked)
        &&& forall|draw: u8|
            draw < CYCLE_LENGTH - 1 ==> #[trigger] self.batch_window_fits(
                now,
                in_flight,
                app_limited,
                largest_packet_num_acked,
                draw,
            )
    }

    open spec fn mtu_update_fits(&self, new_mtu: u16) -> bool {
        self.version == BbrVersion::V2 ==> self.bdp_fits()
    }

    open spec fn window_fits(&self) -> bool {
        self.mode == Mode::ProbeRtt ==> self.bdp_fits()
    }

    open spec fn window_bytes(&self) -> u64 {
        self.bounded_inflight(self.base_window())
    }

    open spec fn initial_window_bytes(&self) -> u64 {
        self.config.initial_window
    }

    fn on_sent(&mut self, now: Instant, bytes: u64, last_packet_number: u64)
        ensures
            *final(self) == old(self).sent(now, bytes, last_packet_number),
            old(self).follows(Report::Sent { now, bytes, last_packet_number }, *final(self)),
    {
        self.max_sent_packet_number = last_packet_number;
        self.max_bandwidth.on_sent(now, bytes);
    }

    fn on_packet_sent(&mut self, now: Instant, bytes: u16, packet_number: u64)
        ensures
            *final(self) == (Bbr {
                sent_packets: final(self).sent_packets,
                ..old(self).packet_counted(bytes, packet_number)
            }),
            !old(self).full_model() ==> final(self).sent_packets == old(self).sent_packets,
            old(self).full_model() ==> keeps_newest(
                old(self).sent_packets@.insert(
                    packet_number,
                    old(self).packet_sent(
                        old(self).packet_counted(bytes, packet_number).tracked_in_flight,
                        now,
                    ),
                ),
                final(self).sent_packets@,
                old(self).packet_limit() as nat,
            ),
            old(self).follows(
                Report::PacketSent { now, packet_bytes: bytes, packet_number },
                *final(self),
            ),
    {
        self.tracked_in_flight = self.tracked_in_flight.saturating_add(bytes as u64);
        self.max_sent_packet_number = larger(self.max_sent_packet_number, packet_number);
        if self.version == BbrVersion::V2 && self.config.bbrv2_experimental_inflight_hi_shrink {
            self.remember_sent_packet(packet_number, self.tracked_in_flight, now);
        }
    }

    #[verifier::spinoff_prover]
    fn on_ack(
        &mut self,
        now: Instant,
        sent: Instant,
        bytes: u64,
        packet_number: u64,
        app_limited: bool,
        rtt: &RttEstimator,
    )
        ensures
            *final(self) == (Bbr {
                sent_packets: final(self).sent_packets,
                ..old(self).delivered(now, bytes, packet_number, app_limited, *rtt)
            }),
            !old(self).full_model() ==> final(self).sent_packets == old(self).sent_packets,
            old(self).full_model() ==> final(self).sent_packets@ == old(self).sent_packets@.remove(
                packet_number,
            ),
            old(self).follows(
                Report::Acked { now, bytes, packet_number, app_limited, rtt: *rtt },
                *final(self),
            ),
    {
        let delivered_after_ack: u64 = self.delivered_bytes.saturating_add(bytes);
        self.count_delivery(now, sent, bytes, app_limited, rtt);
        if self.version == BbrVersion::V2 && self.config.bbrv2_experimental_inflight_hi_shrink {
            self.bbrv2_update_latest_delivery_signals(
                now,
                packet_number,
                delivered_after_ack,
                app_limited,
            );
            self.prune_sent_packet_model(packet_number);
        }
        if bytes > 0 {
            self.delivered_bytes = delivered_after_ack;
            self.delivered_time = Some(now);
        }
    }

    #[verifier::spinoff_prover]
    fn on_end_acks(
        &mut self,
        now: Instant,
        in_flight: u64,
        app_limited: bool,
        largest_packet_num_acked: Option<u64>,
    )
        ensures
            exists|draw: u8|
                draw < CYCLE_LENGTH - 1 && *final(self) == (#[trigger] old(self).acks_ended(
                    now,
                    in_flight,
                    app_limited,
                    largest_packet_num_acked,
                    draw,
                )).with_generator(final(self).random_number_generator),
            old(self).full_model() || !old(self).batch_draws(
                now,
                in_flight,
                app_limited,
                largest_packet_num_acked,
            ) ==> final(self).random_number_generator == old(self).random_number_generator,
            old(self).follows(
                Report::AcksEnded {
                    now,
                    in_flight,
                    app_limited,
                    largest: largest_packet_num_acked,
                },
                *final(self),
            ),
    {
        let (bytes_acked, excess_acked, is_round_start) = self.model_batch(
            now,
            in_flight,
            app_limited,
            largest_packet_num_acked,
        );
        let ghost modelled = *self;
        proof {
            lemma_every_draw_fits(*old(self), now, in_flight, app_limited, largest_packet_num_acked);
        }
        self.update_mode(now, is_round_start, in_flight, app_limited);
        let ghost moded = *self;
        let ghost draw: u8 = choose|draw: u8|
            draw < CYCLE_LENGTH - 1 && moded == (#[trigger] modelled.mode_updated(
                now,
                is_round_start,
                in_flight,
                app_limited,
                draw,
            )).with_generator(moded.random_number_generator);
        proof {
            lemma_mode_leads_to_windows(
                *old(self),
                moded.random_number_generator,
                now,
                in_flight,
                app_limited,
                largest_packet_num_acked,
                draw,
            );
        }
        self.close_batch(
            bytes_acked,
            excess_acked,
            in_flight,
            is_round_start,
            largest_packet_num_acked,
        );
        assert(*self == old(self).acks_ended(
            now,
            in_flight,
            app_limited,
            largest_packet_num_acked,
            draw,
        ).with_generator(self.random_number_generator));
    }

    fn on_congestion_event(
        &mut self,
        _now: Instant,
        _sent: Instant,
        event: CongestionEvent,
        is_persistent_congestion: bool,
    )
        ensures
            *final(self) == (Bbr {
                sent_packets: final(self).sent_packets,
                ..old(self).congestion_noted(event, is_persistent_congestion)
            }),
            match event {
                CongestionEvent::Loss { largest_lost_packet_number: Some(number), .. } => {
                    final(self).sent_packets@ == old(self).sent_packets@.remove(number)
                },
                _ => final(self).sent_packets == old(self).sent_packets,
            },
            old(self).follows(
                Report::Congested { event, persistent: is_persistent_congestion },
                *final(self),
            ),
    {
        match event {
            CongestionEvent::Ecn { ce_count, .. } => {
                self.loss_state.record_ecn(ce_count, is_persistent_congestion);
            },
            CongestionEvent::Loss { largest_lost_packet_number, lost_bytes } => {
                let lost_model = match largest_lost_packet_number {
                    Some(packet_number) => self.sent_packet_model(packet_number),
                    None => None,
                };
                match lost_model {
                    Some(packet) => {
                        self.loss_state.record_loss(
                            lost_bytes,
                            is_persistent_congestion,
                            Some(packet.round_count),
                            Some(packet.tx_in_flight),
                        );
                    },
                    None => {
                        self.loss_state.record_loss(
                            lost_bytes,
                            is_persistent_congestion,
                            None,
                            None,
                        );
                    },
                }
                if let Some(packet_number) = largest_lost_packet_number {
                    self.prune_sent_packet_model(packet_number);
                }
            },
        }
    }

    fn on_packet_lost(&mut self, lost_bytes: u16, _packet_number: u64, _now: Instant)
        ensures
            *final(self) == (Bbr {
                tracked_in_flight: old(self).tracked_in_flight.saturating_sub(lost_bytes as u64),
                ..*old(self)
            }),
            old(self).follows(Report::PacketLost { packet_bytes: lost_bytes }, *final(self)),
    {
        self.tracked_in_flight = self.tracked_in_flight.saturating_sub(lost_bytes as u64);
    }

    fn on_mtu_update(&mut self, new_mtu: u16)
        ensures
            *final(self) == old(self).mtu_updated(new_mtu),
            old(self).follows(Report::MtuChanged { mtu: new_mtu }, *final(self)),
    {
        self.current_mtu = new_mtu as u64;
        self.min_cwnd = calculate_min_window(self.current_mtu);
        self.init_cwnd = larger(self.config.initial_window, self.min_cwnd);
        self.cwnd = larger(self.cwnd, self.min_cwnd);
        if self.version == BbrVersion::V2 {
            self.inflight_hi = larger(self.inflight_hi, self.bbrv2_inflight_hi_floor());
            self.inflight_lo = larger(self.inflight_lo, self.min_cwnd);
        }
    }

    fn window(&self) -> (window: u64) {
        let base: u64 = if self.mode == Mode::ProbeRtt {
            self.get_probe_rtt_cwnd()
        } else if self.recovery_state.in_recovery() && self.mode != Mode::Startup {
            smaller(self.cwnd, self.recovery_window)
        } else {
            self.cwnd
        };
        // V1 keeps `inflight_hi == u64::MAX` permanently, so the cap is a
        // no-op there. V2 may have reduced `inflight_hi` in response to a
        // round-level congestion signal; apply it as a ceiling after the
        // mode-specific base is chosen.
        match self.version {
            BbrVersion::V1 => base,
            BbrVersion::V2 => self.bbrv2_bound_inflight_for_model(base),
        }
    }

    fn metrics(&self) -> (metrics: ControllerMetrics)
        ensures
            metrics == (ControllerMetrics {
                congestion_window: self.window_bytes(),
                ssthresh: None,
                pacing_rate: Some(self.pacing_rate),
                send_quantum: None,
            }),
    {
        ControllerMetrics {
            congestion_window: self.window(),
            ssthresh: None,
            pacing_rate: Some(self.pacing_rate),
            send_quantum: None,
        }
    }

    fn clone_box(&self) -> (copy: Box<Self>)
        ensures
            *copy == (Bbr { sent_packets: copy.sent_packets, ..*self }),
            copy.sent_packets@ == self.sent_packets@,
    {
        Box::new(self.clone())
    }

    fn initial_window(&self) -> (window: u64) {
        self.config.initial_window
    }

    fn into_any(self: Box<Self>) -> (controller: Box<Self>) {
        self
    }
}

impl ControllerFactory for BbrConfig {
    type Built = Bbr;

    open spec fn builds(&self, current_mtu: u16, controller: Bbr) -> bool {
        controller.is_fresh(*self, current_mtu, BbrVersion::V1)
    }

    fn build(self: Arc<Self>, _now: Instant, current_mtu: u16) -> (controller: Box<Bbr>) {
        Box::new(Bbr::new(self, current_mtu))
    }
}

impl ControllerFactory for BbrV2Config {
    type Built = Bbr;

    open spec fn builds(&self, current_mtu: u16, controller: Bbr) -> bool {
        controller.is_fresh(self.inner, current_mtu, BbrVersion::V2)
    }

    fn build(self: Arc<Self>, _now: Instant, current_mtu: u16) -> (controller: Box<Bbr>) {
        Box::new(Bbr::new_with_version(Arc::new(self.inner), current_mtu, BbrVersion::V2))
    }
}

} // verus!
