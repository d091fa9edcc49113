//! The steps that the controller is made of.

use vstd::prelude::*;

use vstd::arithmetic::power2::{lemma2_to64, lemma_pow2_pos, lemma_pow2_strictly_increases};
use vstd::bits::lemma_u64_shl_is_mul;

use std::collections::BTreeMap;

use crate::arith::{larger, saturating_product, smaller};
use crate::gain::{is_below, scale, scale_millionth, UNIT_GAIN};
use crate::time::{Duration, Instant};
use super::bw_estimation::BandwidthEstimation;
use super::model::{
    cycle_gain, keeps_newest, min_window, BBR2_BETA_DENOMINATOR, BBR2_BETA_NUMERATOR,
    BBR2_PROBE_DOWN_PACING_GAIN, BBR2_PROBE_UP_CWND_GAIN, BBR2_PROBE_UP_PACING_GAIN,
    BBR_SENT_PACKET_MODEL_HEADROOM_PACKETS, BBR_SENT_PACKET_MODEL_MAX_PACKETS,
    BBR_SENT_PACKET_MODEL_MIN_PACKETS, CYCLE_DRAIN_GAIN, CYCLE_LENGTH, CYCLE_PROBE_GAIN,
    DERIVED_HIGH_CWND_GAIN, MIN_RTT_VALID_NANOS, MODERATE_PROBE_RTT_MULTIPLIER, PROBE_RTT_NANOS,
    ROUND_TRIPS_WITHOUT_GROWTH_BEFORE_EXITING_STARTUP, STARTUP_GROWTH_TARGET,
};
use super::random::draw_below;
use super::{Bbr, BbrSentPacket, BbrVersion, Mode, ProbeBwPhase, RecoveryState};

verus! {

/// The smallest window: four packets.
pub fn calculate_min_window(current_mtu: u64) -> (window: u64)
    requires
        4 * current_mtu <= u64::MAX,
    ensures
        window == min_window(current_mtu),
{
    4 * current_mtu
}

/// The pacing gain of a step of the gain cycle.
fn pacing_gain_at(offset: u8) -> (gain: u32)
    requires
        offset < CYCLE_LENGTH,
    ensures
        gain == cycle_gain(offset),
{
    match offset {
        0 => CYCLE_PROBE_GAIN,
        1 => CYCLE_DRAIN_GAIN,
        _ => UNIT_GAIN,
    }
}

/// Takes the entry with the lowest number out of the store, with
/// `BTreeMap::pop_first`: there is none exactly where the store is empty, and what
/// else the store holds stays.
#[verifier::external_body]
fn pop_first_packet(packets: &mut BTreeMap<u64, BbrSentPacket>) -> (popped: Option<
    (u64, BbrSentPacket),
>)
    ensures
        match popped {
            Some((number, packet)) => {
                &&& old(packets)@.contains_key(number)
                &&& old(packets)@[number] == packet
                &&& forall|other: u64| old(packets)@.contains_key(other) ==> number <= other
                &&& final(packets)@ == old(packets)@.remove(number)
            },
            None => {
                &&& old(packets)@ == Map::<u64, BbrSentPacket>::empty()
                &&& final(packets)@ == old(packets)@
            },
        },
{
    packets.pop_first()
}

impl Bbr {
    /// BBRv2 only: shrink `inflight_hi` in response to a round-level
    /// congestion signal. V1 never calls this (its V1 `has_congestion_losses`
    /// result already reduces `recovery_window` directly).
    ///
    /// `signal_inflight` should be the flight size recorded when the triggering
    /// packet was sent. Following BBRv2's upper-bound adaptation, preserve that
    /// observed flight and use 70% of the model target only as a lower bound.
    pub fn shrink_inflight_hi_on_signal(&mut self, signal_inflight: u64)
        requires
            old(self).version == BbrVersion::V2,
            old(self).bdp_fits(),
        ensures
            *final(self) == old(self).shrunk(signal_inflight),
    {
        let candidate: u64 = larger(signal_inflight, self.bbrv2_inflight_hi_loss_floor());
        // Never grow the ceiling in the loss handler; ProbeBW_UP grows it back
        // only when the capped inflight level is later utilized without another
        // congestion signal.
        self.inflight_hi = smaller(self.inflight_hi, candidate);
        self.probe_up_acked = 0;
        self.probe_up_rounds = 0;
    }

    /// The floor of the inflight bounds: the flight that the model asks for.
    pub fn bbrv2_inflight_hi_floor(&self) -> (floor: u64)
        requires
            self.bdp_fits(),
        ensures
            floor == self.inflight_floor(),
    {
        // The long-term inflight bound is model-based, not a starvation
        // lever. Do not let it fall below the current BDP estimate.
        larger(self.get_target_cwnd(UNIT_GAIN), self.min_cwnd)
    }

    /// The lowest value to which a loss takes the long-term inflight bound.
    pub fn bbrv2_inflight_hi_loss_floor(&self) -> (floor: u64)
        requires
            self.bdp_fits(),
        ensures
            floor == self.inflight_loss_floor(),
    {
        let share: u64 = saturating_product(self.get_target_cwnd(UNIT_GAIN), BBR2_BETA_NUMERATOR)
            / BBR2_BETA_DENOMINATOR;
        larger(share, self.min_cwnd)
    }

    /// The bandwidth to work with.
    pub fn bbrv2_effective_bandwidth(&self) -> (bw: u64)
        ensures
            bw == self.effective_bandwidth(),
    {
        let mut bw: u64 = self.max_bandwidth.get_estimate();
        if self.version == BbrVersion::V2 {
            if self.bw_lo != u64::MAX && self.bbrv2_uses_short_term_model() {
                bw = smaller(bw, self.bw_lo);
            }
        }
        bw
    }

    /// Whether BBRv2 is looking for more bandwidth.
    pub fn bbrv2_is_probing_bandwidth(&self) -> (probing: bool)
        ensures
            probing == self.is_probing_bandwidth(),
    {
        self.version == BbrVersion::V2 && (self.mode == Mode::Startup || (self.mode == Mode::ProbeBw
            && (self.probe_bw_phase == ProbeBwPhase::Refill || self.probe_bw_phase
            == ProbeBwPhase::Up)))
    }

    /// Whether the short-term bounds apply.
    pub fn bbrv2_uses_short_term_model(&self) -> (uses: bool)
        ensures
            uses == self.uses_short_term_model(),
    {
        !(self.mode == Mode::ProbeBw && (self.probe_bw_phase == ProbeBwPhase::Refill
            || self.probe_bw_phase == ProbeBwPhase::Up))
    }

    /// Holds the flight `base` to the bounds of BBRv2.
    pub fn bbrv2_bound_inflight_for_model(&self, base: u64) -> (bounded: u64)
        ensures
            bounded == self.bounded_inflight(base),
    {
        if self.version != BbrVersion::V2 {
            return base;
        }
        let mut cap: u64 = self.inflight_hi;
        if (self.mode == Mode::ProbeBw || self.mode == Mode::ProbeRtt) && self.probe_bw_phase
            == ProbeBwPhase::Cruise && cap != u64::MAX {
            cap = saturating_product(cap, 85) / 100;
        }
        if self.bbrv2_uses_short_term_model() {
            cap = smaller(cap, self.inflight_lo);
        }
        let capped: u64 = smaller(base, cap);
        if cap == u64::MAX {
            capped
        } else {
            larger(capped, smaller(base, self.min_cwnd))
        }
    }

    /// Lifts the short-term bounds.
    pub fn bbrv2_reset_short_term_model(&mut self)
        ensures
            *final(self) == old(self).short_term_reset(),
    {
        self.inflight_lo = u64::MAX;
        self.bw_lo = u64::MAX;
    }

    /// The number of packets to remember.
    pub fn sent_packet_model_limit(&self) -> (limit: usize)
        requires
            self.bdp_fits(),
        ensures
            limit == self.packet_limit(),
    {
        let target_bytes: u64 = larger(
            larger(self.cwnd, self.prev_in_flight_count),
            self.get_target_cwnd(BBR2_PROBE_UP_CWND_GAIN),
        );
        let target_packets: u64 = (target_bytes / larger(self.current_mtu, 1)).saturating_add(
            BBR_SENT_PACKET_MODEL_HEADROOM_PACKETS,
        );
        smaller(
            larger(target_packets, BBR_SENT_PACKET_MODEL_MIN_PACKETS),
            BBR_SENT_PACKET_MODEL_MAX_PACKETS,
        ) as usize
    }

    /// Remembers a packet, and forgets the oldest ones beyond the limit.
    pub fn remember_sent_packet(&mut self, packet_number: u64, tx_in_flight: u64, now: Instant)
        requires
            old(self).bdp_fits(),
        ensures
            *final(self) == (Bbr { sent_packets: final(self).sent_packets, ..*old(self) }),
            keeps_newest(
                old(self).sent_packets@.insert(
                    packet_number,
                    old(self).packet_sent(tx_in_flight, now),
                ),
                final(self).sent_packets@,
                old(self).packet_limit() as nat,
            ),
    {
        let packet = BbrSentPacket {
            round_count: self.round_count,
            tx_in_flight,
            sent_time: now,
            delivered_bytes_at_send: self.delivered_bytes,
            delivered_time_at_send: match self.delivered_time {
                Some(time) => time,
                None => now,
            },
        };
        self.sent_packets.insert(packet_number, packet);
        let ghost all = self.sent_packets@;
        let limit: usize = self.sent_packet_model_limit();
        while self.sent_packets.len() > limit
            invariant
                *self == (Bbr { sent_packets: self.sent_packets, ..*old(self) }),
                limit == old(self).packet_limit(),
                self.sent_packets@.submap_of(all),
                all.dom().finite(),
                self.sent_packets@.dom().finite(),
                self.sent_packets@.len() >= limit || self.sent_packets@.len() == all.len(),
                self.sent_packets@.len() <= all.len(),
                forall|gone: u64, held: u64|
                    #![trigger self.sent_packets@.contains_key(gone), self.sent_packets@.contains_key(held)]
                    all.contains_key(gone) && !self.sent_packets@.contains_key(gone)
                        && self.sent_packets@.contains_key(held) ==> gone < held,
            decreases self.sent_packets@.len(),
        {
            let ghost before = self.sent_packets@;
            let popped = pop_first_packet(&mut self.sent_packets);
            proof {
                assert(before.len() > 0);
                assert(before.dom().len() > 0);
                if popped is None {
                    assert(before.dom() =~= Set::<u64>::empty());
                }
            }
        }
    }

    /// What is remembered of the packet with the given number.
    pub fn sent_packet_model(&self, packet_number: u64) -> (packet: Option<BbrSentPacket>)
        ensures
            packet == self.packet(packet_number),
    {
        match self.sent_packets.get(&packet_number) {
            Some(packet) => Some(*packet),
            None => None,
        }
    }

    /// Forgets the packet with the given number.
    pub fn prune_sent_packet_model(&mut self, packet_number: u64)
        ensures
            *final(self) == (Bbr { sent_packets: final(self).sent_packets, ..*old(self) }),
            final(self).sent_packets@ == old(self).sent_packets@.remove(packet_number),
    {
        self.sent_packets.remove(&packet_number);
    }

    /// The flight that `gain` times the bandwidth-delay product allows.
    pub fn get_target_cwnd(&self, gain: u32) -> (target: u64)
        requires
            self.bdp_fits(),
        ensures
            target == self.target_cwnd(gain),
    {
        let bw: u64 = self.bbrv2_effective_bandwidth();
        let bdp: u64 = self.min_rtt.as_micros() * bw;
        let cwnd: u64 = scale_millionth(gain, bdp);
        // BDP estimate will be zero if no bandwidth samples are available yet.
        if cwnd == 0 {
            return self.init_cwnd;
        }
        larger(cwnd, self.min_cwnd)
    }

    /// The rate at which the packet and what was acknowledged since it was sent
    /// came through.
    pub fn bbrv2_delivery_rate_sample(
        &self,
        packet: BbrSentPacket,
        now: Instant,
        delivered_after_ack: u64,
    ) -> (rate: Option<u64>)
        ensures
            rate == Self::delivery_rate(packet, now, delivered_after_ack),
    {
        let delivered: u64 = delivered_after_ack.saturating_sub(packet.delivered_bytes_at_send);
        let ack_elapsed = now.since(packet.delivered_time_at_send);
        let send_elapsed = now.since(packet.sent_time);
        let interval = if ack_elapsed.exceeds(send_elapsed) {
            ack_elapsed
        } else {
            send_elapsed
        };
        BandwidthEstimation::bw_from_delta(delivered, interval)
    }

    /// Takes in the delivery signals of an acknowledged packet.
    pub fn bbrv2_update_latest_delivery_signals(
        &mut self,
        now: Instant,
        packet_number: u64,
        delivered_after_ack: u64,
        app_limited: bool,
    )
        requires
            old(self).max_bandwidth.max_filter.taken_by(old(self).round_count),
        ensures
            *final(self) == old(self).signals_updated(
                now,
                packet_number,
                delivered_after_ack,
                app_limited,
            ),
    {
        let packet_model = self.sent_packet_model(packet_number);
        let inflight: u64 = match packet_model {
            Some(packet) => packet.tx_in_flight,
            None => delivered_after_ack,
        };
        let rate: Option<u64> = match packet_model {
            Some(packet) => self.bbrv2_delivery_rate_sample(packet, now, delivered_after_ack),
            None => None,
        };
        let sample: u64 = match rate {
            Some(rate) => rate,
            None => self.max_bandwidth.get_estimate(),
        };
        self.inflight_latest = larger(self.inflight_latest, inflight);
        self.bw_latest = larger(self.bw_latest, sample);
        self.max_bandwidth.update_max_bandwidth(self.round_count, sample, app_limited);
    }

    /// Starts the delivery signals of a new round.
    pub fn bbrv2_advance_latest_delivery_signals(&mut self, packet_number: u64, delivered: u64)
        ensures
            *final(self) == old(self).signals_advanced(packet_number, delivered),
    {
        self.inflight_latest = match self.sent_packet_model(packet_number) {
            Some(packet) => packet.tx_in_flight,
            None => delivered,
        };
        self.bw_latest = self.max_bandwidth.get_estimate();
    }

    /// Reduces the short-term bounds after a loss outside of probing.
    pub fn bbrv2_reduce_short_term_bounds(&mut self, signal_inflight: u64, app_limited: bool)
        requires
            old(self).bdp_fits(),
        ensures
            *final(self) == old(self).short_term_reduced(signal_inflight, app_limited),
    {
        let floor: u64 = self.bbrv2_inflight_hi_floor();
        if self.inflight_lo == u64::MAX {
            self.inflight_lo = self.cwnd;
        }
        let reduced_inflight: u64 = saturating_product(self.inflight_lo, 7) / 10;
        self.inflight_lo = larger(
            larger(larger(self.inflight_latest, signal_inflight), reduced_inflight),
            floor,
        );

        if !app_limited {
            if self.bw_lo == u64::MAX {
                self.bw_lo = self.max_bandwidth.get_estimate();
            }
            if self.bw_lo > 0 {
                let reduced_bw: u64 = saturating_product(self.bw_lo, 7) / 10;
                self.bw_lo = larger(larger(self.bw_latest, reduced_bw), 1);
            }
        }
    }

    /// Starts ProbeBW_DOWN.
    pub fn bbrv2_start_probe_bw_down(&mut self, now: Instant)
        ensures
            *final(self) == old(self).probing_down(now),
    {
        self.probe_bw_phase = ProbeBwPhase::Down;
        self.pacing_gain = BBR2_PROBE_DOWN_PACING_GAIN;
        self.cwnd_gain = DERIVED_HIGH_CWND_GAIN;
        self.last_cycle_start = Some(now);
        self.probe_up_acked = 0;
        self.bw_probe_samples = false;
    }

    /// Starts ProbeBW_CRUISE.
    pub fn bbrv2_start_probe_bw_cruise(&mut self, now: Instant)
        ensures
            *final(self) == old(self).cruising(now),
    {
        self.probe_bw_phase = ProbeBwPhase::Cruise;
        self.pacing_gain = UNIT_GAIN;
        self.cwnd_gain = DERIVED_HIGH_CWND_GAIN;
        self.last_cycle_start = Some(now);
    }

    /// Starts ProbeBW_REFILL.
    pub fn bbrv2_start_probe_bw_refill(&mut self, now: Instant)
        ensures
            *final(self) == old(self).refilling(now),
    {
        self.bbrv2_reset_short_term_model();
        self.probe_bw_phase = ProbeBwPhase::Refill;
        self.pacing_gain = UNIT_GAIN;
        self.cwnd_gain = DERIVED_HIGH_CWND_GAIN;
        self.last_cycle_start = Some(now);
        self.probe_up_acked = 0;
        self.bw_probe_samples = true;
    }

    /// Starts ProbeBW_UP.
    pub fn bbrv2_start_probe_bw_up(&mut self, now: Instant)
        ensures
            *final(self) == old(self).probing_up(now),
    {
        self.bbrv2_reset_short_term_model();
        self.probe_bw_phase = ProbeBwPhase::Up;
        self.pacing_gain = BBR2_PROBE_UP_PACING_GAIN;
        self.cwnd_gain = BBR2_PROBE_UP_CWND_GAIN;
        self.last_cycle_start = Some(now);
        self.probe_up_acked = 0;
        self.bw_probe_samples = true;
    }

    /// Moves the bandwidth probe on where its phase is over.
    pub fn bbrv2_update_probe_bw_phase(
        &mut self,
        now: Instant,
        in_flight: u64,
        is_round_start: bool,
    )
        requires
            old(self).phase_update_fits(now, in_flight),
            old(self).current_cycle_offset < CYCLE_LENGTH,
        ensures
            *final(self) == old(self).phase_updated(now, in_flight, is_round_start),
    {
        if self.version != BbrVersion::V2 || !self.config.bbrv2_experimental_inflight_hi_shrink {
            self.update_gain_cycle_phase(now, in_flight);
            return;
        }
        match self.probe_bw_phase {
            ProbeBwPhase::Down => {
                let headroom: u64 = if self.inflight_hi == u64::MAX {
                    self.get_target_cwnd(UNIT_GAIN)
                } else {
                    saturating_product(self.inflight_hi, 85) / 100
                };
                if in_flight <= smaller(self.get_target_cwnd(UNIT_GAIN), headroom) {
                    self.bbrv2_start_probe_bw_cruise(now);
                }
            },
            ProbeBwPhase::Cruise => {
                let outlasted = match self.last_cycle_start {
                    Some(start) => now.since(start).exceeds(self.min_rtt.octuple()),
                    None => false,
                };
                if outlasted {
                    self.bbrv2_start_probe_bw_refill(now);
                }
            },
            ProbeBwPhase::Refill => {
                if is_round_start {
                    self.bbrv2_start_probe_bw_up(now);
                }
            },
            ProbeBwPhase::Up => {
                let target: u64 = self.get_target_cwnd(BBR2_PROBE_UP_PACING_GAIN);
                let min_rtt_elapsed = match self.last_cycle_start {
                    Some(start) => now.since(start).exceeds(self.min_rtt),
                    None => false,
                };
                if min_rtt_elapsed && in_flight > target {
                    self.bbrv2_start_probe_bw_down(now);
                }
            },
        }
    }

    /// Responds to a congestion signal.
    pub fn bbrv2_handle_congestion_signal(
        &mut self,
        now: Instant,
        in_flight: u64,
        app_limited: bool,
    )
        requires
            old(self).bdp_fits(),
        ensures
            *final(self) == old(self).signal_handled(now, in_flight, app_limited),
    {
        self.inflight_latest = in_flight;
        self.bw_latest = self.max_bandwidth.get_estimate();

        if self.bbrv2_is_probing_bandwidth() && self.bw_probe_samples {
            self.shrink_inflight_hi_on_signal(in_flight);
            self.bw_probe_samples = false;
            if self.mode == Mode::ProbeBw && self.probe_bw_phase == ProbeBwPhase::Up {
                self.bbrv2_start_probe_bw_down(now);
            }
        } else {
            self.bbrv2_reduce_short_term_bounds(in_flight, app_limited);
        }
    }

    /// Raises the long-term bound while an upward probe fills it.
    pub fn bbrv2_probe_up_inflight_hi(
        &mut self,
        bytes_acked: u64,
        is_round_start: bool,
        in_flight: u64,
    )
        requires
            old(self).probe_up_fits(bytes_acked, is_round_start, in_flight),
        ensures
            *final(self) == old(self).probed_up(bytes_acked, is_round_start, in_flight),
    {
        if self.version != BbrVersion::V2 || !self.config.bbrv2_experimental_inflight_hi_shrink
            || self.mode != Mode::ProbeBw || self.pacing_gain <= UNIT_GAIN || self.inflight_hi
            == u64::MAX || self.loss_state.has_congestion_losses() {
            return;
        }
        if is_round_start {
            self.probe_up_rounds = self.probe_up_rounds.saturating_add(1);
        }
        let utilized = in_flight.saturating_add(bytes_acked) >= self.inflight_hi || self.cwnd
            >= self.inflight_hi;
        if !utilized {
            self.probe_up_acked = 0;
            return;
        }
        let halvings: u64 = smaller(self.probe_up_rounds.saturating_sub(1), 30);
        proof {
            lemma_pow2_pos(halvings as nat);
            lemma2_to64();
            if halvings < 30 {
                lemma_pow2_strictly_increases(halvings as nat, 30);
            }
            lemma_u64_shl_is_mul(1, halvings);
        }
        let growth_packets: u64 = 1u64 << halvings;
        let probe_up_bytes: u64 = larger(self.cwnd / growth_packets, self.current_mtu);
        self.probe_up_acked = self.probe_up_acked.saturating_add(bytes_acked);
        if self.probe_up_acked < probe_up_bytes {
            return;
        }
        let steps: u64 = self.probe_up_acked / probe_up_bytes;
        self.probe_up_acked = self.probe_up_acked % probe_up_bytes;
        self.inflight_hi = self.inflight_hi.saturating_add(
            saturating_product(steps, self.current_mtu),
        );
    }

    /// Starts Startup.
    pub fn enter_startup_mode(&mut self)
        ensures
            *final(self) == old(self).starting_up(),
    {
        self.mode = Mode::Startup;
        self.pacing_gain = self.high_gain;
        self.cwnd_gain = self.high_cwnd_gain;
    }

    /// Starts ProbeBw, with the gain cycle at a random step.
    pub fn enter_probe_bandwidth_mode(&mut self, now: Instant)
        ensures
            exists|draw: u8|
                draw < CYCLE_LENGTH - 1 && *final(self) == (#[trigger] old(self).probing_bandwidth(
                    now,
                    draw,
                )).with_generator(final(self).random_number_generator),
            old(self).full_model() ==> final(self).random_number_generator == old(
                self,
            ).random_number_generator,
    {
        let mut rand_index: u8 = 0;
        if self.version != BbrVersion::V2 || !self.config.bbrv2_experimental_inflight_hi_shrink {
            rand_index = draw_below(&mut self.random_number_generator, CYCLE_LENGTH - 1);
        }
        self.begin_probe_bandwidth(now, rand_index);
        proof {
            assert(*self == old(self).probing_bandwidth(now, rand_index).with_generator(
                self.random_number_generator,
            ));
        }
    }

    /// Starts ProbeBw, with the gain cycle at the step that `rand_index` picks out
    /// of {0, 2..7}. 1 is excluded because in that case increased gain and
    /// decreased gain would not follow each other.
    pub fn begin_probe_bandwidth(&mut self, now: Instant, rand_index: u8)
        requires
            rand_index < CYCLE_LENGTH - 1,
        ensures
            *final(self) == old(self).probing_bandwidth(now, rand_index),
    {
        self.mode = Mode::ProbeBw;
        self.cwnd_gain = DERIVED_HIGH_CWND_GAIN;
        self.last_cycle_start = Some(now);
        if self.version == BbrVersion::V2 && self.config.bbrv2_experimental_inflight_hi_shrink {
            self.bbrv2_start_probe_bw_down(now);
            return;
        }
        let offset: u8 = if rand_index >= 1 {
            rand_index + 1
        } else {
            rand_index
        };
        self.current_cycle_offset = offset;
        self.pacing_gain = pacing_gain_at(offset);
        self.probe_bw_phase = ProbeBwPhase::Cruise;
    }

    /// Enters, keeps up or leaves recovery.
    pub fn update_recovery_state(&mut self, is_round_start: bool)
        ensures
            *final(self) == old(self).recovery_updated(is_round_start),
    {
        // Exit recovery when there are no losses for a round.
        if self.loss_state.has_congestion_losses() {
            self.end_recovery_at_packet_number = self.max_sent_packet_number;
        }
        match self.recovery_state {
            RecoveryState::NotInRecovery => {
                // Enter conservation on the first loss.
                if self.loss_state.has_congestion_losses() {
                    self.recovery_state = RecoveryState::Conservation;
                    // This will cause the recovery window to be set to the
                    // correct value in `calculate_recovery_window`.
                    self.recovery_window = 0;
                    // Since the conservation phase is meant to be lasting for a whole
                    // round, extend the current round as if it were started right now.
                    self.current_round_trip_end_packet_number = self.max_sent_packet_number;
                }
            },
            _ => {
                if self.recovery_state == RecoveryState::Conservation && is_round_start {
                    self.recovery_state = RecoveryState::Growth;
                }
                // Exit recovery if appropriate.
                if !self.loss_state.has_congestion_losses() && self.max_acked_packet_number
                    > self.end_recovery_at_packet_number {
                    self.recovery_state = RecoveryState::NotInRecovery;
                }
            },
        }
    }

    /// Moves the gain cycle on where its step is over.
    pub fn update_gain_cycle_phase(&mut self, now: Instant, in_flight: u64)
        requires
            old(self).gain_cycle_fits(now, in_flight),
            old(self).current_cycle_offset < CYCLE_LENGTH,
        ensures
            *final(self) == old(self).gain_cycled(now, in_flight),
    {
        // In most cases, the cycle is advanced after an RTT passes.
        let mut should_advance_gain_cycling = match self.last_cycle_start {
            Some(last_cycle_start) => now.since(last_cycle_start).exceeds(self.min_rtt),
            None => false,
        };
        // If the pacing gain is above 1.0, the connection is trying to probe the
        // bandwidth by increasing the number of bytes in flight to at least
        // pacing_gain * BDP.  Make sure that it actually reaches the target, as
        // long as there are no losses suggesting that the buffers are not able to
        // hold that much.
        if self.pacing_gain > UNIT_GAIN && !self.loss_state.has_congestion_losses()
            && self.prev_in_flight_count < self.get_target_cwnd(self.pacing_gain) {
            should_advance_gain_cycling = false;
        }
        // If pacing gain is below 1.0, the connection is trying to drain the extra
        // queue which could have been incurred by probing prior to it.  If the
        // number of bytes in flight falls down to the estimated BDP value earlier,
        // conclude that the queue has been successfully drained and exit this cycle
        // early.
        if self.pacing_gain < UNIT_GAIN && in_flight <= self.get_target_cwnd(UNIT_GAIN) {
            should_advance_gain_cycling = true;
        }
        if should_advance_gain_cycling {
            self.current_cycle_offset = (self.current_cycle_offset + 1) % CYCLE_LENGTH;
            self.last_cycle_start = Some(now);
            // Stay in low gain mode until the target BDP is hit.  Low gain mode
            // will be exited immediately when the target BDP is achieved.
            if self.pacing_gain < UNIT_GAIN && pacing_gain_at(self.current_cycle_offset)
                == UNIT_GAIN && in_flight > self.get_target_cwnd(UNIT_GAIN) {
                return;
            }
            self.pacing_gain = pacing_gain_at(self.current_cycle_offset);
            if self.version == BbrVersion::V2 && self.config.bbrv2_experimental_inflight_hi_shrink
                && self.pacing_gain > UNIT_GAIN {
                self.bbrv2_start_probe_bw_up(now);
            }
        }
    }

    /// Moves from Startup to Drain, and from Drain to ProbeBw.
    #[verifier::spinoff_prover]
    pub fn maybe_exit_startup_or_drain(&mut self, now: Instant, in_flight: u64)
        requires
            old(self).drain_check_fits(),
        ensures
            exists|draw: u8|
                draw < CYCLE_LENGTH - 1 && *final(self) == (#[trigger] old(self).drain_left(
                    now,
                    in_flight,
                    draw,
                )).with_generator(final(self).random_number_generator),
            !old(self).drain_draws(in_flight) ==> final(self).random_number_generator == old(
                self,
            ).random_number_generator,
    {
        if self.mode == Mode::Startup && self.is_at_full_bandwidth {
            self.mode = Mode::Drain;
            self.pacing_gain = self.drain_gain;
            self.cwnd_gain = self.high_cwnd_gain;
        }
        let ghost left = *self;
        assert(left == old(self).startup_left());
        if self.mode == Mode::Drain && in_flight <= self.get_target_cwnd(UNIT_GAIN) {
            self.enter_probe_bandwidth_mode(now);
            proof {
                let draw = choose|draw: u8|
                    draw < CYCLE_LENGTH - 1 && *self == (#[trigger] left.probing_bandwidth(
                        now,
                        draw,
                    )).with_generator(self.random_number_generator);
                assert(old(self).drain_left(now, in_flight, draw) == left.probing_bandwidth(
                    now,
                    draw,
                ));
            }
        } else {
            assert(old(self).drain_left(now, in_flight, 0) == left);
        }
    }

    /// Whether the minimum RTT must be measured anew.
    pub fn is_min_rtt_expired(&self, now: Instant, app_limited: bool) -> (expired: bool)
        ensures
            expired == self.min_rtt_expired(now, app_limited),
    {
        !app_limited && match self.probe_rtt_last_started_at {
            Some(last) => now.since(last).exceeds(Duration { nanos: MIN_RTT_VALID_NANOS }),
            None => true,
        }
    }

    /// Enters ProbeRtt where it is due, and leaves it where it is done.
    #[verifier::spinoff_prover]
    pub fn maybe_enter_or_exit_probe_rtt(
        &mut self,
        now: Instant,
        is_round_start: bool,
        bytes_in_flight: u64,
        app_limited: bool,
    )
        requires
            old(self).probe_rtt_fits(now, bytes_in_flight, app_limited),
        ensures
            exists|draw: u8|
                draw < CYCLE_LENGTH - 1 && *final(self) == (#[trigger] old(self).probe_rtt_updated(
                    now,
                    is_round_start,
                    bytes_in_flight,
                    app_limited,
                    draw,
                )).with_generator(final(self).random_number_generator),
            !old(self).probe_rtt_draws(now, is_round_start) ==> final(self).random_number_generator
                == old(self).random_number_generator,
    {
        self.enter_due_probe_rtt(now, app_limited);
        let ghost entered = *self;
        self.leave_done_probe_rtt(now, is_round_start, bytes_in_flight);
        let ghost left = *self;
        self.exiting_quiescence = false;
        proof {
            let draw: u8 = choose|draw: u8|
                draw < CYCLE_LENGTH - 1 && left == (#[trigger] entered.probe_rtt_left(
                    now,
                    is_round_start,
                    bytes_in_flight,
                    draw,
                )).with_generator(left.random_number_generator);
            assert(*self == old(self).probe_rtt_updated(
                now,
                is_round_start,
                bytes_in_flight,
                app_limited,
                draw,
            ).with_generator(self.random_number_generator));
        }
    }

    /// Enters ProbeRtt where it is due.
    fn enter_due_probe_rtt(&mut self, now: Instant, app_limited: bool)
        ensures
            *final(self) == old(self).probe_rtt_entered(now, app_limited),
    {
        let min_rtt_expired = self.is_min_rtt_expired(now, app_limited);
        if min_rtt_expired && !self.exiting_quiescence && self.mode != Mode::ProbeRtt {
            self.mode = Mode::ProbeRtt;
            self.pacing_gain = UNIT_GAIN;
            // Do not decide on the time to exit ProbeRtt until the
            // bytes in flight are at the target small value.
            self.exit_probe_rtt_at = None;
            self.probe_rtt_last_started_at = Some(now);
        }
    }

    /// Leaves ProbeRtt where it is done.
    #[verifier::spinoff_prover]
    fn leave_done_probe_rtt(&mut self, now: Instant, is_round_start: bool, bytes_in_flight: u64)
        requires
            old(self).probe_rtt_exit_fits(now, bytes_in_flight),
        ensures
            exists|draw: u8|
                draw < CYCLE_LENGTH - 1 && *final(self) == (#[trigger] old(self).probe_rtt_left(
                    now,
                    is_round_start,
                    bytes_in_flight,
                    draw,
                )).with_generator(final(self).random_number_generator),
            !old(self).probe_rtt_draws(now, is_round_start) ==> final(self).random_number_generator
                == old(self).random_number_generator,
    {
        if self.mode == Mode::ProbeRtt {
            match self.exit_probe_rtt_at {
                None => {
                    // If the window has reached the appropriate size, schedule exiting
                    // ProbeRtt.  An extra packet is allowed since QUIC checks CWND
                    // before sending a packet.
                    if bytes_in_flight < self.get_probe_rtt_cwnd() + self.current_mtu {
                        self.exit_probe_rtt_at = Some(
                            now.plus(Duration { nanos: PROBE_RTT_NANOS }),
                        );
                    }
                },
                Some(exit) => {
                    if is_round_start && now.reached(exit) {
                        if !self.is_at_full_bandwidth {
                            self.enter_startup_mode();
                        } else {
                            self.enter_probe_bandwidth_mode(now);
                            proof {
                                let draw: u8 = choose|draw: u8|
                                    draw < CYCLE_LENGTH - 1 && *self == (#[trigger] old(
                                        self,
                                    ).probing_bandwidth(now, draw)).with_generator(
                                        self.random_number_generator,
                                    );
                                assert(old(self).probe_rtt_left(
                                    now,
                                    is_round_start,
                                    bytes_in_flight,
                                    draw,
                                ) == old(self).probing_bandwidth(now, draw));
                            }
                            return;
                        }
                    }
                },
            }
        }
        assert(*self == old(self).probe_rtt_left(
            now,
            is_round_start,
            bytes_in_flight,
            0,
        ).with_generator(self.random_number_generator));
    }

    /// The flight that ProbeRtt leaves.
    pub fn get_probe_rtt_cwnd(&self) -> (cwnd: u64)
        requires
            self.bdp_fits(),
        ensures
            cwnd == self.probe_rtt_cwnd(),
    {
        self.get_target_cwnd(MODERATE_PROBE_RTT_MULTIPLIER)
    }

    /// Recalculates the pacing rate.
    pub fn calculate_pacing_rate(&mut self)
        ensures
            *final(self) == old(self).paced(),
    {
        let bw: u64 = self.bbrv2_effective_bandwidth();
        if bw == 0 {
            return;
        }
        let target_rate: u64 = scale(self.pacing_gain, bw);
        if self.is_at_full_bandwidth {
            self.pacing_rate = target_rate;
            return;
        }

        // Pace at the rate of initial_window / RTT as soon as RTT measurements are
        // available.
        if self.pacing_rate == 0 && self.min_rtt.nanos != 0 {
            self.pacing_rate =
            BandwidthEstimation::bw_from_delta(self.init_cwnd, self.min_rtt).unwrap();
            return;
        }

        // Do not decrease the pacing rate during startup.
        if self.pacing_rate < target_rate {
            self.pacing_rate = target_rate;
        }
    }

    /// Recalculates the window.
    pub fn calculate_cwnd(&mut self, bytes_acked: u64, excess_acked: u64)
        requires
            old(self).window_update_fits(bytes_acked, excess_acked),
        ensures
            *final(self) == old(self).windowed(bytes_acked, excess_acked),
    {
        if self.mode == Mode::ProbeRtt {
            return;
        }
        let mut target_window: u64 = self.get_target_cwnd(self.cwnd_gain);
        if self.is_at_full_bandwidth {
            // Add the max recently measured ack aggregation to CWND.
            target_window = target_window + self.ack_aggregation.max_ack_height.get();
        } else {
            // Add the most recent excess acked.  Because CWND never decreases in
            // STARTUP, this will automatically create a very localized max filter.
            target_window = target_window + excess_acked;
        }
        // Instead of immediately setting the target CWND as the new one, BBR grows
        // the CWND towards the target window by only increasing it by the bytes
        // acked at a time.
        if self.is_at_full_bandwidth {
            self.cwnd = smaller(target_window, self.cwnd + bytes_acked);
        } else if is_below(self.cwnd_gain, target_window) || (self.acked_bytes < self.init_cwnd) {
            // If the connection is not yet out of startup phase, do not decrease
            // the window.
            self.cwnd = self.cwnd + bytes_acked;
        }

        // Enforce the limits on the congestion window.
        if self.cwnd < self.min_cwnd {
            self.cwnd = self.min_cwnd;
        }
    }

    /// Recalculates the recovery window.
    pub fn calculate_recovery_window(&mut self, bytes_acked: u64, bytes_lost: u64, in_flight: u64)
        requires
            old(self).recovery_window_fits(bytes_acked, bytes_lost, in_flight),
        ensures
            *final(self) == old(self).recovery_windowed(bytes_acked, bytes_lost, in_flight),
    {
        if !self.recovery_state.in_recovery() {
            return;
        }
        // Set up the initial recovery window.
        if self.recovery_window == 0 {
            self.recovery_window = larger(self.min_cwnd, in_flight + bytes_acked);
            return;
        }

        // Remove losses from the recovery window, while accounting for a potential
        // integer underflow.
        if self.recovery_window >= bytes_lost {
            self.recovery_window = self.recovery_window - bytes_lost;
        } else {
            self.recovery_window = self.current_mtu;
        }
        // In CONSERVATION mode, just subtracting losses is sufficient.  In GROWTH,
        // release additional bytes acked to achieve a slow-start-like behavior.
        if self.recovery_state == RecoveryState::Growth {
            self.recovery_window = self.recovery_window + bytes_acked;
        }

        // Sanity checks.  Ensure that we always allow to send at least an MSS or
        // the bytes acked in response, whichever is larger.
        self.recovery_window = larger(
            larger(self.recovery_window, in_flight + bytes_acked),
            self.min_cwnd,
        );
    }

    /// Checks at the end of a round whether the bandwidth has stopped growing.
    pub fn check_if_full_bw_reached(&mut self, app_limited: bool)
        requires
            old(self).full_bw_check_fits(app_limited),
        ensures
            *final(self) == old(self).full_bw_checked(app_limited),
    {
        if app_limited {
            return;
        }
        let target: u64 = scale(STARTUP_GROWTH_TARGET, self.bw_at_last_round);
        let bw: u64 = self.max_bandwidth.get_estimate();
        if bw >= target {
            self.bw_at_last_round = bw;
            self.round_wo_bw_gain = 0;
            self.ack_aggregation.max_ack_height.reset();
            return;
        }
        self.round_wo_bw_gain = self.round_wo_bw_gain + 1;
        if self.round_wo_bw_gain >= ROUND_TRIPS_WITHOUT_GROWTH_BEFORE_EXITING_STARTUP
            || self.recovery_state.in_recovery() {
            self.is_at_full_bandwidth = true;
        }
    }
}

} // verus!
