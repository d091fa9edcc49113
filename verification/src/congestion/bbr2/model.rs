//! What the controller's operations mean: each one as a function from the state
//! before it to the state after it.
//!
//! The packet store and the random generator are carried along unchanged here;
//! where an operation touches them, its own contract says how.

use vstd::prelude::*;

use vstd::arithmetic::power2::pow2;

use rand_pcg::Pcg32;

use crate::arith::{larger, saturating_product, smaller};
use crate::gain::{below_single, scaled, scaled_millionth, UNIT_GAIN};
use crate::time::Instant;
use crate::congestion::CongestionEvent;
use crate::connection::RttEstimator;
use super::ack_aggregation::AckAggregationState;
use super::bw_estimation::BandwidthEstimation;
use super::config::BbrConfig;
use super::loss_state::LossState;
use super::min_max::MinMax;
use super::{Bbr, BbrSentPacket, BbrVersion, Mode, ProbeBwPhase, RecoveryState};

verus! {

/// The gain used for the STARTUP, equal to 2/ln(2): the single-precision number
/// nearest to 2.885.
pub const DEFAULT_HIGH_GAIN: u32 = 0x05c5_1eb8;

/// The gain that drains what STARTUP has queued: the single-precision number
/// nearest to the inverse of `DEFAULT_HIGH_GAIN`.
pub const DEFAULT_DRAIN_GAIN: u32 = 0x00b1_783c;

/// The newly derived CWND gain for STARTUP, 2.
pub const DERIVED_HIGH_CWND_GAIN: u32 = 0x0400_0000;

/// The gain of the probing step of the gain cycle, 1.25.
pub const CYCLE_PROBE_GAIN: u32 = 0x0280_0000;

/// The gain of the draining step of the gain cycle, 0.75.
pub const CYCLE_DRAIN_GAIN: u32 = 0x0180_0000;

/// The number of steps in the gain cycle.
pub const CYCLE_LENGTH: u8 = 8;

/// The single-precision number nearest to 0.9.
pub const BBR2_PROBE_DOWN_PACING_GAIN: u32 = 0x01cc_cccc;

/// 1.25
pub const BBR2_PROBE_UP_PACING_GAIN: u32 = 0x0280_0000;

/// 2.25
pub const BBR2_PROBE_UP_CWND_GAIN: u32 = 0x0480_0000;

/// What is left of a bound after a loss: 7 parts of 10.
pub const BBR2_BETA_NUMERATOR: u64 = 7;

pub const BBR2_BETA_DENOMINATOR: u64 = 10;

/// The growth of the bandwidth from round to round that keeps STARTUP going, 1.25.
pub const STARTUP_GROWTH_TARGET: u32 = 0x0280_0000;

pub const ROUND_TRIPS_WITHOUT_GROWTH_BEFORE_EXITING_STARTUP: u64 = 3;

pub const BBR_SENT_PACKET_MODEL_MIN_PACKETS: u64 = 4096;

pub const BBR_SENT_PACKET_MODEL_HEADROOM_PACKETS: u64 = 4096;

pub const BBR_SENT_PACKET_MODEL_MAX_PACKETS: u64 = 262_144;

/// The share of the BDP that ProbeRtt leaves in flight, 0.75.
pub const MODERATE_PROBE_RTT_MULTIPLIER: u32 = 0x0180_0000;

/// How long a minimum RTT stays valid: ten seconds.
pub const MIN_RTT_VALID_NANOS: u128 = 10_000_000_000;

/// How long ProbeRtt lasts once the flight is small: 200 milliseconds.
pub const PROBE_RTT_NANOS: u128 = 200_000_000;

/// The smallest window: four packets.
pub open spec fn min_window(mtu: u64) -> u64 {
    (4 * mtu) as u64
}

/// The pacing gain of a step of the gain cycle.
pub open spec fn cycle_gain(offset: u8) -> u32 {
    if offset == 0 {
        CYCLE_PROBE_GAIN
    } else if offset == 1 {
        CYCLE_DRAIN_GAIN
    } else {
        UNIT_GAIN
    }
}

/// The step at which the gain cycle starts for the random number `draw`, one of
/// seven. The draining step is left out: it only makes sense after a probe.
pub open spec fn cycle_start(draw: u8) -> u8 {
    if draw >= 1 {
        (draw + 1) as u8
    } else {
        0
    }
}

/// Whether `kept` is what remains of `all` when the lowest numbers are dropped
/// until at most `limit` entries are left.
pub open spec fn keeps_newest(
    all: Map<u64, BbrSentPacket>,
    kept: Map<u64, BbrSentPacket>,
    limit: nat,
) -> bool {
    &&& kept.submap_of(all)
    &&& kept.dom().finite()
    &&& kept.len() == (if all.len() <= limit {
        all.len()
    } else {
        limit
    })
    &&& forall|gone: u64, held: u64|
        #![trigger kept.contains_key(gone), kept.contains_key(held)]
        all.contains_key(gone) && !kept.contains_key(gone) && kept.contains_key(held) ==> gone
            < held
}

impl Bbr {
    /// Whether the parts of the state fit together: no sample lies in a round yet
    /// to come, the gain cycle stands at one of its steps, and the window limits
    /// belong to an MTU of 16 bits.
    pub open spec fn wf(self) -> bool {
        &&& self.max_bandwidth.wf(self.round_count)
        &&& self.ack_aggregation.max_ack_height.taken_by(self.round_count)
        &&& self.current_cycle_offset < CYCLE_LENGTH
        &&& self.current_mtu <= u16::MAX
        &&& self.min_cwnd == min_window(self.current_mtu)
    }

    /// Whether the full BBRv2 model is on.
    pub open spec fn full_model(self) -> bool {
        self.version == BbrVersion::V2 && self.config.bbrv2_experimental_inflight_hi_shrink
    }

    /// Whether the short-term bounds apply: in all phases but those in which the
    /// path is filled up to be probed.
    pub open spec fn uses_short_term_model(self) -> bool {
        !(self.mode == Mode::ProbeBw && (self.probe_bw_phase == ProbeBwPhase::Refill
            || self.probe_bw_phase == ProbeBwPhase::Up))
    }

    /// Whether BBRv2 is looking for more bandwidth.
    pub open spec fn is_probing_bandwidth(self) -> bool {
        self.version == BbrVersion::V2 && (self.mode == Mode::Startup
            || !self.uses_short_term_model())
    }

    /// The bandwidth to work with: the estimate, which BBRv2 caps by its
    /// short-term bound.
    pub open spec fn effective_bandwidth(self) -> u64 {
        if self.version == BbrVersion::V2 && self.uses_short_term_model() {
            smaller(self.max_bandwidth.estimate(), self.bw_lo)
        } else {
            self.max_bandwidth.estimate()
        }
    }

    /// The bandwidth-delay product, in bytes times microseconds per second.
    pub open spec fn bdp(self) -> int {
        self.min_rtt.micros() * self.effective_bandwidth()
    }

    /// Whether the bandwidth-delay product fits.
    pub open spec fn bdp_fits(self) -> bool {
        self.bdp() <= u64::MAX
    }

    /// The flight that `gain` times the bandwidth-delay product allows: at least
    /// four packets, and the initial window where there is no estimate yet.
    pub open spec fn target_cwnd(self, gain: u32) -> u64 {
        let bytes = scaled_millionth(gain, self.bdp() as u64);
        if bytes == 0 {
            self.init_cwnd
        } else {
            larger(bytes as u64, self.min_cwnd)
        }
    }

    /// The flight that ProbeRtt leaves.
    pub open spec fn probe_rtt_cwnd(self) -> u64 {
        self.target_cwnd(MODERATE_PROBE_RTT_MULTIPLIER)
    }

    /// The floor of the inflight bounds: the flight that the model asks for.
    pub open spec fn inflight_floor(self) -> u64 {
        larger(self.target_cwnd(UNIT_GAIN), self.min_cwnd)
    }

    /// The lowest value to which a loss takes the long-term inflight bound.
    pub open spec fn inflight_loss_floor(self) -> u64 {
        larger(
            saturating_product(self.target_cwnd(UNIT_GAIN), BBR2_BETA_NUMERATOR)
                / BBR2_BETA_DENOMINATOR,
            self.min_cwnd,
        )
    }

    /// The long-term bound, with some room left free while cruising.
    pub open spec fn long_term_cap(self) -> u64 {
        if (self.mode == Mode::ProbeBw || self.mode == Mode::ProbeRtt) && self.probe_bw_phase
            == ProbeBwPhase::Cruise && self.inflight_hi != u64::MAX {
            saturating_product(self.inflight_hi, 85) / 100
        } else {
            self.inflight_hi
        }
    }

    /// The bound on the flight that applies now.
    pub open spec fn inflight_cap(self) -> u64 {
        if self.uses_short_term_model() {
            smaller(self.long_term_cap(), self.inflight_lo)
        } else {
            self.long_term_cap()
        }
    }

    /// The flight `base`, held to the bounds of BBRv2 but not below four packets.
    pub open spec fn bounded_inflight(self, base: u64) -> u64 {
        if self.version == BbrVersion::V1 || self.inflight_cap() == u64::MAX {
            base
        } else {
            larger(smaller(base, self.inflight_cap()), smaller(base, self.min_cwnd))
        }
    }

    /// The window before the bounds of BBRv2.
    pub open spec fn base_window(self) -> u64 {
        if self.mode == Mode::ProbeRtt {
            self.probe_rtt_cwnd()
        } else if self.recovery_state.in_recovery() && self.mode != Mode::Startup {
            smaller(self.cwnd, self.recovery_window)
        } else {
            self.cwnd
        }
    }

    /// The number of packets to remember.
    pub open spec fn packet_limit(self) -> u64 {
        let bytes = larger(
            larger(self.cwnd, self.prev_in_flight_count),
            self.target_cwnd(BBR2_PROBE_UP_CWND_GAIN),
        );
        let packets = (bytes / larger(self.current_mtu, 1)).saturating_add(
            BBR_SENT_PACKET_MODEL_HEADROOM_PACKETS,
        );
        smaller(
            larger(packets, BBR_SENT_PACKET_MODEL_MIN_PACKETS),
            BBR_SENT_PACKET_MODEL_MAX_PACKETS,
        )
    }

    /// What is remembered of a packet sent now.
    pub open spec fn packet_sent(self, tx_in_flight: u64, now: Instant) -> BbrSentPacket {
        BbrSentPacket {
            round_count: self.round_count,
            tx_in_flight,
            sent_time: now,
            delivered_bytes_at_send: self.delivered_bytes,
            delivered_time_at_send: match self.delivered_time {
                Some(time) => time,
                None => now,
            },
        }
    }

    /// What is remembered of the packet with the given number.
    pub open spec fn packet(self, packet_number: u64) -> Option<BbrSentPacket> {
        if self.sent_packets@.contains_key(packet_number) {
            Some(self.sent_packets@[packet_number])
        } else {
            None
        }
    }

    /// The state after a probing loss: the flight of the lost packet bounds what
    /// comes, but not below the share of the model that a loss leaves.
    pub open spec fn shrunk(self, signal_inflight: u64) -> Bbr {
        Bbr {
            inflight_hi: smaller(
                self.inflight_hi,
                larger(signal_inflight, self.inflight_loss_floor()),
            ),
            probe_up_acked: 0,
            probe_up_rounds: 0,
            ..self
        }
    }

    /// The state without short-term bounds.
    pub open spec fn short_term_reset(self) -> Bbr {
        Bbr { inflight_lo: u64::MAX, bw_lo: u64::MAX, ..self }
    }

    /// The rate at which the packet and what was acknowledged since it was sent
    /// came through.
    pub open spec fn delivery_rate(packet: BbrSentPacket, now: Instant, delivered_after_ack: u64)
        -> Option<u64> {
        let ack_elapsed = now.since(packet.delivered_time_at_send);
        let send_elapsed = now.since(packet.sent_time);
        BandwidthEstimation::rate(
            delivered_after_ack.saturating_sub(packet.delivered_bytes_at_send),
            if ack_elapsed.exceeds(send_elapsed) {
                ack_elapsed
            } else {
                send_elapsed
            },
        )
    }

    /// The delivery rate of an acknowledged packet; the estimate where the packet
    /// gives none.
    pub open spec fn latest_sample(self, now: Instant, packet_number: u64, delivered_after_ack: u64)
        -> u64 {
        match self.packet(packet_number) {
            Some(packet) => match Self::delivery_rate(packet, now, delivered_after_ack) {
                Some(rate) => rate,
                None => self.max_bandwidth.estimate(),
            },
            None => self.max_bandwidth.estimate(),
        }
    }

    /// The flight when the packet was sent, or `otherwise`.
    pub open spec fn flight_at_send(self, packet_number: u64, otherwise: u64) -> u64 {
        match self.packet(packet_number) {
            Some(packet) => packet.tx_in_flight,
            None => otherwise,
        }
    }

    /// The state with the delivery signals of an acknowledged packet.
    pub open spec fn signals_updated(
        self,
        now: Instant,
        packet_number: u64,
        delivered_after_ack: u64,
        app_limited: bool,
    ) -> Bbr {
        let sample = self.latest_sample(now, packet_number, delivered_after_ack);
        Bbr {
            inflight_latest: larger(
                self.inflight_latest,
                self.flight_at_send(packet_number, delivered_after_ack),
            ),
            bw_latest: larger(self.bw_latest, sample),
            max_bandwidth: self.max_bandwidth.sampled(self.round_count, sample, app_limited),
            ..self
        }
    }

    /// The state with the delivery signals of the round that begins.
    pub open spec fn signals_advanced(self, packet_number: u64, delivered: u64) -> Bbr {
        Bbr {
            inflight_latest: self.flight_at_send(packet_number, delivered),
            bw_latest: self.max_bandwidth.estimate(),
            ..self
        }
    }

    /// The state after a loss outside of probing: the short-term bounds give way
    /// by three tenths, but not below what was just delivered nor the floor.
    pub open spec fn short_term_reduced(self, signal_inflight: u64, app_limited: bool) -> Bbr {
        let inflight = if self.inflight_lo == u64::MAX {
            self.cwnd
        } else {
            self.inflight_lo
        };
        let bw = if self.bw_lo == u64::MAX {
            self.max_bandwidth.estimate()
        } else {
            self.bw_lo
        };
        Bbr {
            inflight_lo: larger(
                larger(
                    larger(self.inflight_latest, signal_inflight),
                    saturating_product(inflight, 7) / 10,
                ),
                self.inflight_floor(),
            ),
            bw_lo: if app_limited {
                self.bw_lo
            } else if bw > 0 {
                larger(larger(self.bw_latest, saturating_product(bw, 7) / 10), 1)
            } else {
                bw
            },
            ..self
        }
    }

    /// The state at the start of ProbeBW_DOWN.
    pub open spec fn probing_down(self, now: Instant) -> Bbr {
        Bbr {
            probe_bw_phase: ProbeBwPhase::Down,
            pacing_gain: BBR2_PROBE_DOWN_PACING_GAIN,
            cwnd_gain: DERIVED_HIGH_CWND_GAIN,
            last_cycle_start: Some(now),
            probe_up_acked: 0,
            bw_probe_samples: false,
            ..self
        }
    }

    /// The state at the start of ProbeBW_CRUISE.
    pub open spec fn cruising(self, now: Instant) -> Bbr {
        Bbr {
            probe_bw_phase: ProbeBwPhase::Cruise,
            pacing_gain: UNIT_GAIN,
            cwnd_gain: DERIVED_HIGH_CWND_GAIN,
            last_cycle_start: Some(now),
            ..self
        }
    }

    /// The state at the start of ProbeBW_REFILL.
    pub open spec fn refilling(self, now: Instant) -> Bbr {
        Bbr {
            probe_bw_phase: ProbeBwPhase::Refill,
            pacing_gain: UNIT_GAIN,
            cwnd_gain: DERIVED_HIGH_CWND_GAIN,
            last_cycle_start: Some(now),
            probe_up_acked: 0,
            bw_probe_samples: true,
            ..self.short_term_reset()
        }
    }

    /// The state at the start of ProbeBW_UP.
    pub open spec fn probing_up(self, now: Instant) -> Bbr {
        Bbr {
            probe_bw_phase: ProbeBwPhase::Up,
            pacing_gain: BBR2_PROBE_UP_PACING_GAIN,
            cwnd_gain: BBR2_PROBE_UP_CWND_GAIN,
            last_cycle_start: Some(now),
            probe_up_acked: 0,
            bw_probe_samples: true,
            ..self.short_term_reset()
        }
    }

    /// Whether the step under way began more than `span_nanos` ago.
    pub open spec fn step_outlasts(self, now: Instant, span_nanos: int) -> bool {
        self.last_cycle_start matches Some(start) && now.since(start).nanos > span_nanos
    }

    /// The flight at which ProbeBW_DOWN is over.
    pub open spec fn drained_inflight(self) -> u64 {
        smaller(
            self.target_cwnd(UNIT_GAIN),
            if self.inflight_hi == u64::MAX {
                self.target_cwnd(UNIT_GAIN)
            } else {
                saturating_product(self.inflight_hi, 85) / 100
            },
        )
    }

    /// The state after the phase of the bandwidth probe was looked at.
    pub open spec fn phase_updated(self, now: Instant, in_flight: u64, is_round_start: bool)
        -> Bbr {
        if !self.full_model() {
            self.gain_cycled(now, in_flight)
        } else {
            match self.probe_bw_phase {
                ProbeBwPhase::Down => if in_flight <= self.drained_inflight() {
                    self.cruising(now)
                } else {
                    self
                },
                ProbeBwPhase::Cruise => if self.step_outlasts(now, self.min_rtt.nanos * 8) {
                    self.refilling(now)
                } else {
                    self
                },
                ProbeBwPhase::Refill => if is_round_start {
                    self.probing_up(now)
                } else {
                    self
                },
                ProbeBwPhase::Up => if self.step_outlasts(now, self.min_rtt.nanos as int)
                    && in_flight > self.target_cwnd(BBR2_PROBE_UP_PACING_GAIN) {
                    self.probing_down(now)
                } else {
                    self
                },
            }
        }
    }

    /// Whether the arithmetic of that fits.
    pub open spec fn phase_update_fits(self, now: Instant, in_flight: u64) -> bool {
        if !self.full_model() {
            self.gain_cycle_fits(now, in_flight)
        } else {
            match self.probe_bw_phase {
                ProbeBwPhase::Down => self.bdp_fits(),
                ProbeBwPhase::Cruise => self.last_cycle_start is Some
                    ==> self.min_rtt.octuple_fits(),
                ProbeBwPhase::Refill => true,
                ProbeBwPhase::Up => self.bdp_fits(),
            }
        }
    }

    /// The state in which a congestion signal finds the delivery signals.
    pub open spec fn signal_noted(self, in_flight: u64) -> Bbr {
        Bbr {
            inflight_latest: in_flight,
            bw_latest: self.max_bandwidth.estimate(),
            ..self
        }
    }

    /// The state after a congestion signal: while probing the long-term bound gives
    /// way and the probe ends, otherwise the short-term bounds do.
    pub open spec fn signal_handled(self, now: Instant, in_flight: u64, app_limited: bool) -> Bbr {
        let noted = self.signal_noted(in_flight);
        if self.is_probing_bandwidth() && self.bw_probe_samples {
            let shrunk = Bbr { bw_probe_samples: false, ..noted.shrunk(in_flight) };
            if self.mode == Mode::ProbeBw && self.probe_bw_phase == ProbeBwPhase::Up {
                shrunk.probing_down(now)
            } else {
                shrunk
            }
        } else {
            noted.short_term_reduced(in_flight, app_limited)
        }
    }

    /// Whether an acknowledgement now counts towards a higher long-term bound.
    pub open spec fn probe_up_counts(self) -> bool {
        &&& self.full_model()
        &&& self.mode == Mode::ProbeBw
        &&& self.pacing_gain > UNIT_GAIN
        &&& self.inflight_hi != u64::MAX
        &&& !self.loss_state.congested()
    }

    /// The state with the round counted.
    pub open spec fn probe_round_counted(self, is_round_start: bool) -> Bbr {
        Bbr {
            probe_up_rounds: if is_round_start {
                self.probe_up_rounds.saturating_add(1)
            } else {
                self.probe_up_rounds
            },
            ..self
        }
    }

    /// Whether the flight or the window reaches the long-term bound.
    pub open spec fn limit_utilized(self, bytes_acked: u64, in_flight: u64) -> bool {
        in_flight.saturating_add(bytes_acked) >= self.inflight_hi || self.cwnd >= self.inflight_hi
    }

    /// The bytes that must be acknowledged for each packet of growth. They halve
    /// from round to round, up to thirty times.
    pub open spec fn probe_up_bytes(self) -> u64 {
        let halvings = smaller(self.probe_up_rounds.saturating_sub(1), 30);
        larger((self.cwnd / pow2(halvings as nat) as u64) as u64, self.current_mtu)
    }

    /// The state once acknowledged bytes have been turned into a higher bound.
    pub open spec fn bound_grown(self, bytes_acked: u64) -> Bbr {
        let acked = self.probe_up_acked.saturating_add(bytes_acked);
        let per_packet = self.probe_up_bytes();
        if acked < per_packet {
            Bbr { probe_up_acked: acked, ..self }
        } else {
            Bbr {
                probe_up_acked: acked % per_packet,
                inflight_hi: self.inflight_hi.saturating_add(
                    saturating_product(acked / per_packet, self.current_mtu),
                ),
                ..self
            }
        }
    }

    /// The state after acknowledgements during an upward probe.
    pub open spec fn probed_up(self, bytes_acked: u64, is_round_start: bool, in_flight: u64)
        -> Bbr {
        let counted = self.probe_round_counted(is_round_start);
        if !self.probe_up_counts() {
            self
        } else if !self.limit_utilized(bytes_acked, in_flight) {
            Bbr { probe_up_acked: 0, ..counted }
        } else {
            counted.bound_grown(bytes_acked)
        }
    }

    /// Whether no division of that is by zero.
    pub open spec fn probe_up_fits(self, bytes_acked: u64, is_round_start: bool, in_flight: u64)
        -> bool {
        self.probe_up_counts() && self.limit_utilized(bytes_acked, in_flight)
            ==> self.probe_round_counted(is_round_start).probe_up_bytes() > 0
    }

    /// The state at the start of Startup.
    pub open spec fn starting_up(self) -> Bbr {
        Bbr {
            mode: Mode::Startup,
            pacing_gain: self.high_gain,
            cwnd_gain: self.high_cwnd_gain,
            ..self
        }
    }

    /// The state at the start of ProbeBw, for the random number `draw`.
    pub open spec fn probing_bandwidth(self, now: Instant, draw: u8) -> Bbr {
        let entered = Bbr {
            mode: Mode::ProbeBw,
            cwnd_gain: DERIVED_HIGH_CWND_GAIN,
            last_cycle_start: Some(now),
            ..self
        };
        if self.full_model() {
            entered.probing_down(now)
        } else {
            Bbr {
                current_cycle_offset: cycle_start(draw),
                pacing_gain: cycle_gain(cycle_start(draw)),
                probe_bw_phase: ProbeBwPhase::Cruise,
                ..entered
            }
        }
    }

    /// The state after a batch was checked for loss: the first loss starts
    /// recovery, and a round without loss ends it.
    pub open spec fn recovery_updated(self, is_round_start: bool) -> Bbr {
        let lossy = self.loss_state.congested();
        let end = if lossy {
            self.max_sent_packet_number
        } else {
            self.end_recovery_at_packet_number
        };
        let noted = Bbr { end_recovery_at_packet_number: end, ..self };
        if self.recovery_state.in_recovery() {
            Bbr {
                recovery_state: if !lossy && self.max_acked_packet_number > end {
                    RecoveryState::NotInRecovery
                } else if is_round_start {
                    RecoveryState::Growth
                } else {
                    self.recovery_state
                },
                ..noted
            }
        } else if lossy {
            Bbr {
                recovery_state: RecoveryState::Conservation,
                recovery_window: 0,
                current_round_trip_end_packet_number: self.max_sent_packet_number,
                ..noted
            }
        } else {
            noted
        }
    }

    /// Whether the gain cycle moves on: when the minimum RTT has passed, but not
    /// before a probe has filled the path, and as soon as a drain has emptied it.
    pub open spec fn cycle_advances(self, now: Instant, in_flight: u64) -> bool {
        if self.pacing_gain < UNIT_GAIN && in_flight <= self.target_cwnd(UNIT_GAIN) {
            true
        } else if self.pacing_gain > UNIT_GAIN && !self.loss_state.congested()
            && self.prev_in_flight_count < self.target_cwnd(self.pacing_gain) {
            false
        } else {
            self.step_outlasts(now, self.min_rtt.nanos as int)
        }
    }

    /// Whether the arithmetic of the gain cycle fits.
    pub open spec fn gain_cycle_fits(self, now: Instant, in_flight: u64) -> bool {
        (self.pacing_gain > UNIT_GAIN && !self.loss_state.congested()) || self.pacing_gain
            < UNIT_GAIN ==> self.bdp_fits()
    }

    /// The state after the gain cycle was looked at.
    pub open spec fn gain_cycled(self, now: Instant, in_flight: u64) -> Bbr {
        if !self.cycle_advances(now, in_flight) {
            self
        } else {
            let offset = ((self.current_cycle_offset + 1) % CYCLE_LENGTH as int) as u8;
            let moved = Bbr { current_cycle_offset: offset, last_cycle_start: Some(now), ..self };
            if self.pacing_gain < UNIT_GAIN && cycle_gain(offset) == UNIT_GAIN && in_flight
                > self.target_cwnd(UNIT_GAIN) {
                moved
            } else if self.full_model() && cycle_gain(offset) > UNIT_GAIN {
                moved.probing_up(now)
            } else {
                Bbr { pacing_gain: cycle_gain(offset), ..moved }
            }
        }
    }

    /// The state at the start of Drain, if Startup is over.
    pub open spec fn startup_left(self) -> Bbr {
        if self.mode == Mode::Startup && self.is_at_full_bandwidth {
            Bbr {
                mode: Mode::Drain,
                pacing_gain: self.drain_gain,
                cwnd_gain: self.high_cwnd_gain,
                ..self
            }
        } else {
            self
        }
    }

    /// Whether the end of Drain draws a random number: the full model needs none.
    pub open spec fn drain_draws(self, in_flight: u64) -> bool {
        let left = self.startup_left();
        !self.full_model() && left.mode == Mode::Drain && in_flight <= left.target_cwnd(UNIT_GAIN)
    }

    /// The state after Startup and Drain were checked for their end.
    pub open spec fn drain_left(self, now: Instant, in_flight: u64, draw: u8) -> Bbr {
        let left = self.startup_left();
        if left.mode == Mode::Drain && in_flight <= left.target_cwnd(UNIT_GAIN) {
            left.probing_bandwidth(now, draw)
        } else {
            left
        }
    }

    /// Whether the arithmetic of that fits.
    pub open spec fn drain_check_fits(self) -> bool {
        self.startup_left().mode == Mode::Drain ==> self.startup_left().bdp_fits()
    }

    /// Whether the minimum RTT must be measured anew.
    pub open spec fn min_rtt_expired(self, now: Instant, app_limited: bool) -> bool {
        !app_limited && (self.probe_rtt_last_started_at matches Some(last) ==> now.since(last).nanos
            > MIN_RTT_VALID_NANOS)
    }

    /// The state at the start of ProbeRtt, if it is due.
    pub open spec fn probe_rtt_entered(self, now: Instant, app_limited: bool) -> Bbr {
        if self.min_rtt_expired(now, app_limited) && !self.exiting_quiescence && self.mode
            != Mode::ProbeRtt {
            Bbr {
                mode: Mode::ProbeRtt,
                pacing_gain: UNIT_GAIN,
                exit_probe_rtt_at: None,
                probe_rtt_last_started_at: Some(now),
                ..self
            }
        } else {
            self
        }
    }

    /// Whether ProbeRtt has emptied the path. One packet more than its window is
    /// let pass: the window is checked before a packet is sent.
    pub open spec fn probe_rtt_reached(self, in_flight: u64) -> bool {
        in_flight < self.probe_rtt_cwnd() + self.current_mtu
    }

    /// Whether the time for ProbeRtt is over, and a round starts.
    pub open spec fn probe_rtt_ends(self, now: Instant, is_round_start: bool) -> bool {
        self.mode == Mode::ProbeRtt && is_round_start && (self.exit_probe_rtt_at matches Some(exit)
            && now.reached(exit))
    }

    /// Whether the end of ProbeRtt draws a random number: the full model needs none,
    /// nor does Startup.
    pub open spec fn probe_rtt_draws(self, now: Instant, is_round_start: bool) -> bool {
        !self.full_model() && self.is_at_full_bandwidth && self.probe_rtt_ends(now, is_round_start)
    }

    /// Whether bringing the mode up to date draws a random number.
    pub open spec fn mode_draws(self, now: Instant, is_round_start: bool, in_flight: u64) -> bool {
        self.drain_draws(in_flight) || self.probe_rtt_draws(now, is_round_start)
    }

    /// The state after ProbeRtt was checked for its end.
    pub open spec fn probe_rtt_left(
        self,
        now: Instant,
        is_round_start: bool,
        in_flight: u64,
        draw: u8,
    ) -> Bbr {
        if self.mode != Mode::ProbeRtt {
            self
        } else {
            match self.exit_probe_rtt_at {
                None => if self.probe_rtt_reached(in_flight) {
                    Bbr {
                        exit_probe_rtt_at: Some(
                            Instant { nanos: (now.nanos + PROBE_RTT_NANOS) as u128 },
                        ),
                        ..self
                    }
                } else {
                    self
                },
                Some(exit) => if is_round_start && now.reached(exit) {
                    if self.is_at_full_bandwidth {
                        self.probing_bandwidth(now, draw)
                    } else {
                        self.starting_up()
                    }
                } else {
                    self
                },
            }
        }
    }

    /// The state after ProbeRtt was looked at.
    pub open spec fn probe_rtt_updated(
        self,
        now: Instant,
        is_round_start: bool,
        in_flight: u64,
        app_limited: bool,
        draw: u8,
    ) -> Bbr {
        Bbr {
            exiting_quiescence: false,
            ..self.probe_rtt_entered(now, app_limited).probe_rtt_left(
                now,
                is_round_start,
                in_flight,
                draw,
            )
        }
    }

    /// Whether the arithmetic of the check for the end of ProbeRtt fits.
    pub open spec fn probe_rtt_exit_fits(self, now: Instant, in_flight: u64) -> bool {
        self.mode == Mode::ProbeRtt && self.exit_probe_rtt_at is None ==> {
            &&& self.bdp_fits()
            &&& self.probe_rtt_cwnd() + self.current_mtu <= u64::MAX
            &&& self.probe_rtt_reached(in_flight) ==> now.nanos + PROBE_RTT_NANOS <= u128::MAX
        }
    }

    /// Whether the arithmetic of a look at ProbeRtt fits.
    pub open spec fn probe_rtt_fits(self, now: Instant, in_flight: u64, app_limited: bool) -> bool {
        self.probe_rtt_entered(now, app_limited).probe_rtt_exit_fits(now, in_flight)
    }

    /// The pacing rate that bandwidth and gain ask for.
    pub open spec fn target_rate(self) -> u64 {
        scaled(self.pacing_gain, self.effective_bandwidth())
    }

    /// The next pacing rate. It does not fall before the path is known to be full;
    /// the first one spreads the initial window over a round trip.
    pub open spec fn next_pacing_rate(self) -> u64 {
        if self.effective_bandwidth() == 0 {
            self.pacing_rate
        } else if self.is_at_full_bandwidth {
            self.target_rate()
        } else if self.pacing_rate == 0 && self.min_rtt.nanos != 0 {
            BandwidthEstimation::rate(self.init_cwnd, self.min_rtt).unwrap()
        } else {
            larger(self.pacing_rate, self.target_rate())
        }
    }

    /// The state with the next pacing rate.
    pub open spec fn paced(self) -> Bbr {
        Bbr { pacing_rate: self.next_pacing_rate(), ..self }
    }

    /// What acknowledgements that come in bursts add to the window.
    pub open spec fn burst_allowance(self, excess_acked: u64) -> u64 {
        if self.is_at_full_bandwidth {
            self.ack_aggregation.max_ack_height.get()
        } else {
            excess_acked
        }
    }

    /// The window that the model asks for.
    pub open spec fn target_window(self, excess_acked: u64) -> int {
        self.target_cwnd(self.cwnd_gain) + self.burst_allowance(excess_acked)
    }

    /// Whether a window below the target or a young connection lets the window grow
    /// before the path is known to be full.
    pub open spec fn startup_grows(self, excess_acked: u64) -> bool {
        below_single(self.cwnd_gain, self.target_window(excess_acked) as u64) || self.acked_bytes
            < self.init_cwnd
    }

    /// The next window: it moves towards the target by what was acknowledged, and
    /// does not shrink before the path is known to be full.
    pub open spec fn next_cwnd(self, bytes_acked: u64, excess_acked: u64) -> u64 {
        larger(
            if self.is_at_full_bandwidth {
                smaller(
                    self.target_window(excess_acked) as u64,
                    (self.cwnd + bytes_acked) as u64,
                )
            } else if self.startup_grows(excess_acked) {
                (self.cwnd + bytes_acked) as u64
            } else {
                self.cwnd
            },
            self.min_cwnd,
        )
    }

    /// The state with the next window.
    pub open spec fn windowed(self, bytes_acked: u64, excess_acked: u64) -> Bbr {
        if self.mode == Mode::ProbeRtt {
            self
        } else {
            Bbr { cwnd: self.next_cwnd(bytes_acked, excess_acked), ..self }
        }
    }

    /// Whether the arithmetic of that fits.
    pub open spec fn window_update_fits(self, bytes_acked: u64, excess_acked: u64) -> bool {
        self.mode != Mode::ProbeRtt ==> {
            &&& self.bdp_fits()
            &&& self.target_window(excess_acked) <= u64::MAX
            &&& self.is_at_full_bandwidth || self.startup_grows(excess_acked) ==> self.cwnd
                + bytes_acked <= u64::MAX
        }
    }

    /// The recovery window less what was lost, one packet where more was lost than
    /// it held.
    pub open spec fn recovery_less_lost(self, bytes_lost: u64) -> u64 {
        if self.recovery_window >= bytes_lost {
            (self.recovery_window - bytes_lost) as u64
        } else {
            self.current_mtu
        }
    }

    /// What the recovery window gains by acknowledgements.
    pub open spec fn recovery_gain(self, bytes_acked: u64) -> u64 {
        if self.recovery_state == RecoveryState::Growth {
            bytes_acked
        } else {
            0
        }
    }

    /// The state with the next recovery window: never below what is in flight or
    /// was just acknowledged, nor below four packets.
    pub open spec fn recovery_windowed(self, bytes_acked: u64, bytes_lost: u64, in_flight: u64)
        -> Bbr {
        let in_use = (in_flight + bytes_acked) as u64;
        if !self.recovery_state.in_recovery() {
            self
        } else if self.recovery_window == 0 {
            Bbr { recovery_window: larger(self.min_cwnd, in_use), ..self }
        } else {
            Bbr {
                recovery_window: larger(
                    larger(
                        (self.recovery_less_lost(bytes_lost) + self.recovery_gain(
                            bytes_acked,
                        )) as u64,
                        in_use,
                    ),
                    self.min_cwnd,
                ),
                ..self
            }
        }
    }

    /// Whether the arithmetic of that fits.
    pub open spec fn recovery_window_fits(self, bytes_acked: u64, bytes_lost: u64, in_flight: u64)
        -> bool {
        self.recovery_state.in_recovery() ==> {
            &&& in_flight + bytes_acked <= u64::MAX
            &&& self.recovery_window != 0 ==> self.recovery_less_lost(bytes_lost)
                + self.recovery_gain(bytes_acked) <= u64::MAX
        }
    }

    /// Whether the bandwidth has grown by a quarter since the last round that
    /// counted.
    pub open spec fn bandwidth_grew(self) -> bool {
        self.max_bandwidth.estimate() >= scaled(STARTUP_GROWTH_TARGET, self.bw_at_last_round)
    }

    /// The state after a round was checked for growth: three rounds without it, or
    /// one in recovery, mean that the path is full.
    pub open spec fn full_bw_checked(self, app_limited: bool) -> Bbr {
        if app_limited {
            self
        } else if self.bandwidth_grew() {
            Bbr {
                bw_at_last_round: self.max_bandwidth.estimate(),
                round_wo_bw_gain: 0,
                ack_aggregation: AckAggregationState {
                    max_ack_height: MinMax::empty(
                        self.ack_aggregation.max_ack_height.window,
                    ),
                    ..self.ack_aggregation
                },
                ..self
            }
        } else {
            let rounds = (self.round_wo_bw_gain + 1) as u64;
            Bbr {
                round_wo_bw_gain: rounds,
                is_at_full_bandwidth: self.is_at_full_bandwidth || rounds
                    >= ROUND_TRIPS_WITHOUT_GROWTH_BEFORE_EXITING_STARTUP
                    || self.recovery_state.in_recovery(),
                ..self
            }
        }
    }

    /// Whether the arithmetic of that fits.
    pub open spec fn full_bw_check_fits(self, app_limited: bool) -> bool {
        app_limited || self.bandwidth_grew() || self.round_wo_bw_gain < u64::MAX
    }

    /// Whether this is a controller that has seen nothing yet.
    pub open spec fn is_fresh(self, config: BbrConfig, mtu: u16, version: BbrVersion) -> bool {
        &&& *self.config == config
        &&& self.version == version
        &&& self.current_mtu == mtu
        &&& self.max_bandwidth == BandwidthEstimation::fresh()
        &&& self.acked_bytes == 0
        &&& self.mode == Mode::Startup
        &&& self.loss_state == LossState::fresh()
        &&& self.recovery_state == RecoveryState::NotInRecovery
        &&& self.recovery_window == 0
        &&& !self.is_at_full_bandwidth
        &&& self.pacing_gain == DEFAULT_HIGH_GAIN
        &&& self.high_gain == DEFAULT_HIGH_GAIN
        &&& self.drain_gain == DEFAULT_DRAIN_GAIN
        &&& self.cwnd_gain == DEFAULT_HIGH_GAIN
        &&& self.high_cwnd_gain == DEFAULT_HIGH_GAIN
        &&& self.last_cycle_start is None
        &&& self.current_cycle_offset == 0
        &&& self.init_cwnd == config.initial_window
        &&& self.min_cwnd == min_window(mtu as u64)
        &&& self.prev_in_flight_count == 0
        &&& self.tracked_in_flight == 0
        &&& self.exit_probe_rtt_at is None
        &&& self.probe_rtt_last_started_at is None
        &&& self.min_rtt.nanos == 0
        &&& !self.exiting_quiescence
        &&& self.pacing_rate == 0
        &&& self.max_acked_packet_number == 0
        &&& self.max_sent_packet_number == 0
        &&& self.end_recovery_at_packet_number == 0
        &&& self.cwnd == config.initial_window
        &&& self.current_round_trip_end_packet_number == 0
        &&& self.round_count == 0
        &&& self.bw_at_last_round == 0
        &&& self.round_wo_bw_gain == 0
        &&& self.ack_aggregation == AckAggregationState::fresh()
        &&& self.sent_packets@ == Map::<u64, BbrSentPacket>::empty()
        &&& self.delivered_bytes == 0
        &&& self.delivered_time is None
        &&& self.inflight_hi == u64::MAX
        &&& self.inflight_lo == u64::MAX
        &&& self.bw_lo == u64::MAX
        &&& self.inflight_latest == 0
        &&& self.bw_latest == 0
        &&& self.probe_up_acked == 0
        &&& self.probe_up_rounds == 0
        &&& self.probe_bw_phase == ProbeBwPhase::Cruise
        &&& !self.bw_probe_samples
    }

    /// The state after `bytes` were sent.
    pub open spec fn sent(self, now: Instant, bytes: u64, last_packet_number: u64) -> Bbr {
        Bbr {
            max_sent_packet_number: last_packet_number,
            max_bandwidth: self.max_bandwidth.sent(now, bytes),
            ..self
        }
    }

    /// The state with a sent packet counted.
    pub open spec fn packet_counted(self, bytes: u16, packet_number: u64) -> Bbr {
        Bbr {
            tracked_in_flight: self.tracked_in_flight.saturating_add(bytes as u64),
            max_sent_packet_number: larger(self.max_sent_packet_number, packet_number),
            ..self
        }
    }

    /// The state with delivered bytes counted and the minimum RTT brought up to
    /// date: it falls at once, and rises only when the old one has expired.
    pub open spec fn delivery_counted(
        self,
        now: Instant,
        bytes: u64,
        app_limited: bool,
        rtt: RttEstimator,
    ) -> Bbr {
        Bbr {
            tracked_in_flight: self.tracked_in_flight.saturating_sub(bytes),
            max_bandwidth: self.max_bandwidth.acked(now, bytes, self.round_count, app_limited),
            acked_bytes: (self.acked_bytes + bytes) as u64,
            min_rtt: if self.min_rtt_expired(now, app_limited) || self.min_rtt.exceeds(rtt.min) {
                rtt.min
            } else {
                self.min_rtt
            },
            ..self
        }
    }

    /// The state after `bytes` were delivered.
    pub open spec fn delivered(
        self,
        now: Instant,
        bytes: u64,
        packet_number: u64,
        app_limited: bool,
        rtt: RttEstimator,
    ) -> Bbr {
        let total = self.delivered_bytes.saturating_add(bytes);
        let counted = self.delivery_counted(now, bytes, app_limited, rtt);
        let noted = if self.full_model() {
            counted.signals_updated(now, packet_number, total, app_limited)
        } else {
            counted
        };
        if bytes > 0 {
            Bbr { delivered_bytes: total, delivered_time: Some(now), ..noted }
        } else {
            noted
        }
    }

    /// The state after a congestion event was noted.
    pub open spec fn congestion_noted(self, event: CongestionEvent, persistent: bool) -> Bbr {
        Bbr {
            loss_state: match event {
                CongestionEvent::Ecn { ce_count, .. } => self.loss_state.ecn_recorded(
                    ce_count,
                    persistent,
                ),
                CongestionEvent::Loss { largest_lost_packet_number, lost_bytes } => {
                    let lost = match largest_lost_packet_number {
                        Some(number) => self.packet(number),
                        None => None,
                    };
                    match lost {
                        Some(packet) => self.loss_state.loss_recorded(
                            lost_bytes,
                            persistent,
                            Some(packet.round_count),
                            Some(packet.tx_in_flight),
                        ),
                        None => self.loss_state.loss_recorded(lost_bytes, persistent, None, None),
                    }
                },
            },
            ..self
        }
    }

    /// The state on a path with the given MTU, before the bounds of BBRv2.
    pub open spec fn mtu_changed(self, new_mtu: u16) -> Bbr {
        let least = min_window(new_mtu as u64);
        Bbr {
            current_mtu: new_mtu as u64,
            min_cwnd: least,
            init_cwnd: larger(self.config.initial_window, least),
            cwnd: larger(self.cwnd, least),
            ..self
        }
    }

    /// The state on a path with the given MTU.
    pub open spec fn mtu_updated(self, new_mtu: u16) -> Bbr {
        let changed = self.mtu_changed(new_mtu);
        if self.version == BbrVersion::V2 {
            Bbr {
                inflight_hi: larger(self.inflight_hi, changed.inflight_floor()),
                inflight_lo: larger(self.inflight_lo, changed.min_cwnd),
                ..changed
            }
        } else {
            changed
        }
    }

    /// The bytes that the batch under way acknowledged.
    pub open spec fn batch_acked(self) -> u64 {
        self.max_bandwidth.window_bytes()
    }

    /// By how much the batch is ahead of what the bandwidth explains.
    pub open spec fn batch_excess(self, now: Instant) -> u64 {
        self.ack_aggregation.excess(self.batch_acked(), now, self.max_bandwidth.estimate())
    }

    /// The highest packet number that is acknowledged once the batch is over.
    pub open spec fn newest_acked(self, largest: Option<u64>) -> u64 {
        match largest {
            Some(number) => number,
            None => self.max_acked_packet_number,
        }
    }

    /// Whether the batch starts a round: it acknowledges a packet that was sent
    /// after the last round had started.
    pub open spec fn round_begins(self, largest: Option<u64>) -> bool {
        self.batch_acked() > 0 && self.newest_acked(largest)
            > self.current_round_trip_end_packet_number
    }

    /// The state with the batch counted.
    pub open spec fn batch_counted(self, now: Instant, in_flight: u64, largest: Option<u64>)
        -> Bbr {
        let begins = self.round_begins(largest);
        Bbr {
            tracked_in_flight: in_flight,
            ack_aggregation: self.ack_aggregation.updated(
                self.batch_acked(),
                now,
                self.round_count,
                self.max_bandwidth.estimate(),
            ),
            max_bandwidth: self.max_bandwidth.window_closed(),
            max_acked_packet_number: self.newest_acked(largest),
            current_round_trip_end_packet_number: if begins {
                self.max_sent_packet_number
            } else {
                self.current_round_trip_end_packet_number
            },
            round_count: if begins {
                (self.round_count + 1) as u64
            } else {
                self.round_count
            },
            ..self
        }
    }

    /// The state with the losses of the batch classified.
    pub open spec fn losses_classified(self, bytes_acked: u64) -> Bbr {
        Bbr {
            loss_state: self.loss_state.delivered(bytes_acked).classified(
                self.version,
                self.current_mtu,
                self.round_count,
            ),
            ..self
        }
    }

    /// Whether the full model answers to a congestion signal now.
    pub open spec fn answers_signal(self, is_round_start: bool) -> bool {
        self.full_model() && self.loss_state.congested() && is_round_start
    }

    /// The state after the full model has answered to congestion.
    pub open spec fn signal_answered(
        self,
        now: Instant,
        in_flight: u64,
        app_limited: bool,
        is_round_start: bool,
    ) -> Bbr {
        if self.answers_signal(is_round_start) {
            self.signal_handled(
                now,
                match self.loss_state.latest_loss_tx_in_flight {
                    Some(flight) => flight,
                    None => in_flight,
                },
                app_limited,
            )
        } else {
            self
        }
    }

    /// The state after the bandwidth probe was looked at. The long-term bound grows
    /// before the phase can change.
    pub open spec fn bandwidth_probed(
        self,
        now: Instant,
        bytes_acked: u64,
        is_round_start: bool,
        in_flight: u64,
    ) -> Bbr {
        if self.mode == Mode::ProbeBw {
            self.probed_up(bytes_acked, is_round_start, in_flight).phase_updated(
                now,
                in_flight,
                is_round_start,
            )
        } else {
            self
        }
    }

    /// Whether the arithmetic of that fits.
    pub open spec fn bandwidth_probe_fits(
        self,
        now: Instant,
        bytes_acked: u64,
        is_round_start: bool,
        in_flight: u64,
    ) -> bool {
        self.mode == Mode::ProbeBw ==> {
            &&& self.probe_up_fits(bytes_acked, is_round_start, in_flight)
            &&& self.probed_up(bytes_acked, is_round_start, in_flight).phase_update_fits(
                now,
                in_flight,
            )
        }
    }

    /// The state after the end of a round was checked for growth.
    pub open spec fn growth_checked(self, is_round_start: bool, app_limited: bool) -> Bbr {
        if is_round_start && !self.is_at_full_bandwidth {
            self.full_bw_checked(app_limited)
        } else {
            self
        }
    }

    /// The state at the end of the batch, ready for the next one.
    #[verifier::opaque]
    pub open spec fn batch_ended(
        self,
        in_flight: u64,
        is_round_start: bool,
        bytes_acked: u64,
        largest: Option<u64>,
    ) -> Bbr {
        let cleared = self.loss_state.batch_cleared();
        let ended = Bbr {
            prev_in_flight_count: in_flight,
            loss_state: if is_round_start {
                cleared.round_cleared()
            } else {
                cleared
            },
            ..self
        };
        match largest {
            Some(number) if is_round_start && self.full_model() => ended.signals_advanced(
                number,
                bytes_acked,
            ),
            _ => ended,
        }
    }

    /// The state with the batch and its losses taken in.
    #[verifier::opaque]
    pub open spec fn batch_taken_in(self, now: Instant, in_flight: u64, largest: Option<u64>)
        -> Bbr {
        self.batch_counted(now, in_flight, largest).losses_classified(self.batch_acked())
    }

    /// Whether the arithmetic of that fits.
    #[verifier::opaque]
    pub open spec fn batch_fits(self, now: Instant, in_flight: u64, largest: Option<u64>) -> bool {
        let counted = self.batch_counted(now, in_flight, largest);
        &&& self.ack_aggregation.update_fits(
            self.batch_acked(),
            now,
            self.max_bandwidth.estimate(),
        )
        &&& self.round_begins(largest) ==> self.round_count < u64::MAX
        &&& counted.loss_state.delivered(self.batch_acked()).classification_fits(
            self.version,
            self.current_mtu,
            counted.round_count,
        )
    }

    /// The state with the losses of the batch answered.
    #[verifier::opaque]
    pub open spec fn losses_answered(
        self,
        now: Instant,
        in_flight: u64,
        app_limited: bool,
        is_round_start: bool,
    ) -> Bbr {
        self.signal_answered(now, in_flight, app_limited, is_round_start).recovery_updated(
            is_round_start,
        )
    }

    /// Whether the arithmetic of that fits.
    #[verifier::opaque]
    pub open spec fn losses_fit(self, is_round_start: bool) -> bool {
        self.answers_signal(is_round_start) ==> self.bdp_fits()
    }

    /// The state with the model of the path brought up to date.
    #[verifier::opaque]
    pub open spec fn path_modelled(
        self,
        now: Instant,
        bytes_acked: u64,
        is_round_start: bool,
        in_flight: u64,
        app_limited: bool,
    ) -> Bbr {
        self.bandwidth_probed(now, bytes_acked, is_round_start, in_flight).growth_checked(
            is_round_start,
            app_limited,
        )
    }

    /// Whether the arithmetic of that fits.
    #[verifier::opaque]
    pub open spec fn model_fits(
        self,
        now: Instant,
        bytes_acked: u64,
        is_round_start: bool,
        in_flight: u64,
        app_limited: bool,
    ) -> bool {
        let probed = self.bandwidth_probed(now, bytes_acked, is_round_start, in_flight);
        &&& self.bandwidth_probe_fits(now, bytes_acked, is_round_start, in_flight)
        &&& is_round_start && !probed.is_at_full_bandwidth ==> probed.full_bw_check_fits(
            app_limited,
        )
    }

    /// The state with the mode brought up to date. At most one of the two steps
    /// starts ProbeBw and makes use of `draw`.
    #[verifier::opaque]
    pub open spec fn mode_updated(
        self,
        now: Instant,
        is_round_start: bool,
        in_flight: u64,
        app_limited: bool,
        draw: u8,
    ) -> Bbr {
        self.drain_left(now, in_flight, draw).probe_rtt_updated(
            now,
            is_round_start,
            in_flight,
            app_limited,
            draw,
        )
    }

    /// Whether the arithmetic of that fits.
    #[verifier::opaque]
    pub open spec fn mode_fits(self, now: Instant, in_flight: u64, app_limited: bool, draw: u8)
        -> bool {
        &&& self.drain_check_fits()
        &&& self.drain_left(now, in_flight, draw).probe_rtt_fits(now, in_flight, app_limited)
    }

    /// The state with the pacing rate and the congestion windows recalculated.
    #[verifier::opaque]
    pub open spec fn windows_updated(self, bytes_acked: u64, excess_acked: u64, in_flight: u64)
        -> Bbr {
        self.paced().windowed(bytes_acked, excess_acked).recovery_windowed(
            bytes_acked,
            self.loss_state.congestion_lost_bytes,
            in_flight,
        )
    }

    /// Whether the arithmetic of that fits.
    #[verifier::opaque]
    pub open spec fn windows_fit(self, bytes_acked: u64, excess_acked: u64, in_flight: u64)
        -> bool {
        &&& self.paced().window_update_fits(bytes_acked, excess_acked)
        &&& self.paced().windowed(bytes_acked, excess_acked).recovery_window_fits(
            bytes_acked,
            self.loss_state.congestion_lost_bytes,
            in_flight,
        )
    }

    /// The state after a batch of acknowledgements up to the choice of the mode.
    #[verifier::opaque]
    pub open spec fn batch_modelled(
        self,
        now: Instant,
        in_flight: u64,
        app_limited: bool,
        largest: Option<u64>,
    ) -> Bbr {
        let begins = self.round_begins(largest);
        self.batch_taken_in(now, in_flight, largest).losses_answered(
            now,
            in_flight,
            app_limited,
            begins,
        ).path_modelled(now, self.batch_acked(), begins, in_flight, app_limited)
    }

    /// Whether a batch of acknowledgements draws a random number.
    #[verifier::opaque]
    pub open spec fn batch_draws(
        self,
        now: Instant,
        in_flight: u64,
        app_limited: bool,
        largest: Option<u64>,
    ) -> bool {
        self.batch_modelled(now, in_flight, app_limited, largest).mode_draws(
            now,
            self.round_begins(largest),
            in_flight,
        )
    }

    /// The state after a batch of acknowledgements. After the model is updated, the
    /// pacing rate and the congestion windows are recalculated.
    #[verifier::opaque]
    pub open spec fn acks_ended(
        self,
        now: Instant,
        in_flight: u64,
        app_limited: bool,
        largest: Option<u64>,
        draw: u8,
    ) -> Bbr {
        let begins = self.round_begins(largest);
        self.batch_modelled(now, in_flight, app_limited, largest).mode_updated(
            now,
            begins,
            in_flight,
            app_limited,
            draw,
        ).windows_updated(self.batch_acked(), self.batch_excess(now), in_flight).batch_ended(
            in_flight,
            begins,
            self.batch_acked(),
            largest,
        )
    }

    /// Whether the arithmetic of the model fits.
    #[verifier::opaque]
    pub open spec fn batch_model_fits(
        self,
        now: Instant,
        in_flight: u64,
        app_limited: bool,
        largest: Option<u64>,
    ) -> bool {
        let begins = self.round_begins(largest);
        let taken = self.batch_taken_in(now, in_flight, largest);
        &&& taken.losses_fit(begins)
        &&& taken.losses_answered(now, in_flight, app_limited, begins).model_fits(
            now,
            self.batch_acked(),
            begins,
            in_flight,
            app_limited,
        )
    }

    /// Whether the arithmetic of the mode and the windows fits, for the random
    /// number `draw`.
    #[verifier::opaque]
    pub open spec fn batch_window_fits(
        self,
        now: Instant,
        in_flight: u64,
        app_limited: bool,
        largest: Option<u64>,
        draw: u8,
    ) -> bool {
        let begins = self.round_begins(largest);
        let modelled = self.batch_modelled(now, in_flight, app_limited, largest);
        &&& modelled.mode_fits(now, in_flight, app_limited, draw)
        &&& modelled.mode_updated(now, begins, in_flight, app_limited, draw).windows_fit(
            self.batch_acked(),
            self.batch_excess(now),
            in_flight,
        )
    }

    /// Whether the bounds of BBRv2 are those of `other`.
    pub open spec fn has_bounds_of(self, other: Bbr) -> bool {
        &&& self.inflight_hi == other.inflight_hi
        &&& self.inflight_lo == other.inflight_lo
        &&& self.bw_lo == other.bw_lo
    }

    /// This state with other bounds of BBRv2.
    pub open spec fn with_bounds(self, inflight_hi: u64, inflight_lo: u64, bw_lo: u64) -> Bbr {
        Bbr { inflight_hi, inflight_lo, bw_lo, ..self }
    }

    /// This state with another random generator.
    pub open spec fn with_generator(self, generator: Pcg32) -> Bbr {
        Bbr { random_number_generator: generator, ..self }
    }
}

} // verus!
