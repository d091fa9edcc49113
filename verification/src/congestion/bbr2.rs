//! BBR congestion control.
//!
//! This module contains BBRv1 and an experimental BBRv2 mode.

use vstd::prelude::*;

use std::collections::BTreeMap;
use std::sync::Arc;

use rand_pcg::Pcg32;

use crate::time::{Duration, Instant};

pub mod ack_aggregation;
pub mod batch_laws;
pub mod bw_estimation;
pub mod config;
pub mod controller;
pub mod frame;
pub mod history;
pub mod laws;
pub mod loss_state;
pub mod min_max;
pub mod model;
pub mod operations;
pub mod path_laws;
pub mod probe_laws;
pub mod random;

use ack_aggregation::AckAggregationState;
use bw_estimation::BandwidthEstimation;
use config::BbrConfig;
use loss_state::LossState;

verus! {

/// The algorithm that a controller runs.
#[derive(Debug, Clone, Copy, PartialEq, Eq, Structural)]
pub enum BbrVersion {
    V1,
    V2,
}

/// What the controller is doing.
#[derive(Debug, Clone, Copy, PartialEq, Eq, Structural)]
pub enum Mode {
    /// Startup phase of the connection.
    Startup,
    /// After achieving the highest possible bandwidth during the startup, lower
    /// the pacing rate in order to drain the queue.
    Drain,
    /// Cruising mode.
    ProbeBw,
    /// Temporarily slow down sending in order to empty the buffer and measure
    /// the real minimum RTT.
    ProbeRtt,
}

/// The phase of a BBRv2 bandwidth probe.
#[derive(Debug, Clone, Copy, PartialEq, Eq, Structural)]
pub enum ProbeBwPhase {
    Down,
    Cruise,
    Refill,
    Up,
}

/// Indicates how the congestion control limits the amount of bytes in flight.
#[derive(Debug, Clone, Copy, PartialEq, Eq, Structural)]
pub enum RecoveryState {
    /// Do not limit.
    NotInRecovery,
    /// Allow an extra outstanding byte for each byte acknowledged.
    Conservation,
    /// Allow two extra outstanding bytes for each byte acknowledged (slow
    /// start).
    Growth,
}

impl RecoveryState {
    /// Whether the flight is limited by the recovery window.
    #[verifier::allow_in_spec]
    pub fn in_recovery(&self) -> bool
        returns
            *self != RecoveryState::NotInRecovery,
    {
        match self {
            RecoveryState::NotInRecovery => false,
            _ => true,
        }
    }
}

/// What is remembered of a packet from when it was sent.
#[derive(Debug, Clone, Copy, PartialEq, Eq, Structural)]
pub struct BbrSentPacket {
    pub round_count: u64,
    pub tx_in_flight: u64,
    pub sent_time: Instant,
    pub delivered_bytes_at_send: u64,
    pub delivered_time_at_send: Instant,
}

/// Experimental! Use at your own risk.
///
/// Aims for reduced buffer bloat and improved performance over high bandwidth-delay product networks.
/// It paces by an estimate of the bandwidth and bounds the flight by that estimate
/// times the minimum RTT.
#[derive(Debug)]
pub struct Bbr {
    pub config: Arc<BbrConfig>,
    pub version: BbrVersion,
    pub current_mtu: u64,
    pub max_bandwidth: BandwidthEstimation,
    pub acked_bytes: u64,
    pub mode: Mode,
    pub loss_state: LossState,
    pub recovery_state: RecoveryState,
    pub recovery_window: u64,
    pub is_at_full_bandwidth: bool,
    pub pacing_gain: u32,
    pub high_gain: u32,
    pub drain_gain: u32,
    pub cwnd_gain: u32,
    pub high_cwnd_gain: u32,
    pub last_cycle_start: Option<Instant>,
    pub current_cycle_offset: u8,
    pub init_cwnd: u64,
    pub min_cwnd: u64,
    pub prev_in_flight_count: u64,
    /// Locally tracked flight size between authoritative recovery-layer updates.
    pub tracked_in_flight: u64,
    pub exit_probe_rtt_at: Option<Instant>,
    pub probe_rtt_last_started_at: Option<Instant>,
    pub min_rtt: Duration,
    pub exiting_quiescence: bool,
    pub pacing_rate: u64,
    pub max_acked_packet_number: u64,
    pub max_sent_packet_number: u64,
    pub end_recovery_at_packet_number: u64,
    pub cwnd: u64,
    pub current_round_trip_end_packet_number: u64,
    pub round_count: u64,
    pub bw_at_last_round: u64,
    pub round_wo_bw_gain: u64,
    pub ack_aggregation: AckAggregationState,
    pub sent_packets: BTreeMap<u64, BbrSentPacket>,
    pub delivered_bytes: u64,
    pub delivered_time: Option<Instant>,
    /// BBRv2 slow-moving inflight upper bound. In V1 this is always `u64::MAX`
    /// so `window()` is unaffected. In V2 it is reduced only while probing for
    /// bandwidth and grown cautiously while later ProbeBW_UP rounds utilize it.
    pub inflight_hi: u64,
    /// BBRv2 short-term inflight upper bound. This absorbs loss outside
    /// bandwidth-probing phases so random loss does not permanently poison the
    /// long-term path model.
    pub inflight_lo: u64,
    /// BBRv2 short-term bandwidth upper bound, paired with `inflight_lo`.
    pub bw_lo: u64,
    /// Approximate inflight level for the most recent congestion signal.
    pub inflight_latest: u64,
    /// Approximate bandwidth estimate for the most recent congestion signal.
    pub bw_latest: u64,
    /// Bytes ACKed while probing upward since the last `inflight_hi` increment.
    pub probe_up_acked: u64,
    /// ProbeBW_UP rounds since the last long-term bound reduction.
    pub probe_up_rounds: u64,
    pub probe_bw_phase: ProbeBwPhase,
    pub bw_probe_samples: bool,
    pub random_number_generator: Pcg32,
}

} // verus!
