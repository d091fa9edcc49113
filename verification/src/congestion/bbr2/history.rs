//! What a connection can report to its controller, and what holds after any number
//! of reports.

use vstd::prelude::*;

use crate::congestion::{CongestionEvent, Controller};
use crate::connection::RttEstimator;
use crate::time::Instant;
use super::config::BbrConfig;
use super::laws::{
    law_batches_keep_the_controller_well_formed, law_bounds_move_only_in_the_full_model,
    law_fresh_controller, lemma_batch,
};
use super::model::{keeps_newest, CYCLE_LENGTH};
use super::{Bbr, BbrSentPacket, BbrVersion};

verus! {

/// What a connection reports to its controller.
pub enum Report {
    /// Packets were sent.
    Sent { now: Instant, bytes: u64, last_packet_number: u64 },
    /// One packet was sent.
    PacketSent { now: Instant, packet_bytes: u16, packet_number: u64 },
    /// A packet was acknowledged.
    Acked {
        now: Instant,
        bytes: u64,
        packet_number: u64,
        app_limited: bool,
        rtt: RttEstimator,
    },
    /// A batch of acknowledgements is over.
    AcksEnded { now: Instant, in_flight: u64, app_limited: bool, largest: Option<u64> },
    /// Packets were lost or marked.
    Congested { event: CongestionEvent, persistent: bool },
    /// One packet was lost.
    PacketLost { packet_bytes: u16 },
    /// The path has another MTU.
    MtuChanged { mtu: u16 },
    /// Something happened that this controller does not heed.
    Unheeded,
}

impl Bbr {
    /// Whether the counters can take in the report.
    pub open spec fn admits(self, report: Report) -> bool {
        match report {
            Report::Sent { bytes, .. } => self.sent_fits(bytes),
            Report::PacketSent { packet_bytes, .. } => self.packet_sent_fits(packet_bytes),
            Report::Acked { bytes, .. } => self.ack_fits(bytes),
            Report::AcksEnded { now, in_flight, app_limited, largest } => self.end_acks_fits(
                now,
                in_flight,
                app_limited,
                largest,
            ),
            Report::MtuChanged { mtu } => self.mtu_update_fits(mtu),
            _ => true,
        }
    }

    /// Whether `after` can be the state after the report.
    pub open spec fn follows(self, report: Report, after: Bbr) -> bool {
        match report {
            Report::Sent { now, bytes, last_packet_number } => after == self.sent(
                now,
                bytes,
                last_packet_number,
            ),
            Report::PacketSent { now, packet_bytes, packet_number } => {
                let counted = self.packet_counted(packet_bytes, packet_number);
                &&& after == (Bbr { sent_packets: after.sent_packets, ..counted })
                &&& !self.full_model() ==> after.sent_packets == self.sent_packets
                &&& self.full_model() ==> keeps_newest(
                    self.sent_packets@.insert(
                        packet_number,
                        self.packet_sent(counted.tracked_in_flight, now),
                    ),
                    after.sent_packets@,
                    self.packet_limit() as nat,
                )
            },
            Report::Acked { now, bytes, packet_number, app_limited, rtt } => {
                &&& after == (Bbr {
                    sent_packets: after.sent_packets,
                    ..self.delivered(now, bytes, packet_number, app_limited, rtt)
                })
                &&& !self.full_model() ==> after.sent_packets == self.sent_packets
                &&& self.full_model() ==> after.sent_packets@ == self.sent_packets@.remove(
                    packet_number,
                )
            },
            Report::AcksEnded { now, in_flight, app_limited, largest } => {
                &&& exists|draw: u8|
                    draw < CYCLE_LENGTH - 1 && after == (#[trigger] self.acks_ended(
                        now,
                        in_flight,
                        app_limited,
                        largest,
                        draw,
                    )).with_generator(after.random_number_generator)
                &&& self.full_model() || !self.batch_draws(now, in_flight, app_limited, largest)
                    ==> after.random_number_generator == self.random_number_generator
            },
            Report::Congested { event, persistent } => {
                &&& after == (Bbr {
                    sent_packets: after.sent_packets,
                    ..self.congestion_noted(event, persistent)
                })
                &&& match event {
                    CongestionEvent::Loss { largest_lost_packet_number: Some(number), .. } => {
                        after.sent_packets@ == self.sent_packets@.remove(number)
                    },
                    _ => after.sent_packets == self.sent_packets,
                }
            },
            Report::PacketLost { packet_bytes } => after == (Bbr {
                tracked_in_flight: self.tracked_in_flight.saturating_sub(packet_bytes as u64),
                ..self
            }),
            Report::MtuChanged { mtu } => after == self.mtu_updated(mtu),
            Report::Unheeded => after == self,
        }
    }

    /// Whether no bound is installed and no packet is remembered.
    pub open spec fn is_unbounded(self) -> bool {
        &&& self.inflight_hi == u64::MAX
        &&& self.inflight_lo == u64::MAX
        &&& self.bw_lo == u64::MAX
        &&& self.sent_packets@ == Map::<u64, BbrSentPacket>::empty()
    }
}

/// Whether a controller that was built for the given path goes through `states` as
/// the connection makes its `reports`.
pub open spec fn is_history(
    states: Seq<Bbr>,
    reports: Seq<Report>,
    config: BbrConfig,
    mtu: u16,
    version: BbrVersion,
) -> bool {
    &&& states.len() == reports.len() + 1
    &&& states[0].is_fresh(config, mtu, version)
    &&& forall|i: int|
        0 <= i < reports.len() ==> (#[trigger] states[i]).admits(reports[i]) && states[i].follows(
            reports[i],
            states[i + 1],
        )
}

/// Every report keeps the version and the configuration, and keeps the controller
/// well formed.
pub proof fn law_reports_keep_version_and_form(s: Bbr, report: Report, after: Bbr)
    requires
        s.wf(),
        s.admits(report),
        s.follows(report, after),
    ensures
        after.wf(),
        after.version == s.version,
        after.config == s.config,
        after.full_model() == s.full_model(),
{
    match report {
        Report::AcksEnded { now, in_flight, app_limited, largest } => {
            let draw: u8 = choose|draw: u8|
                draw < CYCLE_LENGTH - 1 && after == (#[trigger] s.acks_ended(
                    now,
                    in_flight,
                    app_limited,
                    largest,
                    draw,
                )).with_generator(after.random_number_generator);
            reveal(Bbr::batch_fits);
            law_batches_keep_the_controller_well_formed(
                s,
                now,
                in_flight,
                app_limited,
                largest,
                draw,
            );
            lemma_batch(s, now, in_flight, app_limited, largest, draw);
        },
        _ => {},
    }
}

/// Only the full model installs a bound or remembers a packet: without it every
/// report and every batch leaves the bounds open and the store empty.
pub proof fn law_only_the_full_model_installs_bounds(s: Bbr, report: Report, after: Bbr)
    requires
        !s.full_model(),
        s.is_unbounded(),
        s.follows(report, after),
    ensures
        after.is_unbounded(),
        after.version == s.version,
        after.config == s.config,
        !after.full_model(),
{
    match report {
        Report::AcksEnded { now, in_flight, app_limited, largest } => {
            let draw: u8 = choose|draw: u8|
                draw < CYCLE_LENGTH - 1 && after == (#[trigger] s.acks_ended(
                    now,
                    in_flight,
                    app_limited,
                    largest,
                    draw,
                )).with_generator(after.random_number_generator);
            law_bounds_move_only_in_the_full_model(s, now, in_flight, app_limited, largest, draw);
            lemma_batch(s, now, in_flight, app_limited, largest, draw);
        },
        Report::Congested { event, .. } => {
            match event {
                CongestionEvent::Loss { largest_lost_packet_number: Some(number), .. } => {
                    assert(s.sent_packets@.remove(number) =~= s.sent_packets@);
                },
                _ => {},
            }
        },
        _ => {},
    }
}

/// A controller stays well formed, and of its version and configuration, whatever
/// the connection reports to it.
pub proof fn law_histories_stay_well_formed(
    states: Seq<Bbr>,
    reports: Seq<Report>,
    config: BbrConfig,
    mtu: u16,
    version: BbrVersion,
    i: int,
)
    requires
        is_history(states, reports, config, mtu, version),
        0 <= i < states.len(),
    ensures
        states[i].wf(),
        states[i].version == version,
        *states[i].config == config,
    decreases i,
{
    if i == 0 {
        law_fresh_controller(states[0], config, mtu, version);
    } else {
        law_histories_stay_well_formed(states, reports, config, mtu, version, i - 1);
        assert(states[i - 1].follows(reports[i - 1], states[i - 1 + 1]));
        law_reports_keep_version_and_form(states[i - 1], reports[i - 1], states[i]);
    }
}

/// A controller of BBRv1, or of BBRv2 without the full model, never has a bound and
/// never remembers a packet, whatever the connection reports to it.
pub proof fn law_without_the_full_model_nothing_is_bounded(
    states: Seq<Bbr>,
    reports: Seq<Report>,
    config: BbrConfig,
    mtu: u16,
    version: BbrVersion,
    i: int,
)
    requires
        is_history(states, reports, config, mtu, version),
        version == BbrVersion::V1 || !config.bbrv2_experimental_inflight_hi_shrink,
        0 <= i < states.len(),
    ensures
        states[i].is_unbounded(),
        !states[i].full_model(),
    decreases i,
{
    if i > 0 {
        law_without_the_full_model_nothing_is_bounded(
            states,
            reports,
            config,
            mtu,
            version,
            i - 1,
        );
        assert(states[i - 1].follows(reports[i - 1], states[i - 1 + 1]));
        law_only_the_full_model_installs_bounds(states[i - 1], reports[i - 1], states[i]);
    }
}

} // verus!
