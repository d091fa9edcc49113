//! Loss and ECN bookkeeping, and the decision what counts as congestion.

use vstd::prelude::*;

use crate::arith::{saturating_product, smaller};
use super::BbrVersion;

verus! {

/// The share of a round, in percent, from which loss is a congestion signal.
pub const BBR2_LOSS_THRESHOLD_PERCENT: u64 = 2;

/// The number of packets from which loss is a congestion signal.
pub const BBR2_MIN_LOSS_SIGNAL_PACKETS: u64 = 4;

/// What was lost, marked and delivered in the current batch of
/// acknowledgements and in the current round.
#[derive(Debug, Clone, Copy)]
pub struct LossState {
    pub lost_bytes: u64,
    pub ecn_ce_count: u64,
    pub congestion_lost_bytes: u64,
    pub round_lost_bytes: u64,
    pub round_ecn_ce_count: u64,
    pub round_delivered_bytes: u64,
    pub latest_lost_round: Option<u64>,
    pub latest_loss_tx_in_flight: Option<u64>,
    pub persistent_congestion: bool,
}

impl Default for LossState {
    fn default() -> (s: Self)
        ensures
            s == LossState::fresh(),
    {
        LossState {
            lost_bytes: 0,
            ecn_ce_count: 0,
            congestion_lost_bytes: 0,
            round_lost_bytes: 0,
            round_ecn_ce_count: 0,
            round_delivered_bytes: 0,
            latest_lost_round: None,
            latest_loss_tx_in_flight: None,
            persistent_congestion: false,
        }
    }
}

impl LossState {
    /// The state before anything happened.
    pub open spec fn fresh() -> LossState {
        LossState {
            lost_bytes: 0,
            ecn_ce_count: 0,
            congestion_lost_bytes: 0,
            round_lost_bytes: 0,
            round_ecn_ce_count: 0,
            round_delivered_bytes: 0,
            latest_lost_round: None,
            latest_loss_tx_in_flight: None,
            persistent_congestion: false,
        }
    }

    /// Delivered and lost bytes of the round together.
    pub open spec fn round_total(self) -> u64 {
        self.round_delivered_bytes.saturating_add(self.round_lost_bytes)
    }

    /// The CE marks of the round as bytes, a datagram of `mtu` bytes each.
    pub open spec fn round_ecn_bytes(self, mtu: u64) -> u64 {
        saturating_product(self.round_ecn_ce_count, mtu)
    }

    /// The CE marks of the batch as bytes, at most what the round delivered.
    pub open spec fn batch_ecn_bytes(self, mtu: u64) -> u64 {
        smaller(saturating_product(self.ecn_ce_count, mtu), self.round_delivered_bytes)
    }

    /// Whether at least four packets and two percent of the round were lost.
    pub open spec fn loss_over_threshold(self, mtu: u64) -> bool {
        &&& self.round_total() != 0
        &&& self.round_lost_bytes >= BBR2_MIN_LOSS_SIGNAL_PACKETS * mtu
        &&& self.round_lost_bytes * 100 >= self.round_total() * BBR2_LOSS_THRESHOLD_PERCENT
    }

    /// Whether the arithmetic of the loss check fits.
    pub open spec fn loss_check_fits(self, mtu: u64) -> bool {
        self.round_total() == 0 || {
            &&& BBR2_MIN_LOSS_SIGNAL_PACKETS * mtu <= u64::MAX
            &&& self.round_lost_bytes < BBR2_MIN_LOSS_SIGNAL_PACKETS * mtu || self.round_total()
                * BBR2_LOSS_THRESHOLD_PERCENT <= u64::MAX
        }
    }

    /// Whether at least four packets' worth and two percent of what the round
    /// delivered carry CE marks.
    pub open spec fn ecn_over_threshold(self, mtu: u64) -> bool {
        &&& self.round_delivered_bytes != 0
        &&& self.round_ecn_bytes(mtu) >= BBR2_MIN_LOSS_SIGNAL_PACKETS * mtu
        &&& self.round_ecn_bytes(mtu) * 100 >= self.round_delivered_bytes
            * BBR2_LOSS_THRESHOLD_PERCENT
    }

    /// Whether the arithmetic of the ECN check fits.
    pub open spec fn ecn_check_fits(self, mtu: u64) -> bool {
        self.round_delivered_bytes == 0 || {
            &&& BBR2_MIN_LOSS_SIGNAL_PACKETS * mtu <= u64::MAX
            &&& self.round_ecn_bytes(mtu) < BBR2_MIN_LOSS_SIGNAL_PACKETS * mtu
                || self.round_delivered_bytes * BBR2_LOSS_THRESHOLD_PERCENT <= u64::MAX
        }
    }

    /// Whether the round to which the latest loss belongs is over.
    pub open spec fn attributed_round_complete(self, current_round: u64) -> bool {
        self.latest_lost_round matches Some(round) ==> round < current_round
    }

    /// Whether the losses and marks of the batch count as congestion.
    pub open spec fn signals_congestion(self, version: BbrVersion, mtu: u64, round: u64) -> bool {
        match version {
            BbrVersion::V1 => true,
            BbrVersion::V2 => {
                ||| self.persistent_congestion
                ||| self.attributed_round_complete(round) && self.loss_over_threshold(mtu)
                ||| self.ecn_over_threshold(mtu)
            },
        }
    }

    /// Whether the arithmetic of the classification fits.
    pub open spec fn classification_fits(self, version: BbrVersion, mtu: u64, round: u64) -> bool {
        version == BbrVersion::V2 && !self.persistent_congestion ==> {
            &&& self.attributed_round_complete(round) ==> self.loss_check_fits(mtu)
            &&& self.attributed_round_complete(round) && self.loss_over_threshold(mtu)
                || self.ecn_check_fits(mtu)
        }
    }

    /// The state once the batch is classified.
    pub open spec fn classified(self, version: BbrVersion, mtu: u64, round: u64) -> LossState {
        LossState {
            congestion_lost_bytes: if self.signals_congestion(version, mtu, round) {
                self.lost_bytes.saturating_add(self.batch_ecn_bytes(mtu))
            } else {
                0
            },
            ..self
        }
    }

    /// The state after a loss. What is known of the latest lost packet stays where
    /// nothing newer is known.
    pub open spec fn loss_recorded(
        self,
        lost_bytes: u64,
        persistent: bool,
        sent_round: Option<u64>,
        tx_in_flight: Option<u64>,
    ) -> LossState {
        LossState {
            lost_bytes: self.lost_bytes.saturating_add(lost_bytes),
            round_lost_bytes: self.round_lost_bytes.saturating_add(lost_bytes),
            latest_lost_round: if sent_round is Some {
                sent_round
            } else {
                self.latest_lost_round
            },
            latest_loss_tx_in_flight: if tx_in_flight is Some {
                tx_in_flight
            } else {
                self.latest_loss_tx_in_flight
            },
            persistent_congestion: self.persistent_congestion || persistent,
            ..self
        }
    }

    /// The state after new CE marks.
    pub open spec fn ecn_recorded(self, ce_count: u64, persistent: bool) -> LossState {
        LossState {
            ecn_ce_count: self.ecn_ce_count.saturating_add(ce_count),
            round_ecn_ce_count: self.round_ecn_ce_count.saturating_add(ce_count),
            persistent_congestion: self.persistent_congestion || persistent,
            ..self
        }
    }

    /// The state once `bytes` more are known to be delivered.
    pub open spec fn delivered(self, bytes: u64) -> LossState {
        LossState {
            round_delivered_bytes: self.round_delivered_bytes.saturating_add(bytes),
            ..self
        }
    }

    /// The state at the start of a batch.
    pub open spec fn batch_cleared(self) -> LossState {
        LossState { lost_bytes: 0, ecn_ce_count: 0, congestion_lost_bytes: 0, ..self }
    }

    /// The state at the start of a round.
    pub open spec fn round_cleared(self) -> LossState {
        LossState {
            lost_bytes: self.lost_bytes,
            ecn_ce_count: self.ecn_ce_count,
            congestion_lost_bytes: self.congestion_lost_bytes,
            ..LossState::fresh()
        }
    }

    /// Notes a loss of `lost_bytes`, with the round and the flight size at which
    /// the largest lost packet was sent where they are known.
    pub fn record_loss(
        &mut self,
        lost_bytes: u64,
        is_persistent_congestion: bool,
        sent_round: Option<u64>,
        tx_in_flight: Option<u64>,
    )
        ensures
            *final(self) == old(self).loss_recorded(
                lost_bytes,
                is_persistent_congestion,
                sent_round,
                tx_in_flight,
            ),
    {
        self.lost_bytes = self.lost_bytes.saturating_add(lost_bytes);
        self.round_lost_bytes = self.round_lost_bytes.saturating_add(lost_bytes);
        if sent_round.is_some() {
            self.latest_lost_round = sent_round;
        }
        if tx_in_flight.is_some() {
            self.latest_loss_tx_in_flight = tx_in_flight;
        }
        self.persistent_congestion = self.persistent_congestion || is_persistent_congestion;
    }

    /// Notes `ce_count` new CE marks.
    pub fn record_ecn(&mut self, ce_count: u64, is_persistent_congestion: bool)
        ensures
            *final(self) == old(self).ecn_recorded(ce_count, is_persistent_congestion),
    {
        self.ecn_ce_count = self.ecn_ce_count.saturating_add(ce_count);
        self.round_ecn_ce_count = self.round_ecn_ce_count.saturating_add(ce_count);
        self.persistent_congestion = self.persistent_congestion || is_persistent_congestion;
    }

    /// Notes that `bytes` were delivered.
    pub fn record_delivered(&mut self, bytes: u64)
        ensures
            *final(self) == old(self).delivered(bytes),
    {
        self.round_delivered_bytes = self.round_delivered_bytes.saturating_add(bytes);
    }

    /// Decides how much of the batch counts as congestion.
    pub fn classify_congestion_signal(
        &mut self,
        version: BbrVersion,
        current_mtu: u64,
        current_round: u64,
    )
        requires
            old(self).classification_fits(version, current_mtu, current_round),
        ensures
            *final(self) == old(self).classified(version, current_mtu, current_round),
    {
        let ecn_congestion_bytes: u64 = self.ecn_congestion_bytes(current_mtu);
        self.congestion_lost_bytes = match version {
            BbrVersion::V1 => self.lost_bytes.saturating_add(ecn_congestion_bytes),
            BbrVersion::V2 => {
                let attributed_round_complete = match self.latest_lost_round {
                    Some(round) => round < current_round,
                    None => true,
                };
                if self.persistent_congestion || (attributed_round_complete
                    && self.round_loss_exceeds_bbr2_threshold(current_mtu))
                    || self.round_ecn_exceeds_bbr2_threshold(current_mtu) {
                    self.lost_bytes.saturating_add(ecn_congestion_bytes)
                } else {
                    0
                }
            },
        };
    }

    /// The flight size at which the latest lost packet was sent.
    pub fn latest_loss_tx_in_flight(&self) -> (flight: Option<u64>)
        ensures
            flight == self.latest_loss_tx_in_flight,
    {
        self.latest_loss_tx_in_flight
    }

    /// Whether the loss of the round is heavy enough to act on.
    pub fn round_loss_exceeds_bbr2_threshold(&self, current_mtu: u64) -> (exceeds: bool)
        requires
            self.loss_check_fits(current_mtu),
        ensures
            exceeds == self.loss_over_threshold(current_mtu),
    {
        let round_total: u64 = self.round_delivered_bytes.saturating_add(self.round_lost_bytes);
        if round_total == 0 || self.round_lost_bytes < BBR2_MIN_LOSS_SIGNAL_PACKETS * current_mtu {
            return false;
        }
        saturating_product(self.round_lost_bytes, 100) >= round_total * BBR2_LOSS_THRESHOLD_PERCENT
    }

    /// Whether the CE marks of the round are dense enough to act on.
    pub fn round_ecn_exceeds_bbr2_threshold(&self, current_mtu: u64) -> (exceeds: bool)
        requires
            self.ecn_check_fits(current_mtu),
        ensures
            exceeds == self.ecn_over_threshold(current_mtu),
    {
        let round_ecn_bytes: u64 = saturating_product(self.round_ecn_ce_count, current_mtu);
        if self.round_delivered_bytes == 0 || round_ecn_bytes < BBR2_MIN_LOSS_SIGNAL_PACKETS
            * current_mtu {
            return false;
        }
        saturating_product(round_ecn_bytes, 100) >= self.round_delivered_bytes
            * BBR2_LOSS_THRESHOLD_PERCENT
    }

    /// The CE marks of the batch as bytes.
    pub fn ecn_congestion_bytes(&self, current_mtu: u64) -> (bytes: u64)
        ensures
            bytes == self.batch_ecn_bytes(current_mtu),
    {
        smaller(saturating_product(self.ecn_ce_count, current_mtu), self.round_delivered_bytes)
    }

    /// Forgets the batch.
    pub fn reset_batch(&mut self)
        ensures
            *final(self) == old(self).batch_cleared(),
    {
        self.lost_bytes = 0;
        self.ecn_ce_count = 0;
        self.congestion_lost_bytes = 0;
    }

    /// Forgets the round.
    pub fn reset_round(&mut self)
        ensures
            *final(self) == old(self).round_cleared(),
    {
        self.round_lost_bytes = 0;
        self.round_ecn_ce_count = 0;
        self.round_delivered_bytes = 0;
        self.latest_lost_round = None;
        self.latest_loss_tx_in_flight = None;
        self.persistent_congestion = false;
    }

    /// Whether the batch was classified as congestion.
    pub open spec fn congested(self) -> bool {
        self.congestion_lost_bytes != 0
    }

    /// Whether the batch was classified as congestion.
    pub fn has_congestion_losses(&self) -> (congested: bool)
        ensures
            congested == self.congested(),
    {
        self.congestion_lost_bytes != 0
    }

    /// How much of the batch was classified as congestion.
    pub fn congestion_lost_bytes(&self) -> (bytes: u64)
        ensures
            bytes == self.congestion_lost_bytes,
    {
        self.congestion_lost_bytes
    }
}

/// BBRv1 takes any loss, and any CE mark in a round that delivered something, for
/// congestion, whatever their share of the round.
pub proof fn law_v1_heeds_any_signal(s: LossState, mtu: u64, round: u64)
    requires
        mtu > 0,
    ensures
        s.classified(BbrVersion::V1, mtu, round).congested() <==> s.lost_bytes > 0 || (
        s.ecn_ce_count > 0 && s.round_delivered_bytes > 0),
{
    assert(s.ecn_ce_count * mtu >= 1 <==> s.ecn_ce_count >= 1) by (nonlinear_arith)
        requires
            mtu >= 1,
            s.ecn_ce_count >= 0,
    ;
}

/// Without persistent congestion BBRv2 ignores a round in which fewer than four
/// packets were lost and fewer than four CE marks came.
pub proof fn law_v2_ignores_tiny_signals(s: LossState, mtu: u64, round: u64)
    requires
        !s.persistent_congestion,
        s.round_lost_bytes < BBR2_MIN_LOSS_SIGNAL_PACKETS * mtu,
        s.round_ecn_ce_count < BBR2_MIN_LOSS_SIGNAL_PACKETS,
        mtu > 0,
    ensures
        !s.classified(BbrVersion::V2, mtu, round).congested(),
{
    assert(s.round_ecn_ce_count * mtu < 4 * mtu) by (nonlinear_arith)
        requires
            s.round_ecn_ce_count < 4,
            mtu > 0,
    ;
}

/// BBRv2 heeds persistent congestion however little was lost.
pub proof fn law_v2_keeps_persistent_congestion(s: LossState, mtu: u64, round: u64)
    requires
        s.persistent_congestion,
    ensures
        s.classified(BbrVersion::V2, mtu, round).congestion_lost_bytes
            == s.lost_bytes.saturating_add(s.batch_ecn_bytes(mtu)),
{
}

/// BBRv2 leaves a loss that belongs to the round under way alone until that round
/// is over; then the thresholds decide.
pub proof fn law_v2_defers_loss_of_current_round(s: LossState, mtu: u64, sent: u64, round: u64)
    requires
        s.latest_lost_round == Some(sent),
        !s.persistent_congestion,
        !s.ecn_over_threshold(mtu),
    ensures
        round <= sent ==> !s.classified(BbrVersion::V2, mtu, round).congested(),
        round > sent && s.lost_bytes > 0 ==> (s.classified(BbrVersion::V2, mtu, round).congested()
            <==> s.loss_over_threshold(mtu)),
{
}

/// Classifying changes nothing but the classification, and classifying again
/// gives the same.
pub proof fn law_classification_is_stable(s: LossState, version: BbrVersion, mtu: u64, round: u64)
    ensures
        s.classified(version, mtu, round).classified(version, mtu, round) == s.classified(
            version,
            mtu,
            round,
        ),
{
}

/// When BBRv2 takes a batch for congestion, in numbers. Something must have been
/// lost or marked in it. And the congestion is persistent, or the round of the loss
/// is over and lost at least four packets and at least two of a hundred bytes, or
/// the round has at least four marks, on at least two of a hundred bytes delivered.
pub proof fn law_v2_congestion_in_numbers(s: LossState, mtu: u64, round: u64)
    requires
        mtu > 0,
        4 * mtu <= u64::MAX,
        s.round_delivered_bytes + s.round_lost_bytes <= u64::MAX,
    ensures
        ({
            let signal = s.lost_bytes > 0 || (s.ecn_ce_count > 0 && s.round_delivered_bytes > 0);
            let over = s.latest_lost_round is None || s.latest_lost_round->0 < round;
            let heavy = s.round_lost_bytes >= 4 * mtu && s.round_lost_bytes * 100 >= 2 * (
            s.round_delivered_bytes + s.round_lost_bytes);
            let dense = s.round_delivered_bytes > 0 && s.round_ecn_ce_count >= 4
                && s.round_ecn_ce_count * mtu * 100 >= 2 * s.round_delivered_bytes;
            s.classified(BbrVersion::V2, mtu, round).congestion_lost_bytes > 0 <==> signal && (
            s.persistent_congestion || (over && heavy) || dense)
        }),
{
    let (marks, rounds) = (s.ecn_ce_count as int, s.round_ecn_ce_count as int);
    assert(marks * mtu >= 1 <==> marks >= 1) by (nonlinear_arith)
        requires
            mtu >= 1,
            marks >= 0,
    ;
    assert(rounds * mtu >= 4 * mtu <==> rounds >= 4) by (nonlinear_arith)
        requires
            mtu >= 1,
            rounds >= 0,
    ;
}

/// Without marks and without persistent congestion, BBRv2 takes no batch for
/// congestion in whose round less than two of a hundred bytes were lost, however
/// many packets that were.
pub proof fn law_v2_ignores_a_small_share(s: LossState, mtu: u64, round: u64)
    requires
        !s.persistent_congestion,
        s.round_ecn_ce_count == 0,
        s.round_delivered_bytes + s.round_lost_bytes <= u64::MAX,
        s.round_lost_bytes * 100 < 2 * (s.round_delivered_bytes + s.round_lost_bytes),
    ensures
        s.classified(BbrVersion::V2, mtu, round).congestion_lost_bytes == 0,
{
}

/// BBRv2 takes a batch with loss for congestion in whose completed round at least
/// four packets and at least two of a hundred bytes were lost.
pub proof fn law_v2_heeds_a_large_share(s: LossState, mtu: u64, round: u64)
    requires
        s.lost_bytes > 0,
        s.latest_lost_round matches Some(sent) ==> sent < round,
        s.round_delivered_bytes + s.round_lost_bytes <= u64::MAX,
        s.round_lost_bytes > 0,
        s.round_lost_bytes >= 4 * mtu,
        s.round_lost_bytes * 100 >= 2 * (s.round_delivered_bytes + s.round_lost_bytes),
    ensures
        s.classified(BbrVersion::V2, mtu, round).congestion_lost_bytes >= s.lost_bytes,
        s.classified(BbrVersion::V2, mtu, round).congestion_lost_bytes > 0,
{
}

/// How much counts as congestion: all or nothing. All is what the batch lost, and a
/// datagram for each of its marks, but for marks no more than the round delivered.
pub proof fn law_congestion_is_all_or_nothing(
    s: LossState,
    version: BbrVersion,
    mtu: u64,
    round: u64,
)
    requires
        s.lost_bytes + s.round_delivered_bytes <= u64::MAX,
    ensures
        ({
            let bytes = s.classified(version, mtu, round).congestion_lost_bytes;
            &&& version == BbrVersion::V1 ==> bytes >= s.lost_bytes
            &&& bytes == 0 || bytes == s.lost_bytes + (if s.ecn_ce_count * mtu
                <= s.round_delivered_bytes {
                s.ecn_ce_count * mtu
            } else {
                s.round_delivered_bytes as int
            })
        }),
{
    let marks = s.ecn_ce_count as int;
    assert(marks * mtu >= 0) by (nonlinear_arith)
        requires
            marks >= 0,
            mtu >= 0,
    ;
}

/// What a batch lost, marked and delivered adds up, in whatever order it is
/// reported; of lost packets the latest known one counts; and persistent congestion
/// stays noted.
pub proof fn law_records_add_up(
    s: LossState,
    lost: u64,
    sent_round: Option<u64>,
    tx_in_flight: Option<u64>,
    persistent: bool,
    ce_count: u64,
    bytes: u64,
)
    requires
        s.lost_bytes + lost <= u64::MAX,
        s.round_lost_bytes + lost <= u64::MAX,
        s.ecn_ce_count + ce_count <= u64::MAX,
        s.round_ecn_ce_count + ce_count <= u64::MAX,
        s.round_delivered_bytes + bytes <= u64::MAX,
    ensures
        ({
            let t = s.loss_recorded(lost, persistent, sent_round, tx_in_flight).ecn_recorded(
                ce_count,
                false,
            ).delivered(bytes);
            &&& t.lost_bytes == s.lost_bytes + lost
            &&& t.round_lost_bytes == s.round_lost_bytes + lost
            &&& t.ecn_ce_count == s.ecn_ce_count + ce_count
            &&& t.round_ecn_ce_count == s.round_ecn_ce_count + ce_count
            &&& t.round_delivered_bytes == s.round_delivered_bytes + bytes
            &&& sent_round is Some ==> t.latest_lost_round == sent_round
            &&& sent_round is None ==> t.latest_lost_round == s.latest_lost_round
            &&& tx_in_flight is Some ==> t.latest_loss_tx_in_flight == tx_in_flight
            &&& tx_in_flight is None ==> t.latest_loss_tx_in_flight == s.latest_loss_tx_in_flight
            &&& t.persistent_congestion == (s.persistent_congestion || persistent)
            &&& t.congestion_lost_bytes == s.congestion_lost_bytes
            &&& t == s.ecn_recorded(ce_count, persistent).delivered(bytes).loss_recorded(
                lost,
                false,
                sent_round,
                tx_in_flight,
            )
        }),
{
}

/// The end of a batch forgets the batch and nothing of the round; the end of a round
/// forgets the round and nothing of the batch.
pub proof fn law_batch_and_round_are_forgotten_apart(s: LossState)
    ensures
        ({
            let b = s.batch_cleared();
            let r = s.round_cleared();
            &&& b.lost_bytes == 0 && b.ecn_ce_count == 0 && b.congestion_lost_bytes == 0
            &&& b.round_lost_bytes == s.round_lost_bytes && b.round_ecn_ce_count
                == s.round_ecn_ce_count && b.round_delivered_bytes == s.round_delivered_bytes
            &&& b.latest_lost_round == s.latest_lost_round && b.latest_loss_tx_in_flight
                == s.latest_loss_tx_in_flight && b.persistent_congestion == s.persistent_congestion
            &&& r.round_lost_bytes == 0 && r.round_ecn_ce_count == 0 && r.round_delivered_bytes == 0
            &&& r.latest_lost_round is None && r.latest_loss_tx_in_flight is None
                && !r.persistent_congestion
            &&& r.lost_bytes == s.lost_bytes && r.ecn_ce_count == s.ecn_ce_count
                && r.congestion_lost_bytes == s.congestion_lost_bytes
        }),
{
}

} // verus!
