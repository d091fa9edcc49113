//! How much more is acknowledged at once than the bandwidth explains.

use vstd::prelude::*;

use crate::time::Instant;
use super::min_max::{MinMax, DEFAULT_WINDOW_ROUNDS};

verus! {

/// The current aggregation epoch and the largest recent excess.
#[derive(Debug, Clone, Copy)]
pub struct AckAggregationState {
    pub max_ack_height: MinMax,
    pub aggregation_epoch_start_time: Option<Instant>,
    pub aggregation_epoch_bytes: u64,
}

impl Default for AckAggregationState {
    fn default() -> (s: Self)
        ensures
            s == AckAggregationState::fresh(),
    {
        AckAggregationState {
            max_ack_height: MinMax::default(),
            aggregation_epoch_start_time: None,
            aggregation_epoch_bytes: 0,
        }
    }
}

impl AckAggregationState {
    /// The state before the first acknowledgement.
    pub open spec fn fresh() -> AckAggregationState {
        AckAggregationState {
            max_ack_height: MinMax::empty(DEFAULT_WINDOW_ROUNDS),
            aggregation_epoch_start_time: None,
            aggregation_epoch_bytes: 0,
        }
    }

    /// Microseconds since the epoch began, zero before the first epoch.
    pub open spec fn epoch_micros(self, now: Instant) -> u64 {
        match self.aggregation_epoch_start_time {
            Some(start) => now.since(start).micros(),
            None => 0,
        }
    }

    /// The bytes that the epoch should have delivered at `max_bandwidth`.
    pub open spec fn expected_bytes(self, now: Instant, max_bandwidth: u64) -> u64 {
        ((max_bandwidth * self.epoch_micros(now)) / 1_000_000) as u64
    }

    /// Whether acknowledgements came in no faster than expected, so that a new
    /// epoch begins.
    pub open spec fn epoch_ends(self, now: Instant, max_bandwidth: u64) -> bool {
        self.aggregation_epoch_bytes <= self.expected_bytes(now, max_bandwidth)
    }

    /// What the epoch delivered beyond expectation, with `newly_acked` bytes more.
    pub open spec fn excess(self, newly_acked: u64, now: Instant, max_bandwidth: u64) -> u64 {
        if self.epoch_ends(now, max_bandwidth) {
            0
        } else {
            (self.aggregation_epoch_bytes + newly_acked - self.expected_bytes(
                now,
                max_bandwidth,
            )) as u64
        }
    }

    /// The state after `newly_acked` bytes more were acknowledged.
    pub open spec fn updated(
        self,
        newly_acked: u64,
        now: Instant,
        round: u64,
        max_bandwidth: u64,
    ) -> AckAggregationState {
        if self.epoch_ends(now, max_bandwidth) {
            AckAggregationState {
                aggregation_epoch_bytes: newly_acked,
                aggregation_epoch_start_time: Some(now),
                ..self
            }
        } else {
            AckAggregationState {
                aggregation_epoch_bytes: (self.aggregation_epoch_bytes + newly_acked) as u64,
                max_ack_height: self.max_ack_height.updated(
                    round,
                    self.excess(newly_acked, now, max_bandwidth),
                ),
                ..self
            }
        }
    }

    /// Whether the arithmetic of an update fits.
    pub open spec fn update_fits(self, newly_acked: u64, now: Instant, max_bandwidth: u64) -> bool {
        &&& max_bandwidth * self.epoch_micros(now) <= u64::MAX
        &&& !self.epoch_ends(now, max_bandwidth) ==> self.aggregation_epoch_bytes + newly_acked
            <= u64::MAX
    }

    /// Takes in `newly_acked_bytes` and returns by how much the epoch is ahead of
    /// what `max_bandwidth` explains.
    pub fn update_ack_aggregation_bytes(
        &mut self,
        newly_acked_bytes: u64,
        now: Instant,
        round: u64,
        max_bandwidth: u64,
    ) -> (excess: u64)
        requires
            old(self).update_fits(newly_acked_bytes, now, max_bandwidth),
            old(self).max_ack_height.taken_by(round),
        ensures
            excess == old(self).excess(newly_acked_bytes, now, max_bandwidth),
            *final(self) == old(self).updated(newly_acked_bytes, now, round, max_bandwidth),
    {
        // Compute how many bytes are expected to be delivered, assuming max
        // bandwidth is correct.
        let elapsed: u64 = match self.aggregation_epoch_start_time {
            Some(start) => now.since(start).as_micros(),
            None => 0,
        };
        let expected_bytes_acked: u64 = max_bandwidth * elapsed / 1_000_000;

        // Reset the current aggregation epoch as soon as the ack arrival rate is
        // less than or equal to the max bandwidth.
        if self.aggregation_epoch_bytes <= expected_bytes_acked {
            // Reset to start measuring a new aggregation epoch.
            self.aggregation_epoch_bytes = newly_acked_bytes;
            self.aggregation_epoch_start_time = Some(now);
            return 0;
        }
        // Compute how many extra bytes were delivered vs max bandwidth.
        // Include the bytes most recently acknowledged to account for stretch acks.

        self.aggregation_epoch_bytes = self.aggregation_epoch_bytes + newly_acked_bytes;
        let diff: u64 = self.aggregation_epoch_bytes - expected_bytes_acked;
        self.max_ack_height.update_max(round, diff);
        diff
    }
}

/// The recorded maximum covers every excess that is reported: it is what the
/// window may grow by.
pub proof fn law_height_covers_excess(
    s: AckAggregationState,
    newly_acked: u64,
    now: Instant,
    round: u64,
    max_bandwidth: u64,
)
    requires
        s.update_fits(newly_acked, now, max_bandwidth),
        s.max_ack_height.taken_by(round),
    ensures
        s.updated(newly_acked, now, round, max_bandwidth).max_ack_height.get() >= s.excess(
            newly_acked,
            now,
            max_bandwidth,
        ),
        s.updated(newly_acked, now, round, max_bandwidth).max_ack_height.taken_by(round),
        s.excess(newly_acked, now, max_bandwidth) <= s.aggregation_epoch_bytes + newly_acked,
{
}

/// An epoch ends exactly where the bandwidth explains all that came in before. Then
/// the new bytes begin the next one, nothing is ahead, and the heights stay. In an
/// epoch that goes on, what is ahead is all its bytes, the new ones with them, less
/// the whole bytes that the bandwidth explains.
pub proof fn law_epochs_in_numbers(
    s: AckAggregationState,
    newly_acked: u64,
    now: Instant,
    round: u64,
    max_bandwidth: u64,
    explained: int,
)
    requires
        s.update_fits(newly_acked, now, max_bandwidth),
        ({
            let micros = match s.aggregation_epoch_start_time {
                Some(start) => now.since(start).micros() as int,
                None => 0,
            };
            explained * 1_000_000 <= max_bandwidth * micros < (explained + 1) * 1_000_000
        }),
    ensures
        ({
            let t = s.updated(newly_acked, now, round, max_bandwidth);
            let ahead = s.excess(newly_acked, now, max_bandwidth);
            if s.aggregation_epoch_bytes <= explained {
                &&& ahead == 0
                &&& t.aggregation_epoch_bytes == newly_acked
                &&& t.aggregation_epoch_start_time == Some(now)
                &&& t.max_ack_height == s.max_ack_height
            } else {
                &&& ahead == s.aggregation_epoch_bytes + newly_acked - explained
                &&& t.aggregation_epoch_bytes == s.aggregation_epoch_bytes + newly_acked
                &&& t.aggregation_epoch_start_time == s.aggregation_epoch_start_time
                &&& t.max_ack_height == s.max_ack_height.updated(round, ahead)
            }
        }),
{
}

} // verus!
