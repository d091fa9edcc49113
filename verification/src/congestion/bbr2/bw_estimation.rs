//! The bandwidth estimate: the largest delivery rate of the last rounds.

use vstd::prelude::*;

use crate::time::{Duration, Instant};
use super::min_max::{MinMax, DEFAULT_WINDOW_ROUNDS};

verus! {

/// Counts what is sent and acknowledged and estimates the bandwidth from it.
#[derive(Debug, Clone, Copy)]
pub struct BandwidthEstimation {
    pub total_acked: u64,
    pub prev_total_acked: u64,
    pub acked_time: Option<Instant>,
    pub prev_acked_time: Option<Instant>,
    pub total_sent: u64,
    pub prev_total_sent: u64,
    pub sent_time: Option<Instant>,
    pub prev_sent_time: Option<Instant>,
    pub max_filter: MinMax,
    pub acked_at_last_window: u64,
}

impl Default for BandwidthEstimation {
    fn default() -> (b: Self)
        ensures
            b == BandwidthEstimation::fresh(),
    {
        BandwidthEstimation {
            total_acked: 0,
            prev_total_acked: 0,
            acked_time: None,
            prev_acked_time: None,
            total_sent: 0,
            prev_total_sent: 0,
            sent_time: None,
            prev_sent_time: None,
            max_filter: MinMax::default(),
            acked_at_last_window: 0,
        }
    }
}

impl BandwidthEstimation {
    /// The state before anything was sent.
    pub open spec fn fresh() -> BandwidthEstimation {
        BandwidthEstimation {
            total_acked: 0,
            prev_total_acked: 0,
            acked_time: None,
            prev_acked_time: None,
            total_sent: 0,
            prev_total_sent: 0,
            sent_time: None,
            prev_sent_time: None,
            max_filter: MinMax::empty(DEFAULT_WINDOW_ROUNDS),
            acked_at_last_window: 0,
        }
    }

    /// Whether the counters fit together and no sample lies after `round`.
    pub open spec fn wf(self, round: u64) -> bool {
        &&& self.prev_total_sent <= self.total_sent
        &&& self.acked_at_last_window <= self.total_acked
        &&& self.max_filter.taken_by(round)
    }

    /// The rate of `bytes` over `span`, in bytes per second and rounded down. There
    /// is none for an empty span.
    pub open spec fn rate(bytes: u64, span: Duration) -> Option<u64> {
        if span.nanos == 0 {
            None
        } else {
            let exact = (bytes * 1_000_000_000) / (span.nanos as int);
            Some(
                if exact > u64::MAX {
                    u64::MAX
                } else {
                    exact as u64
                },
            )
        }
    }

    /// The rate at which the latest packets left. Where the clock did not advance
    /// between them it is no limit.
    pub open spec fn send_rate(self, prev_sent_time: Instant) -> u64 {
        match self.sent_time {
            Some(sent) if sent.nanos > prev_sent_time.nanos => {
                match Self::rate(
                    (self.total_sent - self.prev_total_sent) as u64,
                    sent.since(prev_sent_time),
                ) {
                    Some(rate) => rate,
                    None => 0,
                }
            },
            _ => u64::MAX,
        }
    }

    /// The rate at which the latest acknowledgements came in.
    pub open spec fn ack_rate(self, now: Instant, bytes: u64) -> u64 {
        match self.acked_time {
            Some(before) => {
                match Self::rate(bytes, now.since(before)) {
                    Some(rate) => rate,
                    None => 0,
                }
            },
            None => 0,
        }
    }

    /// The state after `bytes` left at `now`.
    pub open spec fn sent(self, now: Instant, bytes: u64) -> BandwidthEstimation {
        BandwidthEstimation {
            prev_total_sent: self.total_sent,
            total_sent: (self.total_sent + bytes) as u64,
            prev_sent_time: self.sent_time,
            sent_time: Some(now),
            ..self
        }
    }

    /// The state after a delivery-rate sample. A sample of a sender that had too
    /// little to send says nothing, and neither does one below the maximum.
    pub open spec fn sampled(self, round: u64, sample: u64, app_limited: bool)
        -> BandwidthEstimation {
        if !app_limited && self.max_filter.get() < sample {
            BandwidthEstimation { max_filter: self.max_filter.updated(round, sample), ..self }
        } else {
            self
        }
    }

    /// The state after `bytes` were acknowledged at `now`. The sample is the
    /// smaller one of the send rate and the acknowledgement rate.
    pub open spec fn acked(self, now: Instant, bytes: u64, round: u64, app_limited: bool)
        -> BandwidthEstimation {
        let counted = BandwidthEstimation {
            prev_total_acked: self.total_acked,
            total_acked: (self.total_acked + bytes) as u64,
            prev_acked_time: self.acked_time,
            acked_time: Some(now),
            ..self
        };
        match self.prev_sent_time {
            None => counted,
            Some(prev_sent_time) => {
                let send_rate = self.send_rate(prev_sent_time);
                let ack_rate = self.ack_rate(now, bytes);
                counted.sampled(
                    round,
                    if send_rate <= ack_rate {
                        send_rate
                    } else {
                        ack_rate
                    },
                    app_limited,
                )
            },
        }
    }

    /// The bytes acknowledged since the last batch ended.
    pub open spec fn window_bytes(self) -> u64 {
        (self.total_acked - self.acked_at_last_window) as u64
    }

    /// The state once a batch of acknowledgements has ended.
    pub open spec fn window_closed(self) -> BandwidthEstimation {
        BandwidthEstimation { acked_at_last_window: self.total_acked, ..self }
    }

    /// The estimate, in bytes per second.
    pub open spec fn estimate(self) -> u64 {
        self.max_filter.get()
    }

    /// Notes that `bytes` left at `now`.
    pub fn on_sent(&mut self, now: Instant, bytes: u64)
        requires
            old(self).total_sent + bytes <= u64::MAX,
        ensures
            *final(self) == old(self).sent(now, bytes),
    {
        self.prev_total_sent = self.total_sent;
        self.total_sent = self.total_sent + bytes;
        self.prev_sent_time = self.sent_time;
        self.sent_time = Some(now);
    }

    /// Notes that `bytes` were acknowledged at `now`, and takes a sample.
    pub fn on_ack(
        &mut self,
        now: Instant,
        _sent: Instant,
        bytes: u64,
        round: u64,
        app_limited: bool,
    )
        requires
            old(self).total_acked + bytes <= u64::MAX,
            old(self).wf(round),
        ensures
            *final(self) == old(self).acked(now, bytes, round, app_limited),
    {
        self.prev_total_acked = self.total_acked;
        self.total_acked = self.total_acked + bytes;
        self.prev_acked_time = self.acked_time;
        self.acked_time = Some(now);

        let prev_sent_time = match self.prev_sent_time {
            Some(prev_sent_time) => prev_sent_time,
            None => {
                return ;
            },
        };
        let send_rate: u64 = match self.sent_time {
            Some(sent_time) if sent_time.nanos > prev_sent_time.nanos => {
                match Self::bw_from_delta(
                    self.total_sent - self.prev_total_sent,
                    sent_time.since(prev_sent_time),
                ) {
                    Some(rate) => rate,
                    None => 0,
                }
            },
            _ => u64::MAX,
        };
        let ack_rate: u64 = match self.prev_acked_time {
            Some(before) => {
                match Self::bw_from_delta(
                    self.total_acked - self.prev_total_acked,
                    now.since(before),
                ) {
                    Some(rate) => rate,
                    None => 0,
                }
            },
            None => 0,
        };
        let bandwidth: u64 = if send_rate <= ack_rate {
            send_rate
        } else {
            ack_rate
        };
        self.update_max_bandwidth(round, bandwidth, app_limited);
    }

    /// Takes in a delivery-rate sample.
    pub fn update_max_bandwidth(&mut self, round: u64, sample: u64, app_limited: bool)
        requires
            old(self).max_filter.taken_by(round),
        ensures
            *final(self) == old(self).sampled(round, sample, app_limited),
    {
        if !app_limited && self.max_filter.get() < sample {
            self.max_filter.update_max(round, sample);
        }
    }

    /// The bytes acknowledged since the last batch ended.
    pub fn bytes_acked_this_window(&self) -> (bytes: u64)
        requires
            self.acked_at_last_window <= self.total_acked,
        ensures
            bytes == self.window_bytes(),
    {
        self.total_acked - self.acked_at_last_window
    }

    /// Ends a batch of acknowledgements.
    pub fn end_acks(&mut self, _current_round: u64, _app_limited: bool)
        ensures
            *final(self) == old(self).window_closed(),
    {
        self.acked_at_last_window = self.total_acked;
    }

    /// The estimate, in bytes per second.
    pub fn get_estimate(&self) -> (bw: u64)
        ensures
            bw == self.estimate(),
    {
        self.max_filter.get()
    }

    /// The rate of `bytes` over `delta`, in bytes per second.
    pub fn bw_from_delta(bytes: u64, delta: Duration) -> (rate: Option<u64>)
        ensures
            rate == Self::rate(bytes, delta),
    {
        if delta.nanos == 0 {
            return None;
        }
        let exact: u128 = (bytes as u128 * 1_000_000_000) / delta.nanos;
        if exact > 0xffff_ffff_ffff_ffff {
            Some(u64::MAX)
        } else {
            Some(exact as u64)
        }
    }
}

/// Sending, acknowledging, sampling and ending a batch keep the estimator well
/// formed, in the same round and in later ones.
pub proof fn law_estimator_stays_well_formed(
    b: BandwidthEstimation,
    now: Instant,
    bytes: u64,
    sample: u64,
    round: u64,
    later: u64,
    app_limited: bool,
)
    requires
        b.wf(round),
        round <= later,
    ensures
        b.wf(later),
        b.total_sent + bytes <= u64::MAX ==> b.sent(now, bytes).wf(round),
        b.total_acked + bytes <= u64::MAX ==> b.acked(now, bytes, round, app_limited).wf(round),
        b.sampled(round, sample, app_limited).wf(round),
        b.window_closed().wf(round),
{
}

/// The estimate never falls with a sample, and it rises to every sample that a
/// sender with enough to send delivers.
pub proof fn law_estimate_is_a_maximum(
    b: BandwidthEstimation,
    round: u64,
    sample: u64,
    app_limited: bool,
)
    requires
        b.max_filter.taken_by(round),
    ensures
        b.sampled(round, sample, app_limited).estimate() >= b.estimate(),
        !app_limited ==> b.sampled(round, sample, app_limited).estimate() >= sample,
        app_limited ==> b.sampled(round, sample, app_limited) == b,
        sample <= b.estimate() ==> b.sampled(round, sample, app_limited) == b,
{
}

/// A rate is the whole number of bytes per second: over the span it delivers no more
/// than the bytes, and one byte per second more would.
pub proof fn law_rate_is_bytes_per_second(bytes: u64, span: Duration)
    requires
        span.nanos > 0,
    ensures
        ({
            let rate = BandwidthEstimation::rate(bytes, span);
            &&& rate is Some
            &&& rate->0 * span.nanos <= bytes * 1_000_000_000
            &&& rate->0 < u64::MAX ==> bytes * 1_000_000_000 < (rate->0 + 1) * span.nanos
        }),
{
    let (num, den) = (bytes * 1_000_000_000, span.nanos as int);
    let exact = num / den;
    vstd::arithmetic::div_mod::lemma_fundamental_div_mod(num, den);
    assert(exact * den <= num < (exact + 1) * den) by (nonlinear_arith)
        requires
            num == den * exact + num % den,
            0 <= num % den < den,
    ;
    assert(exact >= 0) by (nonlinear_arith)
        requires
            exact == num / den,
            num >= 0,
            den > 0,
    ;
    let rate = BandwidthEstimation::rate(bytes, span)->0;
    assert(rate * den <= exact * den) by (nonlinear_arith)
        requires
            rate <= exact,
            den > 0,
    ;
}

/// Acknowledgements count every byte, and a sample of them lifts the estimate to no
/// more than the rate at which they came in, nor than the rate at which the latest
/// packets left.
pub proof fn law_sample_is_no_faster_than_sending_or_acknowledging(
    b: BandwidthEstimation,
    now: Instant,
    bytes: u64,
    round: u64,
    app_limited: bool,
)
    requires
        b.wf(round),
        b.total_acked + bytes <= u64::MAX,
    ensures
        ({
            let t = b.acked(now, bytes, round, app_limited);
            let lifted = t.estimate() > b.estimate();
            &&& t.total_acked == b.total_acked + bytes
            &&& t.window_bytes() == b.window_bytes() + bytes
            &&& t.acked_time == Some(now)
            &&& t.total_sent == b.total_sent && t.sent_time == b.sent_time
            &&& t.estimate() >= b.estimate()
            &&& lifted ==> !app_limited && b.acked_time is Some && b.prev_sent_time is Some
            &&& lifted ==> BandwidthEstimation::rate(bytes, now.since(b.acked_time->0)) is Some
                && t.estimate() <= BandwidthEstimation::rate(
                bytes,
                now.since(b.acked_time->0),
            )->0
            &&& lifted && b.sent_time is Some && b.sent_time->0.nanos > b.prev_sent_time->0.nanos
                ==> t.estimate() <= BandwidthEstimation::rate(
                (b.total_sent - b.prev_total_sent) as u64,
                b.sent_time->0.since(b.prev_sent_time->0),
            )->0
        }),
{
}

/// A sample of a sender with enough to send is the smaller one of the rate at which
/// the latest packets left and the rate at which acknowledgements came in; it is the
/// latter where the clock did not advance between the packets. The estimate rises to it.
pub proof fn law_sample_is_the_slower_rate(
    b: BandwidthEstimation,
    now: Instant,
    bytes: u64,
    round: u64,
    ack_rate: u64,
)
    requires
        b.wf(round),
        b.prev_sent_time is Some,
        b.acked_time is Some,
        BandwidthEstimation::rate(bytes, now.since(b.acked_time->0)) == Some(ack_rate),
    ensures
        ({
            let t = b.acked(now, bytes, round, false);
            let spread = b.sent_time is Some && b.sent_time->0.nanos
                > b.prev_sent_time->0.nanos;
            let send_rate = BandwidthEstimation::rate(
                (b.total_sent - b.prev_total_sent) as u64,
                b.sent_time->0.since(b.prev_sent_time->0),
            )->0;
            let sample = if spread && send_rate < ack_rate {
                send_rate
            } else {
                ack_rate
            };
            t.estimate() == (if sample > b.estimate() {
                sample
            } else {
                b.estimate()
            })
        }),
{
}

/// Sending counts every byte and remembers the times of the last two reports; the
/// end of a batch only forgets what the batch acknowledged.
pub proof fn law_sending_and_batches_are_counted(b: BandwidthEstimation, now: Instant, bytes: u64)
    requires
        b.total_sent + bytes <= u64::MAX,
    ensures
        ({
            let t = b.sent(now, bytes);
            &&& t.total_sent == b.total_sent + bytes && t.prev_total_sent == b.total_sent
            &&& t.sent_time == Some(now) && t.prev_sent_time == b.sent_time
            &&& t.estimate() == b.estimate() && t.total_acked == b.total_acked
        }),
        b.window_closed().window_bytes() == 0,
        b.window_closed().total_acked == b.total_acked,
        b.window_closed().estimate() == b.estimate(),
{
}

} // verus!
