//! A running maximum over a window of rounds.
//!
//! The filter keeps three candidates: the best sample, the best one after it, and
//! the best one after that. As rounds pass, the later candidates move up, so that
//! the reported maximum is never older than the window.

use vstd::prelude::*;

verus! {

/// How many rounds a maximum stays valid.
pub const DEFAULT_WINDOW_ROUNDS: u64 = 10;

/// A measurement and the round it was taken in.
#[derive(Debug, Clone, Copy, PartialEq, Eq, Structural)]
pub struct MinMaxSample {
    pub time: u64,
    pub value: u64,
}

/// The filter.
#[derive(Debug, Clone, Copy, PartialEq, Eq, Structural)]
pub struct MinMax {
    pub window: u64,
    pub best: MinMaxSample,
    pub second: MinMaxSample,
    pub third: MinMaxSample,
}

impl Default for MinMax {
    fn default() -> (m: Self)
        ensures
            m == MinMax::empty(DEFAULT_WINDOW_ROUNDS),
    {
        let none = MinMaxSample { time: 0, value: 0 };
        MinMax { window: DEFAULT_WINDOW_ROUNDS, best: none, second: none, third: none }
    }
}

impl MinMax {
    /// The filter that holds three times `sample`.
    pub open spec fn filled(window: u64, sample: MinMaxSample) -> MinMax {
        MinMax { window, best: sample, second: sample, third: sample }
    }

    /// The filter without a measurement.
    pub open spec fn empty(window: u64) -> MinMax {
        MinMax::filled(window, MinMaxSample { time: 0, value: 0 })
    }

    /// Whether no candidate is younger than `round`.
    pub open spec fn taken_by(self, round: u64) -> bool {
        self.best.time <= round && self.second.time <= round && self.third.time <= round
    }

    /// Whether the candidates are in order: later ones are no larger.
    pub open spec fn ordered(self) -> bool {
        &&& self.best.value >= self.second.value >= self.third.value
        &&& self.best.time <= self.second.time <= self.third.time
    }

    /// Whether `sample` replaces all candidates.
    pub open spec fn supersedes(self, sample: MinMaxSample) -> bool {
        ||| self.best.value == 0
        ||| sample.value >= self.best.value
        ||| sample.time - self.third.time > self.window
    }

    /// The filter once `sample` has replaced the candidates that it beats.
    pub open spec fn displaced(self, sample: MinMaxSample) -> MinMax {
        if sample.value >= self.second.value {
            MinMax { second: sample, third: sample, ..self }
        } else if sample.value >= self.third.value {
            MinMax { third: sample, ..self }
        } else {
            self
        }
    }

    /// The filter with its best candidate dropped and `sample` appended.
    pub open spec fn shifted(self, sample: MinMaxSample) -> MinMax {
        MinMax { best: self.second, second: self.third, third: sample, ..self }
    }

    /// The filter once the passing of time up to `sample` is accounted for.
    pub open spec fn aged(self, sample: MinMaxSample) -> MinMax {
        let age = sample.time - self.best.time;
        if age > self.window {
            let once = self.shifted(sample);
            if sample.time - once.best.time > self.window {
                once.shifted(sample)
            } else {
                once
            }
        } else if self.second.time == self.best.time && age > self.window / 4 {
            MinMax { second: sample, third: sample, ..self }
        } else if self.third.time == self.second.time && age > self.window / 2 {
            MinMax { third: sample, ..self }
        } else {
            self
        }
    }

    /// The filter after a measurement of `value` in `round`.
    pub open spec fn updated(self, round: u64, value: u64) -> MinMax {
        let sample = MinMaxSample { time: round, value };
        if self.supersedes(sample) {
            MinMax::filled(self.window, sample)
        } else {
            self.displaced(sample).aged(sample)
        }
    }

    /// The current maximum, zero where nothing was measured.
    #[verifier::allow_in_spec]
    pub fn get(&self) -> u64
        returns
            self.best.value,
    {
        self.best.value
    }

    /// Forgets all measurements.
    pub fn reset(&mut self)
        ensures
            *final(self) == MinMax::empty(old(self).window),
    {
        let none = MinMaxSample { time: 0, value: 0 };
        self.best = none;
        self.second = none;
        self.third = none;
    }

    /// Takes in a measurement of the given round.
    pub fn update_max(&mut self, current_round: u64, measurement: u64)
        requires
            old(self).taken_by(current_round),
        ensures
            *final(self) == old(self).updated(current_round, measurement),
    {
        let sample = MinMaxSample { time: current_round, value: measurement };
        if self.best.value == 0 || sample.value >= self.best.value || sample.time - self.third.time
            > self.window {
            self.best = sample;
            self.second = sample;
            self.third = sample;
            return;
        }
        if sample.value >= self.second.value {
            self.second = sample;
            self.third = sample;
        } else if sample.value >= self.third.value {
            self.third = sample;
        }
        self.subwin_update(sample);
    }

    fn subwin_update(&mut self, sample: MinMaxSample)
        requires
            old(self).taken_by(sample.time),
        ensures
            *final(self) == old(self).aged(sample),
    {
        let age: u64 = sample.time - self.best.time;
        if age > self.window {
            // The whole window passed without a better sample: the second choice
            // becomes the best, and once more if it is outside the window too.
            self.best = self.second;
            self.second = self.third;
            self.third = sample;
            if sample.time - self.best.time > self.window {
                self.best = self.second;
                self.second = self.third;
                self.third = sample;
            }
        } else if self.second.time == self.best.time && age > self.window / 4 {
            // A quarter of the window passed: take a second choice from the
            // second quarter.
            self.second = sample;
            self.third = sample;
        } else if self.third.time == self.second.time && age > self.window / 2 {
            // Half of the window passed: take a third choice from the last half.
            self.third = sample;
        }
    }
}

/// After a measurement the maximum is at least that measurement, and it was
/// measured at most one window ago.
pub proof fn law_maximum_is_recent(m: MinMax, round: u64, value: u64)
    requires
        m.taken_by(round),
    ensures
        m.updated(round, value).get() >= value,
        round - m.updated(round, value).best.time <= m.window,
        m.updated(round, value).window == m.window,
{
}

/// The maximum is a value that was measured: a candidate or the new measurement.
pub proof fn law_maximum_was_measured(m: MinMax, round: u64, value: u64)
    requires
        m.taken_by(round),
    ensures
        ({
            let after = m.updated(round, value).best;
            ||| after == m.best
            ||| after == m.second
            ||| after == m.third
            ||| after == (MinMaxSample { time: round, value })
        }),
{
}

/// A measurement keeps the candidates in order and none of them lies in the
/// future.
pub proof fn law_candidates_stay_ordered(m: MinMax, round: u64, value: u64)
    requires
        m.taken_by(round),
        m.ordered(),
    ensures
        m.updated(round, value).taken_by(round),
        m.updated(round, value).ordered(),
{
}

/// No candidate is lower than the measurement just taken; the maximum stays while it
/// is not beaten and not too old; and a measurement that is at least the maximum takes
/// the place of all candidates.
pub proof fn law_measurement_takes_its_place(m: MinMax, round: u64, value: u64)
    requires
        m.taken_by(round),
        m.ordered(),
    ensures
        ({
            let t = m.updated(round, value);
            &&& t.third.value >= value
            &&& value >= m.best.value ==> t.best == (MinMaxSample { time: round, value })
                && t.second == t.best && t.third == t.best
            &&& value < m.best.value && round - m.best.time <= m.window ==> t.best == m.best
            &&& value < m.best.value && m.second.value <= value && round - m.best.time <= m.window
                ==> t.second.value == value && t.second.time == round
            &&& value < m.second.value && m.third.value <= value && round - m.best.time <= m.window
                ==> t.third.value == value && t.third.time == round
            &&& value < m.third.value && round - m.best.time > m.window && round - m.second.time
                <= m.window ==> t.best == m.second && t.second == m.third && t.third.time == round
            &&& value < m.third.value && round - m.second.time > m.window && round - m.third.time
                <= m.window ==> t.best == m.third && t.second.time == round
        }),
{
}

/// A maximum that stands alone gets a second candidate once a quarter of the window
/// has passed, and a third one once half of it has; before that, and with candidates
/// of three rounds, a lower measurement changes nothing within the window.
pub proof fn law_candidates_are_spread_over_the_window(m: MinMax, round: u64, value: u64)
    requires
        m.taken_by(round),
        m.ordered(),
        value < m.third.value,
        round - m.best.time <= m.window,
    ensures
        ({
            let t = m.updated(round, value);
            let sample = MinMaxSample { time: round, value };
            let age = round - m.best.time;
            &&& m.second.time == m.best.time && age > m.window / 4 ==> t.best == m.best && t.second
                == sample && t.third == sample
            &&& m.second.time != m.best.time && m.third.time == m.second.time && age > m.window / 2
                ==> t.best == m.best && t.second == m.second && t.third == sample
            &&& age <= m.window / 4 ==> t == m
            &&& m.second.time != m.best.time && age <= m.window / 2 ==> t == m
            &&& m.second.time != m.best.time && m.third.time != m.second.time ==> t == m
        }),
{
}

} // verus!
