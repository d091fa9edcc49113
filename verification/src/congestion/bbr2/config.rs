//! Configuration of the controllers.

use vstd::prelude::*;

use crate::congestion::BASE_DATAGRAM_SIZE;

verus! {

/// Do not allow initial congestion window to be greater than 200 packets.
pub const MAX_INITIAL_CONGESTION_WINDOW: u64 = 200;

/// Configuration for the `Bbr` congestion controller
#[derive(Debug, Clone, Copy, PartialEq, Eq, Structural)]
pub struct BbrConfig {
    pub initial_window: u64,
    pub bbrv2_experimental_inflight_hi_shrink: bool,
}

impl BbrConfig {
    /// Default limit on the amount of outstanding data in bytes.
    ///
    /// Recommended value: `min(10 * max_datagram_size, max(2 * max_datagram_size, 14720))`
    pub fn initial_window(&mut self, value: u64) -> (config: &mut Self)
        ensures
            *config == (BbrConfig { initial_window: value, ..*old(self) }),
            *final(self) == *final(config),
    {
        self.initial_window = value;
        self
    }
}

impl Default for BbrConfig {
    fn default() -> (config: Self)
        ensures
            config.initial_window == MAX_INITIAL_CONGESTION_WINDOW * BASE_DATAGRAM_SIZE,
            !config.bbrv2_experimental_inflight_hi_shrink,
    {
        BbrConfig {
            initial_window: MAX_INITIAL_CONGESTION_WINDOW * BASE_DATAGRAM_SIZE,
            bbrv2_experimental_inflight_hi_shrink: false,
        }
    }
}

/// Configuration for the BBRv2 congestion controller.
///
/// This intentionally uses a distinct factory so deployments can A/B test
/// `bbr` and `bbrv2` without changing the behaviour of `bbr`.
#[derive(Debug, Clone, Copy, PartialEq, Eq, Structural)]
pub struct BbrV2Config {
    pub inner: BbrConfig,
}

impl BbrV2Config {
    /// Default limit on the amount of outstanding data in bytes.
    ///
    /// Recommended value: `min(10 * max_datagram_size, max(2 * max_datagram_size, 14720))`
    pub fn initial_window(&mut self, value: u64) -> (config: &mut Self)
        ensures
            *config == (BbrV2Config {
                inner: BbrConfig { initial_window: value, ..old(self).inner },
            }),
            *final(self) == *final(config),
    {
        self.inner.initial_window(value);
        self
    }

    /// Enable the experimental full BBRv2 model.
    ///
    /// This activates long- and short-term inflight bounds, the short-term
    /// bandwidth bound, and the ProbeBW DOWN/CRUISE/REFILL/UP cycle. It remains
    /// disabled by default while the full model is benchmarked against the
    /// conservative BBRv2 signal classifier.
    pub fn full_model(&mut self, enabled: bool) -> (config: &mut Self)
        ensures
            *config == (BbrV2Config {
                inner: BbrConfig {
                    bbrv2_experimental_inflight_hi_shrink: enabled,
                    ..old(self).inner
                },
            }),
            *final(self) == *final(config),
    {
        self.inner.bbrv2_experimental_inflight_hi_shrink = enabled;
        self
    }

    /// Backwards-compatible alias for [`Self::full_model`].
    pub fn experimental_inflight_hi_shrink(&mut self, enabled: bool) -> (config: &mut Self)
        ensures
            *config == (BbrV2Config {
                inner: BbrConfig {
                    bbrv2_experimental_inflight_hi_shrink: enabled,
                    ..old(self).inner
                },
            }),
            *final(self) == *final(config),
    {
        self.full_model(enabled)
    }
}

impl Default for BbrV2Config {
    fn default() -> (config: Self)
        ensures
            config.inner.initial_window == MAX_INITIAL_CONGESTION_WINDOW * BASE_DATAGRAM_SIZE,
            !config.inner.bbrv2_experimental_inflight_hi_shrink,
    {
        BbrV2Config { inner: BbrConfig::default() }
    }
}

} // verus!
