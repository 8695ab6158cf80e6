//! A price client that reports a configured ratio, on request with a
//! random walk around it.

use rand::Rng;
use vstd::prelude::*;

verus! {

/// The configured ratio and how far reported ratios may stray from it.
#[derive(Clone, Copy, Debug, PartialEq, Eq, Structural, Hash)]
pub struct ForcedPriceClientConfig {
    pub numerator: Option<u64>,
    pub denominator: Option<u64>,
    /// How far, in percent, a ratio may be from the configured one.
    pub fluctuation: Option<u32>,
    /// How far, in percent, a ratio may be from the one before it.
    pub next_value_fluctuation: u32,
}

/// The part of the price client's configuration that this client reads.
#[derive(Clone, Copy, Debug, PartialEq, Eq, Structural, Hash)]
pub struct ExternalPriceApiClientConfig {
    pub forced: Option<ForcedPriceClientConfig>,
}

/// A conversion ratio of the base token and when it was taken. Neither
/// part is zero.
#[derive(Clone, Copy, Debug, PartialEq, Eq, Structural, Hash)]
pub struct BaseTokenAPIRatio {
    pub numerator: u64,
    pub denominator: u64,
    pub ratio_timestamp: i64,
}

/// A percentage held to 100 at most.
pub open spec fn percent(value: u32) -> u32 {
    if value > 100 {
        100
    } else {
        value
    }
}

/// The configuration names a ratio with neither part missing or zero.
pub open spec fn names_ratio(config: ExternalPriceApiClientConfig) -> bool {
    &&& config.forced matches Some(forced)
    &&& forced.numerator matches Some(numerator)
    &&& numerator != 0
    &&& forced.denominator matches Some(denominator)
    &&& denominator != 0
}

/// The numerator that is reported for a drawn number: the number itself,
/// or the configured numerator where zero was drawn.
pub open spec fn numerator_for(drawn: u64, configured: u64) -> u64 {
    if drawn != 0 {
        drawn
    } else {
        configured
    }
}

/// Draws a number between `low` and `high`, both included, from
/// `rand::thread_rng()` with `Rng::gen_range`. The contract claims that
/// the number lies in that range; nothing is claimed of which one it is.
/// `gen_range` panics on an empty range, which `requires` leaves out.
#[verifier::external_body]
fn draw_between(low: u64, high: u64) -> (drawn: u64)
    requires
        low <= high,
    ensures
        low <= drawn <= high,
{
    rand::thread_rng().gen_range(low..=high)
}

/// The forced price client.
#[derive(Debug)]
pub struct ForcedPriceClient {
    ratio: BaseTokenAPIRatio,
    previous_numerator: u64,
    fluctuation: Option<u32>,
    next_value_fluctuation: u32,
}

impl ForcedPriceClient {
    /// The configured ratio.
    pub closed spec fn ratio(&self) -> BaseTokenAPIRatio {
        self.ratio
    }

    /// The numerator that was reported last.
    pub closed spec fn previous(&self) -> u64 {
        self.previous_numerator
    }

    /// How far, in percent, a ratio may be from the configured one; none
    /// if the configured ratio is reported as it is.
    pub closed spec fn fluctuation(&self) -> Option<u32> {
        self.fluctuation
    }

    /// How far, in percent, a ratio may be from the one before it.
    pub closed spec fn next_fluctuation(&self) -> u32 {
        self.next_value_fluctuation
    }

    /// Neither part of the configured ratio is zero, nor is the numerator
    /// reported last, and both percentages are 100 at most.
    pub open spec fn wf(&self) -> bool {
        &&& self.ratio().numerator != 0
        &&& self.ratio().denominator != 0
        &&& self.previous() != 0
        &&& self.next_fluctuation() <= 100
        &&& self.fluctuation() matches Some(f) ==> f <= 100
    }

    /// A client for the configured ratio, taken at the time `now`.
    /// Percentages above 100 count as 100.
    pub fn new(config: ExternalPriceApiClientConfig, now: i64) -> (client: ForcedPriceClient)
        requires
            names_ratio(config),
        ensures
            client.wf(),
            client.ratio() == (BaseTokenAPIRatio {
                numerator: config.forced.unwrap().numerator.unwrap(),
                denominator: config.forced.unwrap().denominator.unwrap(),
                ratio_timestamp: now,
            }),
            client.previous() == config.forced.unwrap().numerator.unwrap(),
            client.fluctuation() == match config.forced.unwrap().fluctuation {
                Some(f) => Some(percent(f)),
                None => None,
            },
            client.next_fluctuation() == percent(config.forced.unwrap().next_value_fluctuation),
    {
        let forced = config.forced.unwrap();
        let numerator = forced.numerator.unwrap();
        let denominator = forced.denominator.unwrap();
        let fluctuation = match forced.fluctuation {
            Some(f) => Some(
                if f > 100 {
                    100
                } else {
                    f
                },
            ),
            None => None,
        };
        let next_value_fluctuation = if forced.next_value_fluctuation > 100 {
            100
        } else {
            forced.next_value_fluctuation
        };
        ForcedPriceClient {
            ratio: BaseTokenAPIRatio { numerator, denominator, ratio_timestamp: now },
            previous_numerator: numerator,
            fluctuation,
            next_value_fluctuation,
        }
    }

    /// The configured ratio.
    pub fn forced_ratio(&self) -> (ratio: BaseTokenAPIRatio)
        ensures
            ratio == self.ratio(),
    {
        self.ratio
    }

    /// The numerator that was reported last.
    pub fn previous_numerator(&self) -> (numerator: u64)
        ensures
            numerator == self.previous(),
    {
        self.previous_numerator
    }

    /// The two percentages: the distance allowed from the configured
    /// ratio, if ratios fluctuate at all, and from the ratio before.
    pub fn fluctuations(&self) -> (percentages: (Option<u32>, u32))
        ensures
            percentages == (self.fluctuation(), self.next_fluctuation()),
    {
        (self.fluctuation, self.next_value_fluctuation)
    }

    /// The ratio for a drawn numerator. Where ratios fluctuate, it has
    /// the drawn numerator, or the configured one where zero was drawn,
    /// and the time `now`, and its numerator is remembered as the last.
    /// Where they do not, it is the configured ratio and nothing changes.
    pub fn ratio_for(&mut self, drawn: u64, now: i64) -> (ratio: BaseTokenAPIRatio)
        requires
            old(self).wf(),
        ensures
            final(self).wf(),
            final(self).ratio() == old(self).ratio(),
            final(self).fluctuation() == old(self).fluctuation(),
            final(self).next_fluctuation() == old(self).next_fluctuation(),
            match old(self).fluctuation() {
                Some(_) => {
                    &&& ratio == (BaseTokenAPIRatio {
                        numerator: numerator_for(drawn, old(self).ratio().numerator),
                        denominator: old(self).ratio().denominator,
                        ratio_timestamp: now,
                    })
                    &&& final(self).previous() == ratio.numerator
                },
                None => ratio == old(self).ratio() && final(self).previous() == old(self).previous(),
            },
    {
        match self.fluctuation {
            Some(_) => {
                let numerator = if drawn != 0 {
                    drawn
                } else {
                    self.ratio.numerator
                };
                self.previous_numerator = numerator;
                BaseTokenAPIRatio {
                    numerator,
                    denominator: self.ratio.denominator,
                    ratio_timestamp: now,
                }
            },
            None => self.ratio,
        }
    }

    /// Reports a ratio. Where ratios fluctuate, the numerator is drawn at
    /// random between `lowest` and `highest`, the bounds that the caller
    /// has worked out from the percentages; the configured numerator
    /// stands in for a drawn zero. Where they do not, the configured
    /// ratio is reported.
    pub fn fetch_ratio(&mut self, lowest: u64, highest: u64, now: i64) -> (ratio: BaseTokenAPIRatio)
        requires
            old(self).wf(),
            old(self).fluctuation() is Some ==> lowest <= highest,
        ensures
            final(self).wf(),
            final(self).ratio() == old(self).ratio(),
            final(self).fluctuation() == old(self).fluctuation(),
            final(self).next_fluctuation() == old(self).next_fluctuation(),
            match old(self).fluctuation() {
                Some(_) => {
                    &&& ratio.denominator == old(self).ratio().denominator
                    &&& ratio.ratio_timestamp == now
                    &&& ratio.numerator != 0
                    &&& lowest <= ratio.numerator <= highest || (lowest == 0 && ratio.numerator
                        == old(self).ratio().numerator)
                    &&& final(self).previous() == ratio.numerator
                },
                None => ratio == old(self).ratio() && final(self).previous() == old(self).previous(),
            },
    {
        match self.fluctuation {
            Some(_) => {
                let drawn = draw_between(lowest, highest);
                self.ratio_for(drawn, now)
            },
            None => self.ratio,
        }
    }
}

} // verus!
