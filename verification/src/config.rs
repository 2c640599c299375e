//! The limiter's configuration: burst capacity and refill period.

use crate::numeral::{parse_positive, positive_of};
use vstd::prelude::*;

verus! {

/// The capacity of a limiter whose configuration names none.
pub const DEFAULT_CAPACITY: u64 = 100;

/// The refill period, in seconds, of a limiter whose configuration names
/// none.
pub const DEFAULT_REFILL_PERIOD_SECONDS: u64 = 60;

/// The longest refill period, in seconds, whose milliseconds can be counted.
pub const MAX_REFILL_PERIOD_SECONDS: u64 = 18_446_744_073_709_551;

/// The setting that a configuration error is about.
#[derive(Clone, Copy, Debug, PartialEq, Eq, Structural)]
pub enum Setting {
    Capacity,
    RefillPeriod,
}

/// Why a configuration was rejected.
#[derive(Clone, Copy, Debug, PartialEq, Eq, Structural)]
pub enum ConfigError {
    /// The text is not a decimal numeral.
    NotNumeric(Setting),
    /// The value is zero or negative.
    NotPositive(Setting),
    /// The value does not fit the limiter's counters.
    TooLarge(Setting),
}

/// A validated configuration, shared by all keys: both values are strictly
/// positive, so the refill rate `capacity / refill_period` is always defined.
#[derive(Clone, Copy, Debug, PartialEq, Eq, Structural)]
pub struct Config {
    capacity: u64,
    refill_period_ms: u64,
}

/// The text of a setting that is present.
pub open spec fn text_of(setting: Option<&[u8]>) -> Option<Seq<u8>> {
    match setting {
        None => None,
        Some(text) => Some(text@),
    }
}

/// The value of one setting: its default where the text is absent, else
/// what the text gives.
pub open spec fn setting_value(
    text: Option<Seq<u8>>,
    default: u64,
    limit: u64,
    setting: Setting,
) -> Result<u64, ConfigError> {
    match text {
        None => Ok(default),
        Some(t) => positive_of(t, limit, setting),
    }
}

/// The capacity and the refill period in milliseconds that the two texts
/// configure, or the first error among them, the refill period's first.
pub open spec fn settings_of(
    capacity: Option<Seq<u8>>,
    refill_period_seconds: Option<Seq<u8>>,
) -> Result<(u64, u64), ConfigError> {
    match setting_value(
        refill_period_seconds,
        DEFAULT_REFILL_PERIOD_SECONDS,
        MAX_REFILL_PERIOD_SECONDS,
        Setting::RefillPeriod,
    ) {
        Err(e) => Err(e),
        Ok(seconds) => match setting_value(
            capacity,
            DEFAULT_CAPACITY,
            u64::MAX,
            Setting::Capacity,
        ) {
            Err(e) => Err(e),
            Ok(tokens) => Ok((tokens, (seconds * 1000) as u64)),
        },
    }
}

impl Config {
    #[verifier::type_invariant]
    spec fn positive(self) -> bool {
        self.capacity > 0 && self.refill_period_ms > 0
    }

    /// The most tokens a bucket holds: the burst size.
    pub closed spec fn spec_capacity(&self) -> u64 {
        self.capacity
    }

    /// The milliseconds in which an empty bucket becomes full.
    pub closed spec fn spec_refill_period_ms(&self) -> u64 {
        self.refill_period_ms
    }

    /// Validity of a configuration; every `Config` that executable code holds
    /// satisfies it.
    pub open spec fn wf(&self) -> bool {
        self.spec_capacity() > 0 && self.spec_refill_period_ms() > 0
    }

    /// Accepts exactly the strictly positive pairs. A zero refill period is
    /// reported before a zero capacity.
    pub fn new(capacity: u64, refill_period_ms: u64) -> (r: Result<Config, ConfigError>)
        ensures
            refill_period_ms == 0 ==> r == Err::<Config, ConfigError>(
                ConfigError::NotPositive(Setting::RefillPeriod),
            ),
            refill_period_ms > 0 && capacity == 0 ==> r == Err::<Config, ConfigError>(
                ConfigError::NotPositive(Setting::Capacity),
            ),
            refill_period_ms > 0 && capacity > 0 ==> r is Ok && r->Ok_0.wf()
                && r->Ok_0.spec_capacity() == capacity && r->Ok_0.spec_refill_period_ms()
                == refill_period_ms,
    {
        if refill_period_ms == 0 {
            Err(ConfigError::NotPositive(Setting::RefillPeriod))
        } else if capacity == 0 {
            Err(ConfigError::NotPositive(Setting::Capacity))
        } else {
            Ok(Config { capacity, refill_period_ms })
        }
    }

    /// Builds the configuration from the text of its two settings, as the
    /// environment gives them: the capacity in tokens and the refill period
    /// in seconds. A setting that is absent takes its default. The refill
    /// period is read first, so its error is the one reported when both
    /// settings are wrong.
    pub fn from_text(capacity: Option<&[u8]>, refill_period_seconds: Option<&[u8]>) -> (r: Result<
        Config,
        ConfigError,
    >)
        ensures
            match settings_of(text_of(capacity), text_of(refill_period_seconds)) {
                Ok((tokens, millis)) => r is Ok && r->Ok_0.wf() && r->Ok_0.spec_capacity()
                    == tokens && r->Ok_0.spec_refill_period_ms() == millis,
                Err(e) => r == Err::<Config, ConfigError>(e),
            },
    {
        let seconds: u64 = match refill_period_seconds {
            None => DEFAULT_REFILL_PERIOD_SECONDS,
            Some(text) => match parse_positive(
                text,
                MAX_REFILL_PERIOD_SECONDS,
                Setting::RefillPeriod,
            ) {
                Ok(n) => n,
                Err(e) => {
                    return Err(e);
                },
            },
        };
        let tokens: u64 = match capacity {
            None => DEFAULT_CAPACITY,
            Some(text) => match parse_positive(text, u64::MAX, Setting::Capacity) {
                Ok(n) => n,
                Err(e) => {
                    return Err(e);
                },
            },
        };
        Ok(Config { capacity: tokens, refill_period_ms: seconds * 1000 })
    }

    /// The most tokens a bucket holds, never zero.
    #[verifier::when_used_as_spec(spec_capacity)]
    pub fn capacity(&self) -> (c: u64)
        ensures
            c == self.spec_capacity(),
            c > 0,
    {
        proof {
            use_type_invariant(self);
        }
        self.capacity
    }

    /// The milliseconds in which an empty bucket becomes full, never zero.
    #[verifier::when_used_as_spec(spec_refill_period_ms)]
    pub fn refill_period_ms(&self) -> (p: u64)
        ensures
            p == self.spec_refill_period_ms(),
            p > 0,
    {
        proof {
            use_type_invariant(self);
        }
        self.refill_period_ms
    }
}

} // verus!
