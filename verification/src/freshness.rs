//! Freshness settings: how often the board re-polls GitHub in the background.
//!
//! Each cadence is a small validated value object: construction clamps the
//! requested number of seconds into an allowed band.

use std::time::Duration;

use vstd::prelude::*;

verus! {

/// `secs` clamped into `[lo, hi]` (`Ord::clamp`).
pub open spec fn clamp(secs: u64, lo: u64, hi: u64) -> u64 {
    if secs < lo {
        lo
    } else if secs > hi {
        hi
    } else {
        secs
    }
}

/// The `Duration` of exactly `secs` whole seconds.
pub uninterp spec fn secs_duration(secs: u64) -> Duration;

/// Calls `Duration::from_secs`, which builds the duration of `secs` whole
/// seconds; that value depends on `secs` alone.
#[verifier::external_body]
fn duration_from_secs(secs: u64) -> (d: Duration)
    ensures
        d == secs_duration(secs),
{
    Duration::from_secs(secs)
}

/// How long the board waits between background refreshes.
///
/// Built through [`PollInterval::from_secs`], which clamps to
/// `[MIN_SECS, MAX_SECS]` so a misconfiguration can neither hammer GitHub nor
/// let the board drift stale. The default is one minute.
#[derive(Clone, Copy, Debug, PartialEq, Eq, Structural)]
pub struct PollInterval {
    secs: u64,
}

impl PollInterval {
    /// The shortest allowed interval, protecting the GitHub rate limit.
    pub const MIN_SECS: u64 = 10;
    /// The longest allowed interval, so the board cannot drift arbitrarily stale.
    pub const MAX_SECS: u64 = 3600;
    /// The default cadence: one minute.
    pub const DEFAULT_SECS: u64 = 60;

    /// The interval in seconds, as a specification value.
    pub closed spec fn secs(self) -> u64 {
        self.secs
    }

    /// A poll interval of `secs` seconds, clamped to `[MIN_SECS, MAX_SECS]`.
    pub fn from_secs(secs: u64) -> (p: PollInterval)
        ensures
            p.secs() == clamp(secs, 10, 3600),
    {
        let clamped = if secs < Self::MIN_SECS {
            Self::MIN_SECS
        } else if secs > Self::MAX_SECS {
            Self::MAX_SECS
        } else {
            secs
        };
        PollInterval { secs: clamped }
    }

    /// The interval in whole seconds; it always lies in the allowed band.
    pub fn as_secs(&self) -> (s: u64)
        ensures
            s == self.secs(),
            10 <= s <= 3600,
    {
        proof {
            use_type_invariant(self);
        }
        self.secs
    }

    /// The interval as a [`Duration`], for handing to a timer.
    pub fn as_duration(&self) -> (d: Duration)
        ensures
            d == secs_duration(self.secs()),
    {
        duration_from_secs(self.secs)
    }

    #[verifier::type_invariant]
    spec fn in_band(self) -> bool {
        10 <= self.secs <= 3600
    }
}

impl Default for PollInterval {
    fn default() -> (p: Self)
        ensures
            p.secs() == 60,
    {
        Self::from_secs(Self::DEFAULT_SECS)
    }
}

/// How long the board waits between full-load reconcile passes.
///
/// Built through [`ReconcileInterval::from_secs`], which clamps to
/// `[MIN_SECS, MAX_SECS]`. The default is five minutes.
#[derive(Clone, Copy, Debug, PartialEq, Eq, Structural)]
pub struct ReconcileInterval {
    secs: u64,
}

impl ReconcileInterval {
    /// Shortest reconcile cadence.
    pub const MIN_SECS: u64 = 60;
    /// Longest reconcile cadence.
    pub const MAX_SECS: u64 = 14400;
    /// Default cadence: five minutes.
    pub const DEFAULT_SECS: u64 = 300;

    /// The interval in seconds, as a specification value.
    pub closed spec fn secs(self) -> u64 {
        self.secs
    }

    /// A reconcile interval of `secs` seconds, clamped to `[MIN_SECS, MAX_SECS]`.
    pub fn from_secs(secs: u64) -> (p: ReconcileInterval)
        ensures
            p.secs() == clamp(secs, 60, 14400),
    {
        let clamped = if secs < Self::MIN_SECS {
            Self::MIN_SECS
        } else if secs > Self::MAX_SECS {
            Self::MAX_SECS
        } else {
            secs
        };
        ReconcileInterval { secs: clamped }
    }

    /// The interval in whole seconds; it always lies in the allowed band.
    pub fn as_secs(&self) -> (s: u64)
        ensures
            s == self.secs(),
            60 <= s <= 14400,
    {
        proof {
            use_type_invariant(self);
        }
        self.secs
    }

    /// The interval as a [`Duration`], for handing to a timer.
    pub fn as_duration(&self) -> (d: Duration)
        ensures
            d == secs_duration(self.secs()),
    {
        duration_from_secs(self.secs)
    }

    #[verifier::type_invariant]
    spec fn in_band(self) -> bool {
        60 <= self.secs <= 14400
    }
}

impl Default for ReconcileInterval {
    fn default() -> (p: Self)
        ensures
            p.secs() == 300,
    {
        Self::from_secs(Self::DEFAULT_SECS)
    }
}

/// Clamping is idempotent and keeps in-band values: re-building an interval
/// from its own seconds gives the same interval, and any value already in the
/// band is kept as-is.
pub proof fn law_clamp_keeps_band(secs: u64, lo: u64, hi: u64)
    requires
        lo <= hi,
    ensures
        lo <= clamp(secs, lo, hi) <= hi,
        clamp(clamp(secs, lo, hi), lo, hi) == clamp(secs, lo, hi),
        lo <= secs <= hi ==> clamp(secs, lo, hi) == secs,
{
}

} // verus!
