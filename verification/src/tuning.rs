//! Tuning targets and the tuning configuration written to miners.
//!
//! Power limits and hash rates are floating-point quantities; the library
//! carries them by the bit pattern of their 64-bit value and never computes
//! with them.
use vstd::prelude::*;
use crate::data::MiningMode;

verus! {

/// Firmware tuning target reported by a miner or requested by configuration.
#[derive(Debug, Clone, Copy, PartialEq, Eq, Structural)]
pub enum TuningTarget {
    /// Target a power limit: watts, by the bits of their `f64` value.
    Power(u64),
    /// Target a hash rate: terahashes per second, by the bits of their `f64`
    /// value.
    HashRate(u64),
    /// Target a named mining mode.
    MiningMode(MiningMode),
}

impl TuningTarget {
    /// A power target (watts by the bits of their `f64` value).
    pub fn from_watts(watts_bits: u64) -> (r: TuningTarget)
        ensures
            r == TuningTarget::Power(watts_bits),
    {
        TuningTarget::Power(watts_bits)
    }
}

/// Desired firmware tuning target, with an optional firmware-specific
/// algorithm or profile name.
#[derive(Debug, Clone)]
pub struct TuningConfig {
    /// Tuning target requested from the firmware.
    pub target: TuningTarget,
    /// Optional firmware-specific tuning algorithm/profile.
    pub algorithm: Option<String>,
}

/// The name of a target's kind.
pub open spec fn target_variant(t: TuningTarget) -> Seq<char> {
    match t {
        TuningTarget::Power(_) => "power"@,
        TuningTarget::HashRate(_) => "hashrate"@,
        TuningTarget::MiningMode(_) => "mode"@,
    }
}

/// The text of an optional string.
pub open spec fn opt_string(s: Option<String>) -> Option<Seq<char>> {
    match s {
        Some(t) => Some(t@),
        None => None,
    }
}

impl TuningConfig {
    /// A tuning config for a target, without an algorithm.
    pub fn new(target: TuningTarget) -> (r: TuningConfig)
        ensures
            r.target == target,
            r.algorithm is None,
    {
        TuningConfig { target, algorithm: None }
    }

    /// The same config with a firmware-specific algorithm/profile name.
    pub fn with_algorithm(self, algorithm: String) -> (r: TuningConfig)
        ensures
            r.target == self.target,
            opt_string(r.algorithm) == Some(algorithm@),
    {
        TuningConfig { target: self.target, algorithm: Some(algorithm) }
    }

    /// `power`, `hashrate` or `mode`, after the target's kind.
    pub fn variant(&self) -> (r: &'static str)
        ensures
            r@ == target_variant(self.target),
    {
        match self.target {
            TuningTarget::Power(_) => "power",
            TuningTarget::HashRate(_) => "hashrate",
            TuningTarget::MiningMode(_) => "mode",
        }
    }

    /// The target power (bits of watts), when the target is a power.
    pub fn target_watts(&self) -> (r: Option<u64>)
        ensures
            r == match self.target {
                TuningTarget::Power(w) => Some(w),
                _ => None,
            },
    {
        match self.target {
            TuningTarget::Power(w) => Some(w),
            _ => None,
        }
    }

    /// The target hash rate (bits of its value), when the target is one.
    pub fn target_hashrate(&self) -> (r: Option<u64>)
        ensures
            r == match self.target {
                TuningTarget::HashRate(h) => Some(h),
                _ => None,
            },
    {
        match self.target {
            TuningTarget::HashRate(h) => Some(h),
            _ => None,
        }
    }

    /// The target mining mode, when the target is one.
    pub fn target_mode(&self) -> (r: Option<MiningMode>)
        ensures
            r == match self.target {
                TuningTarget::MiningMode(m) => Some(m),
                _ => None,
            },
    {
        match self.target {
            TuningTarget::MiningMode(m) => Some(m),
            _ => None,
        }
    }

    /// The algorithm/profile name, when there is one.
    pub fn algorithm(&self) -> (r: Option<&str>)
        ensures
            match r {
                Some(a) => opt_string(self.algorithm) == Some(a@),
                None => self.algorithm is None,
            },
    {
        match &self.algorithm {
            Some(a) => Some(a.as_str()),
            None => None,
        }
    }
}

} // verus!
