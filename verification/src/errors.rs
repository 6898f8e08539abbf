//! Errors of the library's configuration logic, each with the text it is
//! reported by.
use vstd::prelude::*;
use crate::text::{push_text, to_owned_text};

verus! {

/// The kind of number a tuning target gives.
#[derive(Debug, Clone, Copy, PartialEq, Eq, Structural)]
pub enum TargetKind {
    /// Watts.
    Power,
    /// A hash rate.
    Hashrate,
}

/// Why a configuration could not be read or built.
#[derive(Debug, PartialEq, Eq)]
pub enum ConfigError {
    /// A MaraFW pool group that must carry a quota has quota 0.
    ZeroQuota,
    /// An Auradine pool update got no pool.
    NoPools,
    /// No ePIC pool group with at least one pool was given.
    NoNonEmptyGroups,
    /// More pool groups were given than ePIC supports.
    TooManyGroups,
    /// The Antminer configuration has no mining mode field.
    NoMiningModeField,
    /// The MaraFW configuration has no `/mode/work-mode-selector`.
    NoWorkModeSelector,
    /// No mining mode could be read from the Antminer configuration.
    NoMiningMode,
    /// A power target, which the Antminer stock firmware does not support.
    PowerTargetUnsupported,
    /// A hash-rate target, which the Antminer stock firmware does not
    /// support.
    HashrateTargetUnsupported,
    /// A mining-mode target, which ePIC PowerPlay does not support.
    MiningModeTargetUnsupported,
    /// There is no Antminer fan configuration.
    NoFanConfig,
    /// No scaling configuration could be read from the ePIC tuning data.
    NoScalingConfig,
    /// There is no ePIC fan mode.
    NoFanMode,
    /// The ePIC automatic fan mode has no target temperature.
    NoTargetTemperature,
    /// The ePIC fan mode is neither automatic nor manual.
    UnknownFanMode,
    /// A text that names no MaraFW work mode (trimmed and lower-cased).
    UnknownWorkMode(String),
    /// A perpetual-tune algorithm name that ePIC PowerPlay does not know.
    UnsupportedAlgorithm(String),
    /// The MaraFW configuration is not a JSON object.
    NotAnObject,
    /// A hash-rate target was given without a tuning algorithm.
    MissingAlgorithm,
    /// A hash-rate target was given with the PowerTune algorithm.
    AlgorithmMismatch,
    /// The ePIC request needs a scaling configuration and got none.
    MissingScaling,
    /// A numeric target is not finite.
    TargetNotFinite(TargetKind),
    /// A numeric target is negative.
    TargetNegative(TargetKind),
    /// A numeric target rounds to more than `u32::MAX`.
    TargetTooLarge(TargetKind),
}

/// The value of a configuration error: its texts as character sequences.
pub enum ConfigErrorV {
    ZeroQuota,
    NoPools,
    NoNonEmptyGroups,
    TooManyGroups,
    NoMiningModeField,
    NoWorkModeSelector,
    NoMiningMode,
    PowerTargetUnsupported,
    HashrateTargetUnsupported,
    MiningModeTargetUnsupported,
    NoFanConfig,
    NoScalingConfig,
    NoFanMode,
    NoTargetTemperature,
    UnknownFanMode,
    UnknownWorkMode(Seq<char>),
    UnsupportedAlgorithm(Seq<char>),
    NotAnObject,
    MissingAlgorithm,
    AlgorithmMismatch,
    MissingScaling,
    TargetNotFinite(TargetKind),
    TargetNegative(TargetKind),
    TargetTooLarge(TargetKind),
}

impl View for ConfigError {
    type V = ConfigErrorV;

    open spec fn view(&self) -> ConfigErrorV {
        match self {
            ConfigError::ZeroQuota => ConfigErrorV::ZeroQuota,
            ConfigError::NoPools => ConfigErrorV::NoPools,
            ConfigError::NoNonEmptyGroups => ConfigErrorV::NoNonEmptyGroups,
            ConfigError::TooManyGroups => ConfigErrorV::TooManyGroups,
            ConfigError::NoMiningModeField => ConfigErrorV::NoMiningModeField,
            ConfigError::NoWorkModeSelector => ConfigErrorV::NoWorkModeSelector,
            ConfigError::NoMiningMode => ConfigErrorV::NoMiningMode,
            ConfigError::PowerTargetUnsupported => ConfigErrorV::PowerTargetUnsupported,
            ConfigError::HashrateTargetUnsupported => ConfigErrorV::HashrateTargetUnsupported,
            ConfigError::MiningModeTargetUnsupported => ConfigErrorV::MiningModeTargetUnsupported,
            ConfigError::NoFanConfig => ConfigErrorV::NoFanConfig,
            ConfigError::NoScalingConfig => ConfigErrorV::NoScalingConfig,
            ConfigError::NoFanMode => ConfigErrorV::NoFanMode,
            ConfigError::NoTargetTemperature => ConfigErrorV::NoTargetTemperature,
            ConfigError::UnknownFanMode => ConfigErrorV::UnknownFanMode,
            ConfigError::UnknownWorkMode(t) => ConfigErrorV::UnknownWorkMode(t@),
            ConfigError::UnsupportedAlgorithm(t) => ConfigErrorV::UnsupportedAlgorithm(t@),
            ConfigError::NotAnObject => ConfigErrorV::NotAnObject,
            ConfigError::MissingAlgorithm => ConfigErrorV::MissingAlgorithm,
            ConfigError::AlgorithmMismatch => ConfigErrorV::AlgorithmMismatch,
            ConfigError::MissingScaling => ConfigErrorV::MissingScaling,
            ConfigError::TargetNotFinite(k) => ConfigErrorV::TargetNotFinite(*k),
            ConfigError::TargetNegative(k) => ConfigErrorV::TargetNegative(*k),
            ConfigError::TargetTooLarge(k) => ConfigErrorV::TargetTooLarge(*k),
        }
    }
}

/// A result with its error taken by its value.
pub open spec fn err_v<T>(r: Result<T, ConfigError>) -> Result<T, ConfigErrorV> {
    match r {
        Ok(x) => Ok(x),
        Err(e) => Err(e@),
    }
}

/// How a target kind is named in error texts.
pub open spec fn target_label(k: TargetKind) -> Seq<char> {
    match k {
        TargetKind::Power => "power"@,
        TargetKind::Hashrate => "hashrate"@,
    }
}

/// The text a configuration error is reported by.
pub open spec fn config_error_text(e: ConfigErrorV) -> Seq<char> {
    match e {
        ConfigErrorV::ZeroQuota => "Each MaraFW pool group must have a quota greater than 0"@,
        ConfigErrorV::NoPools => "updatepools requires at least one pool"@,
        ConfigErrorV::NoNonEmptyGroups => "No non-empty pool groups provided"@,
        ConfigErrorV::TooManyGroups => "ePIC supports up to 3 pool groups"@,
        ConfigErrorV::NoMiningModeField => "No Antminer mining mode field found in miner config"@,
        ConfigErrorV::NoWorkModeSelector => "MaraFW miner_config missing /mode/work-mode-selector"@,
        ConfigErrorV::NoMiningMode => "No Antminer mining mode found in tuning config"@,
        ConfigErrorV::PowerTargetUnsupported => "Power tuning target is not supported on Antminer stock firmware"@,
        ConfigErrorV::HashrateTargetUnsupported => "Hashrate tuning target is not supported on Antminer stock firmware"@,
        ConfigErrorV::MiningModeTargetUnsupported => "MiningMode tuning target is not supported on ePIC PowerPlay"@,
        ConfigErrorV::NoFanConfig => "No fan config data"@,
        ConfigErrorV::NoScalingConfig => "Failed to parse scaling config from summary perpetual tune data"@,
        ConfigErrorV::NoFanMode => "No fan mode data in summary response"@,
        ConfigErrorV::NoTargetTemperature => "Missing Auto/Target Temperature in fan mode data"@,
        ConfigErrorV::UnknownFanMode => "Failed to parse fan mode as Auto or Manual"@,
        ConfigErrorV::UnknownWorkMode(t) => "unknown Mara work mode: "@ + t,
        ConfigErrorV::UnsupportedAlgorithm(t) => "Unsupported perpetual tune algorithm '"@ + t
            + "' for ePIC PowerPlay"@,
        ConfigErrorV::NotAnObject => "MaraFW miner_config response was not a JSON object"@,
        ConfigErrorV::MissingAlgorithm => "TuningConfig.algorithm is required for hashrate tuning"@,
        ConfigErrorV::AlgorithmMismatch => "Hashrate tuning target cannot be used with PowerTune algorithm"@,
        ConfigErrorV::MissingScaling => "ScalingConfig is required for ePIC PowerPlay"@,
        ConfigErrorV::TargetNotFinite(k) => target_label(k) + " target is not finite"@,
        ConfigErrorV::TargetNegative(k) => target_label(k) + " target must be non-negative"@,
        ConfigErrorV::TargetTooLarge(k) => target_label(k) + " target exceeds maximum supported value"@,
    }
}

impl TargetKind {
    /// How this kind is named in error texts (see [`target_label`]).
    pub fn label(&self) -> (r: &'static str)
        ensures
            r@ == target_label(*self),
    {
        match self {
            TargetKind::Power => "power",
            TargetKind::Hashrate => "hashrate",
        }
    }
}

impl ConfigError {
    /// The text this error is reported by (its `Display`; see
    /// [`config_error_text`]).
    pub fn to_text(&self) -> (r: String)
        ensures
            r@ == config_error_text(self@),
    {
        match self {
            ConfigError::ZeroQuota => to_owned_text("Each MaraFW pool group must have a quota greater than 0"),
            ConfigError::NoPools => to_owned_text("updatepools requires at least one pool"),
            ConfigError::NoNonEmptyGroups => to_owned_text("No non-empty pool groups provided"),
            ConfigError::TooManyGroups => to_owned_text("ePIC supports up to 3 pool groups"),
            ConfigError::NoMiningModeField => to_owned_text("No Antminer mining mode field found in miner config"),
            ConfigError::NoWorkModeSelector => to_owned_text("MaraFW miner_config missing /mode/work-mode-selector"),
            ConfigError::NoMiningMode => to_owned_text("No Antminer mining mode found in tuning config"),
            ConfigError::PowerTargetUnsupported => to_owned_text(
                "Power tuning target is not supported on Antminer stock firmware",
            ),
            ConfigError::HashrateTargetUnsupported => to_owned_text(
                "Hashrate tuning target is not supported on Antminer stock firmware",
            ),
            ConfigError::MiningModeTargetUnsupported => to_owned_text(
                "MiningMode tuning target is not supported on ePIC PowerPlay",
            ),
            ConfigError::NoFanConfig => to_owned_text("No fan config data"),
            ConfigError::NoScalingConfig => to_owned_text(
                "Failed to parse scaling config from summary perpetual tune data",
            ),
            ConfigError::NoFanMode => to_owned_text("No fan mode data in summary response"),
            ConfigError::NoTargetTemperature => to_owned_text("Missing Auto/Target Temperature in fan mode data"),
            ConfigError::UnknownFanMode => to_owned_text("Failed to parse fan mode as Auto or Manual"),
            ConfigError::UnknownWorkMode(t) => {
                let mut s = to_owned_text("unknown Mara work mode: ");
                push_text(&mut s, t.as_str());
                s
            },
            ConfigError::UnsupportedAlgorithm(t) => {
                let mut s = to_owned_text("Unsupported perpetual tune algorithm '");
                push_text(&mut s, t.as_str());
                push_text(&mut s, "' for ePIC PowerPlay");
                s
            },
            ConfigError::NotAnObject => to_owned_text("MaraFW miner_config response was not a JSON object"),
            ConfigError::MissingAlgorithm => to_owned_text("TuningConfig.algorithm is required for hashrate tuning"),
            ConfigError::AlgorithmMismatch => to_owned_text(
                "Hashrate tuning target cannot be used with PowerTune algorithm",
            ),
            ConfigError::MissingScaling => to_owned_text("ScalingConfig is required for ePIC PowerPlay"),
            ConfigError::TargetNotFinite(k) => {
                let mut s = to_owned_text(k.label());
                push_text(&mut s, " target is not finite");
                s
            },
            ConfigError::TargetNegative(k) => {
                let mut s = to_owned_text(k.label());
                push_text(&mut s, " target must be non-negative");
                s
            },
            ConfigError::TargetTooLarge(k) => {
                let mut s = to_owned_text(k.label());
                push_text(&mut s, " target exceeds maximum supported value");
                s
            },
        }
    }
}

} // verus!
