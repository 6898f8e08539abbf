//! What a miner backend offers: its device information, the expected
//! hardware derived from it, and which controls and configurations it
//! supports.  The requests themselves run outside the library; these traits
//! carry the decisions that do not wait on a miner.
use vstd::prelude::*;
use crate::data::{DeviceInfo, MinerHardwareV, chip_sum};
use crate::fields::{DataField, DataLocation};

verus! {

/// The number of boards a hardware description expects, when it fits in `u8`.
pub open spec fn expected_board_count(hw: MinerHardwareV) -> Option<u8> {
    match hw.boards {
        Some(b) => if b.len() <= u8::MAX {
            Some(b.len() as u8)
        } else {
            None
        },
        None => None,
    }
}

/// A backend that knows where a miner reports each data field.
pub trait GetDataLocations {
    /// The locations of a field's value: commands and JSON pointers into
    /// their answers.
    fn get_locations(&self, data_field: DataField) -> Vec<DataLocation>;
}

/// A backend that knows the device it talks to.
pub trait GetDeviceInfo {
    /// The hardware the device is expected to have.
    spec fn expected_hardware(&self) -> MinerHardwareV;

    /// Information about the miner.
    fn get_device_info(&self) -> (r: DeviceInfo)
        ensures
            r.hardware@ == self.expected_hardware(),
    ;
}

/// The expected number of hashboards.
pub trait GetExpectedHashboards: GetDeviceInfo {
    /// The board count of the device's hardware description.
    fn get_expected_hashboards(&self) -> (r: Option<u8>)
        ensures
            r == expected_board_count(self.expected_hardware()),
    {
        self.get_device_info().hardware.board_count()
    }
}

impl<T: GetDeviceInfo> GetExpectedHashboards for T {}

/// The expected number of chips.
pub trait GetExpectedChips: GetDeviceInfo {
    /// The chip total of the device's hardware description.
    fn get_expected_chips(&self) -> (r: Option<u16>)
        requires
            self.expected_hardware().boards matches Some(b) ==> chip_sum(b) <= u16::MAX,
        ensures
            r == match self.expected_hardware().boards {
                Some(b) => Some(chip_sum(b) as u16),
                None => None,
            },
    {
        self.get_device_info().hardware.total_chips()
    }
}

impl<T: GetDeviceInfo> GetExpectedChips for T {}

/// The expected number of fans.
pub trait GetExpectedFans: GetDeviceInfo {
    /// The fan count of the device's hardware description.
    fn get_expected_fans(&self) -> (r: Option<u8>)
        ensures
            r == self.expected_hardware().fans,
    {
        self.get_device_info().hardware.fans
    }
}

impl<T: GetDeviceInfo> GetExpectedFans for T {}

/// Switching the locate (fault) light.
pub trait SetFaultLight {
    /// Whether the backend can switch the light.
    fn supports_set_fault_light(&self) -> bool;
}

/// Limiting the power draw.
pub trait SetPowerLimit {
    /// Whether the backend can limit the power draw.
    fn supports_set_power_limit(&self) -> bool;
}

/// Restarting the miner.
pub trait Restart {
    /// Whether the backend can restart the miner.
    fn supports_restart(&self) -> bool;
}

/// Pausing mining.
pub trait Pause {
    /// Whether the backend can pause mining.
    fn supports_pause(&self) -> bool;
}

/// Resuming mining.
pub trait Resume {
    /// Whether the backend can resume mining.
    fn supports_resume(&self) -> bool;
}

/// Changing the web password.
pub trait ChangePassword {
    /// Whether the backend can change the password.
    fn supports_change_password(&self) -> bool;
}

/// Resetting the miner to factory settings.
pub trait FactoryReset {
    /// Whether the backend can reset the miner.
    fn supports_factory_reset(&self) -> bool;
}

/// Reading the miner's logs.
pub trait ReadLogs {
    /// Whether the backend can read the logs.
    fn supports_read_logs(&self) -> bool;
}

/// Upgrading the firmware.
pub trait UpgradeFirmware {
    /// Whether the backend can upgrade the firmware; not unless it says so.
    fn supports_upgrade_firmware(&self) -> bool {
        false
    }
}

/// All the controls of a miner.
pub trait HasMinerControl:
    SetFaultLight + SetPowerLimit + Restart + Resume + Pause + ChangePassword + FactoryReset + ReadLogs {

}

impl<
    T: SetFaultLight + SetPowerLimit + Restart + Resume + Pause + ChangePassword + FactoryReset + ReadLogs,
> HasMinerControl for T {

}

/// Reading and writing the pool configuration.
pub trait SupportsPoolsConfig {
    /// Whether the backend handles pool configurations.
    fn supports_pools_config(&self) -> bool;
}

/// Reading and writing the scaling configuration.
pub trait SupportsScalingConfig {
    /// Whether the backend handles scaling configurations.
    fn supports_scaling_config(&self) -> bool;
}

/// Reading and writing the tuning configuration.
pub trait SupportsTuningConfig {
    /// Whether the backend handles tuning configurations; not unless it says so.
    fn supports_tuning_config(&self) -> bool {
        false
    }
}

/// Reading and writing the fan configuration.
pub trait SupportsFanConfig {
    /// Whether the backend handles fan configurations; not unless it says so.
    fn supports_fan_config(&self) -> bool {
        false
    }
}

/// All the configurations of a miner.
pub trait SupportsConfigs:
    SupportsPoolsConfig + SupportsScalingConfig + SupportsTuningConfig + SupportsFanConfig {

}

impl<
    T: SupportsPoolsConfig + SupportsScalingConfig + SupportsTuningConfig + SupportsFanConfig,
> SupportsConfigs for T {

}

} // verus!
