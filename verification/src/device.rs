//! The device abstraction that profile application is written against.

use vstd::prelude::*;

use crate::hidpp::text;
use crate::model::{DeviceCapabilities, DeviceIdentity, Profile};

verus! {

#[derive(Debug, Clone, PartialEq, Eq, Structural)]
pub struct DeviceState {
    pub current_dpi: Option<u16>,
}

#[derive(Debug, Clone, PartialEq, Eq, Structural)]
pub struct ApplyReport {
    pub dpi_applied: bool,
    pub button_mappings_applied: bool,
}

#[derive(Debug, Clone, PartialEq, Eq)]
pub enum DeviceError {
    Unsupported,
    Disconnected,
    Busy,
    Protocol(String),
}

impl DeviceError {
    /// The user-facing rendering of the error.
    pub fn message(&self) -> (m: String)
        ensures
            match self {
                DeviceError::Unsupported => m@ == "设备或功能不受支持"@,
                DeviceError::Disconnected => m@ == "设备已断开"@,
                DeviceError::Busy => m@ == "设备忙"@,
                DeviceError::Protocol(message) => m@ == "HID++ 协议错误："@ + message@,
            },
    {
        match self {
            DeviceError::Unsupported => text("设备或功能不受支持"),
            DeviceError::Disconnected => text("设备已断开"),
            DeviceError::Busy => text("设备忙"),
            DeviceError::Protocol(message) => {
                let mut m = text("HID++ 协议错误：");
                m.append(message.as_str());
                m
            },
        }
    }
}

/// A mouse that can report its state and take a profile.
pub trait MouseDevice: Send {
    fn identity(&self) -> &DeviceIdentity;

    fn capabilities(&self) -> &DeviceCapabilities;

    fn read_state(&mut self) -> Result<DeviceState, DeviceError>;

    fn apply_profile(&mut self, profile: &Profile) -> Result<ApplyReport, DeviceError>;
}

} // verus!
