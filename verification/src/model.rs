//! Device-independent domain model: environments, DPI capability sets,
//! button actions and device capabilities.

use vstd::prelude::*;

verus! {

/// The two built-in usage environments, plus imported application profiles.
#[derive(Debug, Clone, Copy, PartialEq, Eq, Hash, Structural)]
pub enum Environment {
    Office,
    Cs2,
    Custom,
}

#[derive(Debug, Clone, Copy, PartialEq, Eq, Hash, Structural)]
pub struct ProfileId(pub Environment);

/// The DPI values a sensor accepts: a stepped range or an explicit list.
#[derive(Debug, Clone, PartialEq, Eq)]
pub enum DpiValues {
    Range { min: u16, max: u16, step: u16 },
    Discrete(Vec<u16>),
}

impl DpiValues {
    /// Whether `dpi` is one of the values this capability set admits.
    pub open spec fn spec_contains(&self, dpi: u16) -> bool {
        match self {
            DpiValues::Range { min, max, step } => {
                &&& *min <= dpi <= *max
                &&& *step != 0
                &&& (dpi - *min) % (*step as int) == 0
            },
            DpiValues::Discrete(values) => values@.contains(dpi),
        }
    }

    pub fn contains(&self, dpi: u16) -> (found: bool)
        ensures
            found == self.spec_contains(dpi),
    {
        match self {
            DpiValues::Range { min, max, step } => {
                dpi >= *min && dpi <= *max && *step != 0 && (dpi - *min) % *step == 0
            },
            DpiValues::Discrete(values) => {
                let mut index: usize = 0;
                while index < values.len()
                    invariant
                        index <= values.len(),
                        self.spec_contains(dpi) == values@.contains(dpi),
                        forall|j: int| 0 <= j < index ==> values@[j] != dpi,
                    decreases values.len() - index,
                {
                    if values[index] == dpi {
                        assert(values@[index as int] == dpi);
                        return true;
                    }
                    index = index + 1;
                }
                false
            },
        }
    }
}

#[derive(Debug, Clone, PartialEq, Eq, Hash)]
pub struct PhysicalControlId(pub String);

#[derive(Debug, Clone, PartialEq, Eq, Hash)]
pub struct LogicalControlId(pub String);

#[derive(Debug, Clone, PartialEq, Eq, Structural)]
pub struct HidKey {
    pub usage_page: u16,
    pub usage: u16,
}

#[derive(Debug, Clone, PartialEq, Eq, Structural)]
pub struct HidConsumerControl {
    pub usage: u16,
}

#[derive(Debug, Clone, Copy, PartialEq, Eq, Structural)]
pub enum MappingMechanism {
    RuntimeRemap,
    OnboardCommit,
}

#[derive(Debug, Clone, PartialEq, Eq)]
pub enum ButtonAction {
    LogicalControl(LogicalControlId),
    OnboardKeyboard(HidKey),
    OnboardConsumer(HidConsumerControl),
    Disabled,
}

#[derive(Debug, Clone, PartialEq, Eq)]
pub struct ActionCapability {
    pub action: ButtonAction,
    pub mechanism: MappingMechanism,
}

#[derive(Debug, Clone, PartialEq, Eq)]
pub struct ControlCapability {
    pub physical_control: PhysicalControlId,
    pub actions: Vec<ActionCapability>,
}

#[derive(Debug, Clone, PartialEq, Eq)]
pub struct DeviceIdentity {
    pub vendor_id: u16,
    pub product_id: u16,
    pub serial: Option<String>,
}

#[derive(Debug, Clone, PartialEq, Eq)]
pub struct DeviceCapabilities {
    pub device: DeviceIdentity,
    pub dpi_values: DpiValues,
    pub controls: Vec<ControlCapability>,
    pub runtime_dpi: bool,
    pub runtime_button_mapping: bool,
    pub onboard_profile_count: u8,
}

#[derive(Debug, Clone, PartialEq, Eq)]
pub struct ButtonMapping {
    pub physical_control: PhysicalControlId,
    pub action: ButtonAction,
}

#[derive(Debug, Clone, PartialEq, Eq)]
pub struct Profile {
    pub id: ProfileId,
    pub dpi: u16,
    pub button_mappings: Vec<ButtonMapping>,
}

} // verus!
