//! Error kinds shared by the whole library.

use vstd::prelude::*;

verus! {

/// Every failure the library reports.  Each kind carries a human-readable
/// message describing the concrete circumstance.
#[derive(Debug)]
pub enum PadSwitchError {
    /// A required external driver (hiding filter or virtual bus) is absent.
    DriverNotInstalled(String),
    /// A device id or instance path did not match any known device.
    DeviceNotFound(String),
    /// The hiding filter driver rejected an operation.
    HidHide(String),
    /// The virtual gamepad bus rejected an operation.
    ViGEm(String),
    /// The forwarding engine could not be started or driven.
    Forwarding(String),
    /// The configuration store is unusable or inconsistent.
    Config(String),
    /// The requested feature does not exist on this platform.
    PlatformNotSupported(String),
    /// An input/output failure outside the other kinds.
    Io(String),
    /// A serialization failure while reading or writing persisted state.
    Json(String),
    /// A generic or access-denied operating-system failure.
    Platform(String),
}

impl Clone for PadSwitchError {
    /// An exact copy.
    fn clone(&self) -> (r: Self)
        ensures
            r == *self,
    {
        match self {
            PadSwitchError::DriverNotInstalled(m) => PadSwitchError::DriverNotInstalled(m.clone()),
            PadSwitchError::DeviceNotFound(m) => PadSwitchError::DeviceNotFound(m.clone()),
            PadSwitchError::HidHide(m) => PadSwitchError::HidHide(m.clone()),
            PadSwitchError::ViGEm(m) => PadSwitchError::ViGEm(m.clone()),
            PadSwitchError::Forwarding(m) => PadSwitchError::Forwarding(m.clone()),
            PadSwitchError::Config(m) => PadSwitchError::Config(m.clone()),
            PadSwitchError::PlatformNotSupported(m) => PadSwitchError::PlatformNotSupported(
                m.clone(),
            ),
            PadSwitchError::Io(m) => PadSwitchError::Io(m.clone()),
            PadSwitchError::Json(m) => PadSwitchError::Json(m.clone()),
            PadSwitchError::Platform(m) => PadSwitchError::Platform(m.clone()),
        }
    }
}

impl PadSwitchError {
    /// The message carried by the error, whatever its kind.
    pub open spec fn spec_detail(&self) -> Seq<char> {
        match self {
            PadSwitchError::DriverNotInstalled(m) => m@,
            PadSwitchError::DeviceNotFound(m) => m@,
            PadSwitchError::HidHide(m) => m@,
            PadSwitchError::ViGEm(m) => m@,
            PadSwitchError::Forwarding(m) => m@,
            PadSwitchError::Config(m) => m@,
            PadSwitchError::PlatformNotSupported(m) => m@,
            PadSwitchError::Io(m) => m@,
            PadSwitchError::Json(m) => m@,
            PadSwitchError::Platform(m) => m@,
        }
    }

    /// The message carried by the error.
    pub fn detail(&self) -> (r: String)
        ensures
            r@ == self.spec_detail(),
    {
        match self {
            PadSwitchError::DriverNotInstalled(m) => m.clone(),
            PadSwitchError::DeviceNotFound(m) => m.clone(),
            PadSwitchError::HidHide(m) => m.clone(),
            PadSwitchError::ViGEm(m) => m.clone(),
            PadSwitchError::Forwarding(m) => m.clone(),
            PadSwitchError::Config(m) => m.clone(),
            PadSwitchError::PlatformNotSupported(m) => m.clone(),
            PadSwitchError::Io(m) => m.clone(),
            PadSwitchError::Json(m) => m.clone(),
            PadSwitchError::Platform(m) => m.clone(),
        }
    }
}

} // verus!
