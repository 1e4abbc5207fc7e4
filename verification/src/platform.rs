//! Platform facade types.
//!
//! The evdev-backed platform performs all its work through OS devices, so
//! its operations live in the embedding program; the type itself and its
//! construction are here.  The development platform backend answers every
//! operation from fixed data and is verified in full.

use vstd::prelude::*;
use vstd::string::StringExecFns;

use crate::device::{DeviceType, DriverStatus, GamepadState, PhysicalDevice};
use crate::error::PadSwitchError;

verus! {

/// The evdev-backed platform: enumeration through the input-device
/// directory, hiding through exclusive grabs, virtual controllers through
/// the user-level input device. All of that is device I/O performed by
/// the embedding program.
#[derive(Debug)]
pub struct LinuxPlatform;

impl LinuxPlatform {
    /// The backend carries no state of its own.
    pub fn new() -> (r: Self) {
        LinuxPlatform
    }
}

/// The development platform backend: fixed mock data, no device I/O.
#[derive(Debug)]
pub struct MacOSPlatform;

impl MacOSPlatform {
    /// The backend carries no state of its own.
    pub fn new() -> (r: Self) {
        MacOSPlatform
    }

    /// Three fixed mock controllers: two four-slot-capable devices on
    /// slots zero and one, and one DirectInput-only device.
    pub fn enumerate_devices(&self) -> (r: Result<Vec<PhysicalDevice>, PadSwitchError>)
        ensures
            r matches Ok(devices) && devices@.len() == 3 && {
                &&& devices@[0].id@ == "mock-wooting-60he"@
                &&& devices@[0].device_type == DeviceType::XInput
                &&& devices@[0].xinput_slot == Some(0u32)
                &&& devices@[0].vendor_id == 0x31E3
                &&& devices@[0].product_id == 0x1100
                &&& devices@[1].id@ == "mock-xbox-controller"@
                &&& devices@[1].device_type == DeviceType::XInput
                &&& devices@[1].xinput_slot == Some(1u32)
                &&& devices@[1].vendor_id == 0x045E
                &&& devices@[1].product_id == 0x0B12
                &&& devices@[2].id@ == "mock-ps5-dualsense"@
                &&& devices@[2].device_type == DeviceType::DirectInput
                &&& devices@[2].xinput_slot is None
                &&& devices@[2].vendor_id == 0x054C
                &&& devices@[2].product_id == 0x0CE6
                &&& forall|i: int|
                    0 <= i < 3 ==> !(#[trigger] devices@[i]).hidden && devices@[i].connected
            },
    {
        let mut devices: Vec<PhysicalDevice> = Vec::new();
        devices.push(
            PhysicalDevice {
                id: String::from_str("mock-wooting-60he"),
                name: String::from_str("Wooting 60HE (Gamepad Mode)"),
                instance_path: String::from_str("/mock/wooting"),
                device_type: DeviceType::XInput,
                hidden: false,
                connected: true,
                vendor_id: 0x31E3,
                product_id: 0x1100,
                xinput_slot: Some(0),
            },
        );
        devices.push(
            PhysicalDevice {
                id: String::from_str("mock-xbox-controller"),
                name: String::from_str("Xbox Wireless Controller"),
                instance_path: String::from_str("/mock/xbox"),
                device_type: DeviceType::XInput,
                hidden: false,
                connected: true,
                vendor_id: 0x045E,
                product_id: 0x0B12,
                xinput_slot: Some(1),
            },
        );
        devices.push(
            PhysicalDevice {
                id: String::from_str("mock-ps5-dualsense"),
                name: String::from_str("DualSense Wireless Controller"),
                instance_path: String::from_str("/mock/dualsense"),
                device_type: DeviceType::DirectInput,
                hidden: false,
                connected: true,
                vendor_id: 0x054C,
                product_id: 0x0CE6,
                xinput_slot: None,
            },
        );
        Ok(devices)
    }

    /// Both drivers report as present so the development build never
    /// warns about missing drivers.
    pub fn check_drivers(&self) -> (r: Result<DriverStatus, PadSwitchError>)
        ensures
            r matches Ok(status) && status.hidhide_installed && status.vigembus_installed
                && status.hidhide_version is Some && status.vigembus_version is Some,
    {
        Ok(
            DriverStatus {
                hidhide_installed: true,
                vigembus_installed: true,
                hidhide_version: Some(String::from_str("(mock)")),
                vigembus_version: Some(String::from_str("(mock)")),
            },
        )
    }

    /// Hiding is a successful no-op on the development backend.
    pub fn hide_device(&self, instance_path: &str) -> (r: Result<(), PadSwitchError>)
        ensures
            r is Ok,
    {
        let _ = instance_path;
        Ok(())
    }

    /// Unhiding is a successful no-op on the development backend.
    pub fn unhide_device(&self, instance_path: &str) -> (r: Result<(), PadSwitchError>)
        ensures
            r is Ok,
    {
        let _ = instance_path;
        Ok(())
    }

    /// Whitelisting is a successful no-op on the development backend.
    pub fn whitelist_self(&self) -> (r: Result<(), PadSwitchError>)
        ensures
            r is Ok,
    {
        Ok(())
    }

    /// Disabling is a successful no-op on the development backend.
    pub fn disable_device(&self, instance_path: &str) -> (r: Result<(), PadSwitchError>)
        ensures
            r is Ok,
    {
        let _ = instance_path;
        Ok(())
    }

    /// Enabling is a successful no-op on the development backend.
    pub fn enable_device(&self, instance_path: &str) -> (r: Result<(), PadSwitchError>)
        ensures
            r is Ok,
    {
        let _ = instance_path;
        Ok(())
    }

    /// Deactivating hiding is a successful no-op on the development
    /// backend.
    pub fn deactivate_hiding(&self) -> (r: Result<(), PadSwitchError>)
        ensures
            r is Ok,
    {
        Ok(())
    }

    /// No virtual controllers exist on the development backend.
    pub fn create_virtual_controller(&self) -> (r: Result<u32, PadSwitchError>)
        ensures
            r matches Err(e) && e is PlatformNotSupported,
    {
        Err(
            PadSwitchError::PlatformNotSupported(
                String::from_str("Virtual controllers are not available on this backend"),
            ),
        )
    }

    /// No virtual controllers exist on the development backend.
    pub fn destroy_virtual_controller(&self, index: u32) -> (r: Result<(), PadSwitchError>)
        ensures
            r matches Err(e) && e is PlatformNotSupported,
    {
        let _ = index;
        Err(
            PadSwitchError::PlatformNotSupported(
                String::from_str("Virtual controllers are not available on this backend"),
            ),
        )
    }

    /// Reads always answer with the released, centered state.
    pub fn read_gamepad_state(&self, instance_path: &str) -> (r: Result<
        GamepadState,
        PadSwitchError,
    >)
        ensures
            r matches Ok(state) && state == (GamepadState {
                buttons: 0,
                left_trigger: 0,
                right_trigger: 0,
                thumb_lx: 0,
                thumb_ly: 0,
                thumb_rx: 0,
                thumb_ry: 0,
            }),
    {
        let _ = instance_path;
        Ok(GamepadState::default())
    }

    /// No virtual controllers exist on the development backend.
    pub fn write_virtual_state(&self, index: u32, state: &GamepadState) -> (r: Result<
        (),
        PadSwitchError,
    >)
        ensures
            r matches Err(e) && e is PlatformNotSupported,
    {
        let _ = index;
        let _ = state;
        Err(
            PadSwitchError::PlatformNotSupported(
                String::from_str("Virtual controllers are not available on this backend"),
            ),
        )
    }
}

} // verus!
