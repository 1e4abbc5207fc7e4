//! The device model: physical controllers, user slot assignments, driver
//! status and the canonical gamepad state.
//!
//! A device's stable id is a deterministic hash of its ASCII-uppercased
//! instance path, so the same physical connection keeps the same id across
//! sessions and profiles stay portable.

use vstd::prelude::*;
use vstd::string::StrSliceExecFns;
use vstd::string::StringExecFns;
use vstd::string::StringSliceAdditionalSpecFns;

use crate::text::{
    ascii_upper_bytes, dec_chars, fnv1a, fnv1a_hash, hex16_chars, str_bytes, u32_to_decimal,
    u64_to_hex16, upper_bytes,
};

verus! {

/// How the OS driver exposes a device.
#[derive(Debug, Clone, Copy, PartialEq, Eq, Structural)]
pub enum DeviceType {
    /// Visible through the four-slot gamepad API.
    XInput,
    /// Generic HID / DirectInput only.
    DirectInput,
    /// Could not be classified.
    Unknown,
}

/// A physical game controller as the library sees it.
#[derive(Debug)]
pub struct PhysicalDevice {
    /// Stable identifier, unique within a session.
    pub id: String,
    /// Human-readable label.
    pub name: String,
    /// OS device instance path.
    pub instance_path: String,
    /// Driver classification.
    pub device_type: DeviceType,
    /// Whether the device is currently hidden or disabled.
    pub hidden: bool,
    /// Whether the device is currently connected.
    pub connected: bool,
    /// Vendor identifier.
    pub vendor_id: u16,
    /// Product identifier.
    pub product_id: u16,
    /// The OS gamepad slot this device occupies, if known.
    pub xinput_slot: Option<u32>,
}

/// The user's declared intent: one physical device on one target slot.
#[derive(Debug)]
pub struct SlotAssignment {
    /// Stable id of the physical device.
    pub device_id: String,
    /// Target slot, between zero and three.
    pub slot: u8,
    /// Whether this assignment takes part in forwarding.
    pub enabled: bool,
}

/// Presence of the two external drivers.
#[derive(Debug)]
pub struct DriverStatus {
    pub hidhide_installed: bool,
    pub vigembus_installed: bool,
    pub hidhide_version: Option<String>,
    pub vigembus_version: Option<String>,
}

impl Default for DriverStatus {
    /// Both drivers absent, no version information.
    fn default() -> (r: Self)
        ensures
            r.hidhide_installed == false,
            r.vigembus_installed == false,
            r.hidhide_version is None,
            r.vigembus_version is None,
    {
        DriverStatus {
            hidhide_installed: false,
            vigembus_installed: false,
            hidhide_version: None,
            vigembus_version: None,
        }
    }
}

/// The canonical gamepad snapshot: sixteen button bits, two triggers and
/// four thumbstick axes.
#[derive(Debug, Clone, Copy, PartialEq, Eq, Structural)]
pub struct GamepadState {
    pub buttons: u16,
    pub left_trigger: u8,
    pub right_trigger: u8,
    pub thumb_lx: i16,
    pub thumb_ly: i16,
    pub thumb_rx: i16,
    pub thumb_ry: i16,
}

impl Default for GamepadState {
    /// Everything released and centered.
    fn default() -> (r: Self)
        ensures
            r.buttons == 0,
            r.left_trigger == 0,
            r.right_trigger == 0,
            r.thumb_lx == 0,
            r.thumb_ly == 0,
            r.thumb_rx == 0,
            r.thumb_ry == 0,
    {
        GamepadState {
            buttons: 0,
            left_trigger: 0,
            right_trigger: 0,
            thumb_lx: 0,
            thumb_ly: 0,
            thumb_rx: 0,
            thumb_ry: 0,
        }
    }
}

impl Clone for PhysicalDevice {
    /// An exact copy.
    fn clone(&self) -> (r: Self)
        ensures
            r == *self,
    {
        PhysicalDevice {
            id: self.id.clone(),
            name: self.name.clone(),
            instance_path: self.instance_path.clone(),
            device_type: self.device_type,
            hidden: self.hidden,
            connected: self.connected,
            vendor_id: self.vendor_id,
            product_id: self.product_id,
            xinput_slot: self.xinput_slot,
        }
    }
}

impl Clone for SlotAssignment {
    /// An exact copy.
    fn clone(&self) -> (r: Self)
        ensures
            r == *self,
    {
        SlotAssignment { device_id: self.device_id.clone(), slot: self.slot, enabled: self.enabled }
    }
}

impl Clone for DriverStatus {
    /// An exact copy.
    fn clone(&self) -> (r: Self)
        ensures
            r == *self,
    {
        DriverStatus {
            hidhide_installed: self.hidhide_installed,
            vigembus_installed: self.vigembus_installed,
            hidhide_version: clone_opt_string(&self.hidhide_version),
            vigembus_version: clone_opt_string(&self.vigembus_version),
        }
    }
}

/// An exact copy of an optional string.
fn clone_opt_string(o: &Option<String>) -> (r: Option<String>)
    ensures
        r == *o,
{
    match o {
        Some(s) => Some(s.clone()),
        None => None,
    }
}

/// Relies on `uuid::Uuid::new_v4` and its hyphenated lowercase display
/// form: a freshly drawn random id always formats as 36 characters.
/// Nothing else can be said of a random value.
#[verifier::external_body]
pub(crate) fn random_uuid_string() -> (r: String)
    ensures
        r@.len() == 36,
{
    uuid::Uuid::new_v4().to_string()
}

/// The stable id of an instance path: a tag and the FNV-1a hash of the
/// ASCII-uppercased path bytes, written as sixteen hexadecimal characters.
pub open spec fn spec_stable_device_id(path_bytes: Seq<u8>) -> Seq<char> {
    "dev-"@ + hex16_chars(fnv1a(upper_bytes(path_bytes)))
}

/// Derive the stable device id from an instance path.
pub fn stable_device_id(instance_path: &str) -> (r: String)
    ensures
        r@ == spec_stable_device_id(instance_path.spec_bytes()),
{
    let up = ascii_upper_bytes(&str_bytes(instance_path));
    let h = fnv1a_hash(&up);
    let hex = u64_to_hex16(h);
    String::from_str("dev-").concat(hex.as_str())
}

/// The stable id is a function of the canonical (uppercased) path alone:
/// a path and its uppercased form map to the same id.
pub proof fn lemma_stable_device_id_canonical(path_bytes: Seq<u8>)
    ensures
        spec_stable_device_id(path_bytes) == spec_stable_device_id(upper_bytes(path_bytes)),
{
    crate::text::lemma_upper_bytes_idempotent(path_bytes);
}

/// The byte material hashed for an evdev device without a physical path:
/// its name followed by the vendor and product identifiers, little endian.
pub open spec fn spec_evdev_fallback_bytes(name_bytes: Seq<u8>, vendor_id: u16, product_id: u16) -> Seq<u8> {
    name_bytes + seq![
        (vendor_id & 0xff) as u8,
        (vendor_id >> 8) as u8,
        (product_id & 0xff) as u8,
        (product_id >> 8) as u8,
    ]
}

/// The stable id of an evdev device: the hash of its physical path when it
/// has one, else the hash of name, vendor and product.
pub open spec fn spec_evdev_stable_device_id(
    phys_bytes: Seq<u8>,
    name_bytes: Seq<u8>,
    vendor_id: u16,
    product_id: u16,
) -> Seq<char> {
    if phys_bytes.len() > 0 {
        "linux-"@ + hex16_chars(fnv1a(phys_bytes))
    } else {
        "linux-"@ + hex16_chars(fnv1a(spec_evdev_fallback_bytes(name_bytes, vendor_id, product_id)))
    }
}

/// Derive the stable id of an evdev device from its physical path, or from
/// name, vendor and product when the path is empty.
pub fn evdev_stable_device_id(physical_path: &str, name: &str, vendor_id: u16, product_id: u16) -> (r:
    String)
    ensures
        r@ == spec_evdev_stable_device_id(
            physical_path.spec_bytes(),
            name.spec_bytes(),
            vendor_id,
            product_id,
        ),
{
    let pb = str_bytes(physical_path);
    let h: u64 = if pb.len() > 0 {
        fnv1a_hash(&pb)
    } else {
        let mut material = str_bytes(name);
        material.push((vendor_id & 0xff) as u8);
        material.push((vendor_id >> 8) as u8);
        material.push((product_id & 0xff) as u8);
        material.push((product_id >> 8) as u8);
        proof {
            assert(material@ =~= spec_evdev_fallback_bytes(
                name.spec_bytes(),
                vendor_id,
                product_id,
            ));
        }
        fnv1a_hash(&material)
    };
    let hex = u64_to_hex16(h);
    String::from_str("linux-").concat(hex.as_str())
}

impl PhysicalDevice {
    /// A newly seen device with a freshly drawn id, connected and visible.
    pub fn new(name: String, instance_path: String, device_type: DeviceType) -> (r: Self)
        ensures
            r.id@.len() == 36,
            r.name == name,
            r.instance_path == instance_path,
            r.device_type == device_type,
            r.hidden == false,
            r.connected == true,
            r.vendor_id == 0,
            r.product_id == 0,
            r.xinput_slot is None,
    {
        PhysicalDevice {
            id: random_uuid_string(),
            name,
            instance_path,
            device_type,
            hidden: false,
            connected: true,
            vendor_id: 0,
            product_id: 0,
            xinput_slot: None,
        }
    }

    /// A fallback entry for an occupied OS slot with no discovered device
    /// path.  Its fabricated instance path marks it as synthetic, so the
    /// routing engine never hides or disables it.
    pub fn from_xinput_slot(slot: u32) -> (r: Self)
        ensures
            r.id@ == "xinput-"@ + dec_chars(slot as int),
            r.name@ == "XInput Controller (Slot "@ + dec_chars(slot as int) + ")"@,
            r.instance_path@ == "XINPUT\\SLOT"@ + dec_chars(slot as int),
            r.device_type == DeviceType::XInput,
            r.hidden == false,
            r.connected == true,
            r.vendor_id == 0,
            r.product_id == 0,
            r.xinput_slot == Some(slot),
    {
        let digits = u32_to_decimal(slot);
        let name = String::from_str("XInput Controller (Slot ").concat(digits.as_str()).concat(
            ")",
        );
        PhysicalDevice {
            id: String::from_str("xinput-").concat(digits.as_str()),
            name,
            instance_path: String::from_str("XINPUT\\SLOT").concat(digits.as_str()),
            device_type: DeviceType::XInput,
            hidden: false,
            connected: true,
            vendor_id: 0,
            product_id: 0,
            xinput_slot: Some(slot),
        }
    }
}

} // verus!
