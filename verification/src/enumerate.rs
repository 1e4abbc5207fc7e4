//! Device discovery support: controller classification, vendor and
//! product extraction, slot parsing, and the join of discovered
//! controllers with the occupied OS slots.
//!
//! The OS device database and the four-slot gamepad probe are read by the
//! embedding program; everything it then decides — which database entries
//! are game controllers, which use a four-slot-capable driver, which
//! vendor and product a hardware id names, and how discovered devices and
//! occupied slots join into the device table — is verified here.

use vstd::prelude::*;
use vstd::string::StrSliceExecFns;
use vstd::string::StringExecFns;
use vstd::string::StringSliceAdditionalSpecFns;

use crate::device::{spec_stable_device_id, stable_device_id, DeviceType, PhysicalDevice};
use crate::error::PadSwitchError;
use crate::text::{
    ascii_lower_bytes, ascii_upper_bytes, bytes_eq, contains_bytes, contains_seq, dec_chars,
    find_sub, lower_bytes, spec_find_sub, starts_with_bytes, starts_with_seq, str_bytes,
    upper_bytes,
};

verus! {

/// A game controller discovered in the OS device database.
#[derive(Debug)]
pub struct GameControllerInfo {
    /// Real device instance path.
    pub instance_path: String,
    /// Human-readable label.
    pub name: String,
    pub vendor_id: u16,
    pub product_id: u16,
    /// Whether the device's driver exposes it through the four-slot
    /// gamepad API, so that it occupies one of the four OS slots.
    pub is_xinput: bool,
}

impl Clone for GameControllerInfo {
    /// An exact copy.
    fn clone(&self) -> (r: Self)
        ensures
            r == *self,
    {
        GameControllerInfo {
            instance_path: self.instance_path.clone(),
            name: self.name.clone(),
            vendor_id: self.vendor_id,
            product_id: self.product_id,
            is_xinput: self.is_xinput,
        }
    }
}

/// Whether a driver service and device class mark a device as
/// four-slot-capable.
pub open spec fn spec_is_xinput_driver(service: Seq<u8>, class: Seq<u8>) -> bool {
    let su = upper_bytes(service);
    let cl = lower_bytes(class);
    ||| contains_seq(su, "XUSB".spec_bytes())
    ||| contains_seq(su, "XINPUT".spec_bytes())
    ||| su == "XBOXGIP".spec_bytes()
    ||| contains_seq(cl, "xna".spec_bytes())
    ||| contains_seq(cl, "xbox".spec_bytes())
}

/// Decide four-slot capability from the driver service name and the
/// device class name.
pub fn is_xinput_driver(service: &str, class: &str) -> (r: bool)
    ensures
        r == spec_is_xinput_driver(service.spec_bytes(), class.spec_bytes()),
{
    let su = ascii_upper_bytes(&str_bytes(service));
    let cl = ascii_lower_bytes(&str_bytes(class));
    contains_bytes(&su, &str_bytes("XUSB")) || contains_bytes(&su, &str_bytes("XINPUT"))
        || bytes_eq(&su, &str_bytes("XBOXGIP")) || contains_bytes(&cl, &str_bytes("xna"))
        || contains_bytes(&cl, &str_bytes("xbox"))
}

/// Whether a device looks like a game controller: a four-slot driver
/// service, a gamepad device class, a game-controller keyword in the
/// description, or the word "controller" on a HID-class (or classless)
/// device that is not a hub, host or root.
pub open spec fn spec_is_game_controller(
    service: Seq<u8>,
    description: Seq<u8>,
    class: Seq<u8>,
) -> bool {
    let su = upper_bytes(service);
    let dl = lower_bytes(description);
    let cl = lower_bytes(class);
    ||| contains_seq(su, "XUSB".spec_bytes())
    ||| contains_seq(su, "XINPUT".spec_bytes())
    ||| su == "XBOXGIP".spec_bytes()
    ||| contains_seq(cl, "xna".spec_bytes())
    ||| contains_seq(cl, "xbox".spec_bytes())
    ||| contains_seq(dl, "game controller".spec_bytes())
    ||| contains_seq(dl, "gamepad".spec_bytes())
    ||| contains_seq(dl, "joystick".spec_bytes())
    ||| (contains_seq(dl, "controller".spec_bytes()) && !contains_seq(dl, "hub".spec_bytes())
        && !contains_seq(dl, "host".spec_bytes()) && !contains_seq(dl, "root".spec_bytes()) && (
    contains_seq(cl, "hid".spec_bytes()) || class.len() == 0))
}

/// Decide whether a device database entry is a game controller.
pub fn is_game_controller(service: &str, description: &str, class: &str) -> (r: bool)
    ensures
        r == spec_is_game_controller(
            service.spec_bytes(),
            description.spec_bytes(),
            class.spec_bytes(),
        ),
{
    let su = ascii_upper_bytes(&str_bytes(service));
    let dl = ascii_lower_bytes(&str_bytes(description));
    let cl = ascii_lower_bytes(&str_bytes(class));
    if contains_bytes(&su, &str_bytes("XUSB")) || contains_bytes(&su, &str_bytes("XINPUT"))
        || bytes_eq(&su, &str_bytes("XBOXGIP")) {
        return true;
    }
    if contains_bytes(&cl, &str_bytes("xna")) || contains_bytes(&cl, &str_bytes("xbox")) {
        return true;
    }
    if contains_bytes(&dl, &str_bytes("game controller")) || contains_bytes(
        &dl,
        &str_bytes("gamepad"),
    ) || contains_bytes(&dl, &str_bytes("joystick")) {
        return true;
    }
    contains_bytes(&dl, &str_bytes("controller")) && !contains_bytes(&dl, &str_bytes("hub"))
        && !contains_bytes(&dl, &str_bytes("host")) && !contains_bytes(&dl, &str_bytes("root"))
        && (contains_bytes(&cl, &str_bytes("hid")) || str_bytes(class).len() == 0)
}

/// Whether a byte is an ASCII hexadecimal digit.
pub open spec fn is_hex_digit(b: u8) -> bool {
    (48 <= b <= 57) || (65 <= b <= 70) || (97 <= b <= 102)
}

/// The numeric value of a hexadecimal digit byte.
pub open spec fn hex_digit_val(b: u8) -> int {
    if 48 <= b <= 57 {
        b - 48
    } else if 65 <= b <= 70 {
        b - 55
    } else if 97 <= b <= 102 {
        b - 87
    } else {
        0
    }
}

/// The value of a run of hexadecimal digit bytes, most significant first.
pub open spec fn hex_value(s: Seq<u8>) -> int
    decreases s.len(),
{
    if s.len() == 0 {
        0
    } else {
        hex_value(s.drop_last()) * 16 + hex_digit_val(s.last())
    }
}

/// The longest hexadecimal-digit prefix of a byte string.
pub open spec fn take_hex_digits(s: Seq<u8>) -> Seq<u8>
    decreases s.len(),
{
    if s.len() == 0 {
        Seq::empty()
    } else if !is_hex_digit(s[0]) {
        Seq::empty()
    } else {
        seq![s[0]] + take_hex_digits(s.drop_first())
    }
}

/// When the first non-digit stands at position `k`, the digit prefix is
/// exactly the first `k` bytes.
proof fn lemma_take_hex_digits(s: Seq<u8>, k: int)
    requires
        0 <= k <= s.len(),
        forall|i: int| 0 <= i < k ==> is_hex_digit(#[trigger] s[i]),
        k == s.len() || !is_hex_digit(s[k]),
    ensures
        take_hex_digits(s) == s.subrange(0, k),
    decreases k,
{
    if k == 0 {
        assert(take_hex_digits(s) =~= s.subrange(0, 0));
    } else {
        lemma_take_hex_digits(s.drop_first(), k - 1);
        assert(s.drop_first().subrange(0, k - 1) =~= s.subrange(1, k));
        assert(seq![s[0]] + s.subrange(1, k) =~= s.subrange(0, k));
    }
}

/// A longer digit run can only name a larger value.
proof fn lemma_hex_value_monotone(s: Seq<u8>)
    requires
        s.len() > 0,
        hex_value(s.drop_last()) > 0xffff,
    ensures
        hex_value(s) > 0xffff,
{
    assert(hex_value(s) == hex_value(s.drop_last()) * 16 + hex_digit_val(s.last()));
    assert(hex_value(s.drop_last()) * 16 >= hex_value(s.drop_last())) by (nonlinear_arith)
        requires
            hex_value(s.drop_last()) >= 0,
    ;
    assert(hex_digit_val(s.last()) >= 0);
}

/// The sixteen-bit value written in hexadecimal after the first
/// occurrence of `prefix`, or zero when the prefix is absent, no digit
/// follows it, or the digits name a value beyond sixteen bits.
pub open spec fn spec_extract_hex_after(s: Seq<u8>, prefix: Seq<u8>) -> int {
    match spec_find_sub(s, prefix) {
        Some(i) => {
            let digits = take_hex_digits(s.skip(i + prefix.len() as int));
            if digits.len() == 0 || hex_value(digits) > 0xffff {
                0
            } else {
                hex_value(digits)
            }
        },
        None => 0,
    }
}

/// Test a byte for being a hexadecimal digit.
fn hex_digit_byte(b: u8) -> (r: bool)
    ensures
        r == is_hex_digit(b),
{
    (48 <= b && b <= 57) || (65 <= b && b <= 70) || (97 <= b && b <= 102)
}

/// Extract the sixteen-bit hexadecimal value after a marker, over bytes.
fn extract_hex_after_bytes(s: &Vec<u8>, prefix: &Vec<u8>) -> (r: u16)
    ensures
        r as int == spec_extract_hex_after(s@, prefix@),
{
    let n = s.len();
    let start: usize;
    match find_sub(s, prefix) {
        Some(i) => {
            proof {
                assert(i + prefix@.len() <= n);
            }
            start = i + prefix.len();
        },
        None => {
            return 0;
        },
    }
    let ghost rest = s@.skip(start as int);
    // scan the digit run
    let mut z: usize = start;
    while z < n && hex_digit_byte(s[z])
        invariant
            start <= z <= n == s@.len(),
            forall|i: int| start <= i < z ==> is_hex_digit(#[trigger] s@[i]),
        decreases n - z,
    {
        z += 1;
    }
    proof {
        assert forall|i: int| 0 <= i < z - start implies is_hex_digit(#[trigger] rest[i]) by {
            assert(rest[i] == s@[start + i]);
        }
        if z < n {
            assert(rest[z - start] == s@[z as int]);
        }
        lemma_take_hex_digits(rest, z - start);
        assert(rest.subrange(0, z - start) =~= s@.subrange(start as int, z as int));
    }
    if z == start {
        return 0;
    }
    // accumulate, watching for overflow past sixteen bits
    let ghost digits = s@.subrange(start as int, z as int);
    let mut acc: u32 = 0;
    let mut over: bool = false;
    let mut j: usize = start;
    proof {
        assert(digits.subrange(0, 0) =~= Seq::<u8>::empty());
    }
    while j < z
        invariant
            start <= j <= z <= s@.len(),
            digits.len() == z - start,
            digits == s@.subrange(start as int, z as int),
            forall|i: int| start <= i < z ==> digits[i - start] == s@[i],
            forall|i: int| start <= i < z ==> is_hex_digit(#[trigger] s@[i]),
            !over ==> acc as int == hex_value(digits.subrange(0, j - start)) && acc <= 0xffff,
            over ==> hex_value(digits.subrange(0, j - start)) > 0xffff,
        decreases z - j,
    {
        let b = s[j];
        let d: u32 = if 48 <= b && b <= 57 {
            (b - 48) as u32
        } else if 65 <= b && b <= 70 {
            (b - 55) as u32
        } else {
            (b - 87) as u32
        };
        proof {
            assert(digits.len() == z - start);
            let sub = digits.subrange(0, j + 1 - start);
            assert(sub.len() == j + 1 - start);
            assert(sub.last() == digits[j - start]);
            assert(digits[j - start] == s@[start + (j - start)]);
            assert(sub.drop_last() =~= digits.subrange(0, j - start));
            if over {
                lemma_hex_value_monotone(sub);
            }
        }
        if !over {
            let next = acc * 16 + d;
            if next > 0xffff {
                over = true;
            } else {
                acc = next;
            }
        }
        j += 1;
    }
    proof {
        assert(digits.subrange(0, z - start) =~= digits);
    }
    if over {
        0
    } else {
        acc as u16
    }
}

/// Extract the sixteen-bit hexadecimal value after a marker.
pub fn extract_hex_after(s: &str, prefix: &str) -> (r: u16)
    ensures
        r as int == spec_extract_hex_after(s.spec_bytes(), prefix.spec_bytes()),
{
    extract_hex_after_bytes(&str_bytes(s), &str_bytes(prefix))
}

/// The vendor and product named by one hardware id, read after uppercasing.
pub open spec fn spec_id_vid_pid(id: Seq<char>) -> (int, int) {
    let up = upper_bytes(vstd::utf8::encode_utf8(id));
    (
        spec_extract_hex_after(up, "VID_".spec_bytes()),
        spec_extract_hex_after(up, "PID_".spec_bytes()),
    )
}

/// The vendor and product of the first hardware id that names either,
/// or zeros when none does.
pub open spec fn spec_extract_vid_pid(ids: Seq<String>) -> (int, int)
    decreases ids.len(),
{
    if ids.len() == 0 {
        (0int, 0int)
    } else {
        let head = spec_id_vid_pid(ids[0]@);
        if head.0 != 0 || head.1 != 0 {
            head
        } else {
            spec_extract_vid_pid(ids.drop_first())
        }
    }
}

/// Extract vendor and product identifiers from a device's hardware id
/// strings.
pub fn extract_vid_pid(hw_ids: &Vec<String>) -> (r: (u16, u16))
    ensures
        (r.0 as int, r.1 as int) == spec_extract_vid_pid(hw_ids@),
{
    let n = hw_ids.len();
    let mut i: usize = 0;
    proof {
        assert(hw_ids@.subrange(0, n as int) =~= hw_ids@);
    }
    while i < n
        invariant
            i <= n == hw_ids@.len(),
            spec_extract_vid_pid(hw_ids@) == spec_extract_vid_pid(
                hw_ids@.subrange(i as int, n as int),
            ),
        decreases n - i,
    {
        proof {
            let rest = hw_ids@.subrange(i as int, n as int);
            assert(rest[0] == hw_ids@[i as int]);
            assert(rest.drop_first() =~= hw_ids@.subrange(i + 1, n as int));
        }
        let up = ascii_upper_bytes(&str_bytes(hw_ids[i].as_str()));
        let vid = extract_hex_after_bytes(&up, &str_bytes("VID_"));
        let pid = extract_hex_after_bytes(&up, &str_bytes("PID_"));
        if vid != 0 || pid != 0 {
            return (vid, pid);
        }
        i += 1;
    }
    proof {
        assert(hw_ids@.subrange(n as int, n as int) =~= Seq::<String>::empty());
    }
    (0, 0)
}

/// Whether a byte is an ASCII decimal digit.
pub open spec fn is_dec_digit(b: u8) -> bool {
    48 <= b <= 57
}

/// The value of a run of decimal digit bytes, most significant first.
pub open spec fn dec_value(s: Seq<u8>) -> int
    decreases s.len(),
{
    if s.len() == 0 {
        0
    } else {
        dec_value(s.drop_last()) * 10 + (s.last() - 48)
    }
}

/// The number a byte string writes in decimal: every byte a digit, at
/// least one, and the value within thirty-two bits.
pub open spec fn spec_parse_u32(s: Seq<u8>) -> Option<int> {
    if s.len() > 0 && (forall|i: int| 0 <= i < s.len() ==> is_dec_digit(#[trigger] s[i]))
        && dec_value(s) <= 0xffffffff {
        Some(dec_value(s))
    } else {
        None
    }
}

/// A longer decimal run can only name a larger value.
proof fn lemma_dec_value_monotone(s: Seq<u8>)
    requires
        s.len() > 0,
        is_dec_digit(s.last()),
        dec_value(s.drop_last()) > 0xffffffff,
    ensures
        dec_value(s) > 0xffffffff,
{
    assert(dec_value(s) == dec_value(s.drop_last()) * 10 + (s.last() - 48));
    assert(dec_value(s.drop_last()) * 10 >= dec_value(s.drop_last())) by (nonlinear_arith)
        requires
            dec_value(s.drop_last()) >= 0,
    ;
}

/// Parse a byte string as a thirty-two-bit decimal number.
fn parse_u32_bytes(s: &Vec<u8>) -> (r: Option<u32>)
    ensures
        match r {
            Some(v) => spec_parse_u32(s@) == Some(v as int),
            None => spec_parse_u32(s@) is None,
        },
{
    let n = s.len();
    if n == 0 {
        return None;
    }
    let mut acc: u64 = 0;
    let mut over: bool = false;
    let mut j: usize = 0;
    proof {
        assert(s@.subrange(0, 0) =~= Seq::<u8>::empty());
    }
    while j < n
        invariant
            j <= n == s@.len(),
            forall|i: int| 0 <= i < j ==> is_dec_digit(#[trigger] s@[i]),
            !over ==> acc as int == dec_value(s@.subrange(0, j as int)) && acc <= 0xffffffff,
            over ==> dec_value(s@.subrange(0, j as int)) > 0xffffffff,
        decreases n - j,
    {
        let b = s[j];
        if b < 48 || b > 57 {
            return None;
        }
        proof {
            let sub = s@.subrange(0, j + 1);
            assert(sub.drop_last() =~= s@.subrange(0, j as int));
            assert(sub.last() == s@[j as int]);
            if over {
                lemma_dec_value_monotone(sub);
            }
        }
        if !over {
            let next = acc * 10 + ((b - 48) as u64);
            if next > 0xffffffff {
                over = true;
            } else {
                acc = next;
            }
        }
        j += 1;
    }
    proof {
        assert(s@.subrange(0, n as int) =~= s@);
    }
    if over {
        None
    } else {
        Some(acc as u32)
    }
}

/// The OS slot a device identifier names: the digits after the synthetic
/// slot-marker prefix (compared case-insensitively), or a bare slot
/// number below four.
pub open spec fn spec_parse_xinput_slot(path: Seq<u8>) -> Option<int> {
    let up = upper_bytes(path);
    let prefix = "XINPUT\\SLOT".spec_bytes();
    if starts_with_seq(up, prefix) {
        spec_parse_u32(up.skip(prefix.len() as int))
    } else {
        match spec_parse_u32(path) {
            Some(v) => if v < 4 {
                Some(v)
            } else {
                None
            },
            None => None,
        }
    }
}

/// Read an OS slot out of a device identifier.
pub fn parse_xinput_slot(instance_path: &str) -> (r: Result<u32, PadSwitchError>)
    ensures
        match r {
            Ok(slot) => spec_parse_xinput_slot(instance_path.spec_bytes()) == Some(slot as int),
            Err(e) => spec_parse_xinput_slot(instance_path.spec_bytes()) is None && e is Platform,
        },
{
    let bytes = str_bytes(instance_path);
    let up = ascii_upper_bytes(&bytes);
    let prefix = str_bytes("XINPUT\\SLOT");
    if starts_with_bytes(&up, &prefix) {
        let mut rest: Vec<u8> = Vec::new();
        let mut i: usize = prefix.len();
        proof {
            assert(rest@ =~= up@.subrange(prefix@.len() as int, prefix@.len() as int));
        }
        while i < up.len()
            invariant
                prefix@.len() <= i <= up@.len(),
                rest@ == up@.subrange(prefix@.len() as int, i as int),
            decreases up@.len() - i,
        {
            rest.push(up[i]);
            i += 1;
            proof {
                assert(rest@ =~= up@.subrange(prefix@.len() as int, i as int));
            }
        }
        proof {
            assert(up@.skip(prefix@.len() as int) =~= up@.subrange(
                prefix@.len() as int,
                up@.len() as int,
            ));
        }
        match parse_u32_bytes(&rest) {
            Some(v) => Ok(v),
            None => Err(
                PadSwitchError::Platform(
                    String::from_str("Invalid slot number in device path"),
                ),
            ),
        }
    } else {
        match parse_u32_bytes(&bytes) {
            Some(v) => {
                if v < 4 {
                    Ok(v)
                } else {
                    Err(
                        PadSwitchError::Platform(
                            String::from_str(
                                "Cannot determine an OS slot from the device path",
                            ),
                        ),
                    )
                }
            },
            None => Err(
                PadSwitchError::Platform(
                    String::from_str(
                        "Cannot determine an OS slot from the device path",
                    ),
                ),
            ),
        }
    }
}

/// How many of the first `upto` controllers are four-slot-capable.
pub open spec fn xinput_count(controllers: Seq<GameControllerInfo>, upto: int) -> int
    decreases upto,
{
    if upto <= 0 {
        0
    } else {
        xinput_count(controllers, upto - 1) + if controllers[upto - 1].is_xinput {
            1int
        } else {
            0int
        }
    }
}

/// The OS slot the join hands to controller `i`: four-slot-capable
/// controllers take the occupied slots in enumeration order until the
/// slots run out; other controllers take none.
pub open spec fn spec_assigned_slot(
    controllers: Seq<GameControllerInfo>,
    slots: Seq<u32>,
    i: int,
) -> Option<u32> {
    if controllers[i].is_xinput && xinput_count(controllers, i) < slots.len() {
        Some(slots[xinput_count(controllers, i)])
    } else {
        None
    }
}

/// How many occupied slots the join consumes.
pub open spec fn spec_slots_used(controllers: Seq<GameControllerInfo>, slots: Seq<u32>) -> int {
    let total = xinput_count(controllers, controllers.len() as int);
    if total < slots.len() {
        total
    } else {
        slots.len() as int
    }
}

/// The device-table entry built from one discovered controller.
pub open spec fn spec_joined_entry(c: GameControllerInfo, slot: Option<u32>, d: PhysicalDevice) -> bool {
    &&& d.id@ == spec_stable_device_id(vstd::utf8::encode_utf8(c.instance_path@))
    &&& d.name == c.name
    &&& d.instance_path == c.instance_path
    &&& d.device_type == (if c.is_xinput {
        DeviceType::XInput
    } else {
        DeviceType::DirectInput
    })
    &&& d.hidden == false
    &&& d.connected == true
    &&& d.vendor_id == c.vendor_id
    &&& d.product_id == c.product_id
    &&& d.xinput_slot == slot
}

/// The fallback entry fabricated for an occupied slot with no discovered
/// device.
pub open spec fn spec_fallback_entry(slot: u32, d: PhysicalDevice) -> bool {
    &&& d.id@ == "xinput-"@ + dec_chars(slot as int)
    &&& d.name@ == "XInput Controller (Slot "@ + dec_chars(slot as int) + ")"@
    &&& d.instance_path@ == "XINPUT\\SLOT"@ + dec_chars(slot as int)
    &&& d.device_type == DeviceType::XInput
    &&& d.hidden == false
    &&& d.connected == true
    &&& d.vendor_id == 0
    &&& d.product_id == 0
    &&& d.xinput_slot == Some(slot)
}

/// Join the discovered controllers with the occupied OS slots into the
/// device table.  Four-slot-capable controllers take the occupied slots
/// in enumeration order; occupied slots left over produce fabricated
/// fallback entries whose synthetic path the engine never hides or
/// disables.
pub fn join_devices(controllers: &Vec<GameControllerInfo>, connected_slots: &Vec<u32>) -> (r: Vec<
    PhysicalDevice,
>)
    ensures
        r@.len() == controllers@.len() + connected_slots@.len() - spec_slots_used(
            controllers@,
            connected_slots@,
        ),
        forall|i: int|
            0 <= i < controllers@.len() ==> spec_joined_entry(
                controllers@[i],
                spec_assigned_slot(controllers@, connected_slots@, i),
                #[trigger] r@[i],
            ),
        forall|k: int|
            0 <= k < connected_slots@.len() - spec_slots_used(controllers@, connected_slots@)
                ==> spec_fallback_entry(
                connected_slots@[spec_slots_used(controllers@, connected_slots@) + k],
                #[trigger] r@[controllers@.len() + k],
            ),
{
    let mut r: Vec<PhysicalDevice> = Vec::new();
    let n = controllers.len();
    let sn = connected_slots.len();
    let mut slot_idx: usize = 0;
    let mut i: usize = 0;
    while i < n
        invariant
            i <= n == controllers@.len(),
            sn == connected_slots@.len(),
            slot_idx <= sn,
            slot_idx as int == (if xinput_count(controllers@, i as int) < sn as int {
                xinput_count(controllers@, i as int)
            } else {
                sn as int
            }),
            r@.len() == i,
            forall|k: int|
                0 <= k < i ==> spec_joined_entry(
                    controllers@[k],
                    spec_assigned_slot(controllers@, connected_slots@, k),
                    #[trigger] r@[k],
                ),
        decreases n - i,
    {
        let c = &controllers[i];
        let xslot: Option<u32> = if c.is_xinput {
            if slot_idx < sn {
                let s = connected_slots[slot_idx];
                slot_idx += 1;
                Some(s)
            } else {
                None
            }
        } else {
            None
        };
        let id = stable_device_id(c.instance_path.as_str());
        r.push(
            PhysicalDevice {
                id,
                name: c.name.clone(),
                instance_path: c.instance_path.clone(),
                device_type: if c.is_xinput {
                    DeviceType::XInput
                } else {
                    DeviceType::DirectInput
                },
                hidden: false,
                connected: true,
                vendor_id: c.vendor_id,
                product_id: c.product_id,
                xinput_slot: xslot,
            },
        );
        i += 1;
        proof {
            assert(xinput_count(controllers@, i as int) == xinput_count(controllers@, i - 1)
                + if controllers@[i - 1].is_xinput {
                1int
            } else {
                0int
            });
        }
    }
    let ghost used = slot_idx as int;
    proof {
        assert(used == spec_slots_used(controllers@, connected_slots@));
    }
    let mut k: usize = slot_idx;
    while k < sn
        invariant
            used <= k <= sn == connected_slots@.len(),
            n == controllers@.len(),
            used == spec_slots_used(controllers@, connected_slots@),
            r@.len() == n + k - used,
            forall|j: int|
                0 <= j < n ==> spec_joined_entry(
                    controllers@[j],
                    spec_assigned_slot(controllers@, connected_slots@, j),
                    #[trigger] r@[j],
                ),
            forall|j: int|
                0 <= j < k - used ==> spec_fallback_entry(
                    connected_slots@[used + j],
                    #[trigger] r@[n + j],
                ),
        decreases sn - k,
    {
        r.push(PhysicalDevice::from_xinput_slot(connected_slots[k]));
        k += 1;
    }
    r
}

} // verus!
