//! The hiding-driver wire protocol, stable device ids, input mapping and
//! device discovery.

use padswitch::device::{
    evdev_stable_device_id, stable_device_id, DeviceType, GamepadState, PhysicalDevice,
};
use padswitch::enumerate::{
    extract_hex_after, extract_vid_pid, is_game_controller, is_xinput_driver, join_devices,
    parse_xinput_slot, GameControllerInfo,
};
use padswitch::error::PadSwitchError;
use padswitch::hidhide::{
    decode_multi_string, encode_multi_string, HidHide, IOCTL_GET_BLACKLIST, IOCTL_SET_ACTIVE,
};
use padswitch::mapping::{
    is_gamepad, map_evdev_buttons_to_xinput, normalize_axis, normalize_axis_inverted,
    normalize_trigger,
};
use padswitch::vigem::{to_wire, ViGEmManager};

fn wide(s: &str) -> Vec<u16> {
    s.encode_utf16().collect()
}

#[test]
fn multi_string_round_trip() {
    let list = vec![wide("USB\\VID_045E&PID_028E\\X"), wide("c:\\apps\\game.exe")];
    let bytes = encode_multi_string(&list);
    let back = decode_multi_string(&bytes);
    assert_eq!(back, list);
}

#[test]
fn multi_string_exact_bytes() {
    let bytes = encode_multi_string(&vec![wide("AB")]);
    // 'A', 'B', terminator, final terminator, little endian
    assert_eq!(bytes, vec![0x41, 0x00, 0x42, 0x00, 0x00, 0x00, 0x00, 0x00]);
}

#[test]
fn decode_edge_cases() {
    // an empty buffer, a lone terminator, and a run without a terminator
    assert!(decode_multi_string(&vec![]).is_empty());
    assert!(decode_multi_string(&vec![0x00, 0x00]).is_empty());
    let unterminated = vec![0x41, 0x00, 0x42, 0x00];
    assert!(decode_multi_string(&unterminated).is_empty());
    // a trailing odd byte is ignored
    let with_stray = encode_multi_string(&vec![wide("A")]);
    let mut bytes = with_stray.clone();
    bytes.push(0x41);
    assert_eq!(decode_multi_string(&bytes), decode_multi_string(&with_stray));
}

#[test]
fn blacklist_add_is_idempotent() {
    // the second add issues no write: the set control code fires once
    let path = wide("USB\\VID_045E&PID_028E\\X");
    let updated = HidHide::add_to_blacklist(&vec![], &path).expect("first add must write");
    assert_eq!(updated.len(), 1);
    assert!(HidHide::add_to_blacklist(&updated, &path).is_none());
    // the check is case-insensitive
    let lower = wide("usb\\vid_045e&pid_028e\\x");
    assert!(HidHide::add_to_blacklist(&updated, &lower).is_none());
}

#[test]
fn whitelist_add_matches_blacklist_behaviour() {
    let app = wide("C:\\apps\\padswitch.exe");
    let updated = HidHide::add_to_whitelist(&vec![wide("other")], &app).unwrap();
    assert_eq!(updated.len(), 2);
    assert!(HidHide::add_to_whitelist(&updated, &app).is_none());
}

#[test]
fn blacklist_remove_only_writes_when_something_left() {
    let a = wide("PATH\\A");
    let b = wide("path\\a");
    let c = wide("PATH\\C");
    let removed = HidHide::remove_from_blacklist(&vec![a.clone(), b.clone(), c.clone()], &a)
        .expect("a removal must write");
    assert_eq!(removed, vec![c]);
    assert!(HidHide::remove_from_blacklist(&vec![], &a).is_none());
    assert!(HidHide::remove_from_blacklist(&vec![wide("X")], &a).is_none());
}

#[test]
fn active_flag_payload() {
    assert_eq!(HidHide::encode_active(true), 1);
    assert_eq!(HidHide::encode_active(false), 0);
    assert_eq!(IOCTL_GET_BLACKLIST, 0x80016008);
    assert_eq!(IOCTL_SET_ACTIVE, 0x80016014);
}

#[test]
fn stable_id_is_case_insensitive_and_fixed_width() {
    let a = stable_device_id("usb\\vid_045e&pid_028e\\6&abc");
    let b = stable_device_id("USB\\VID_045E&PID_028E\\6&ABC");
    assert_eq!(a, b);
    assert_eq!(a.len(), 20);
    assert!(a.starts_with("dev-"));
    // different paths give different ids
    assert_ne!(a, stable_device_id("USB\\VID_045E&PID_028E\\6&DEF"));
}

#[test]
fn evdev_stable_id_prefers_physical_path() {
    let by_path = evdev_stable_device_id("usb-0000:00:14.0-1/input0", "Pad", 1, 2);
    let same_path = evdev_stable_device_id("usb-0000:00:14.0-1/input0", "Other", 9, 9);
    assert_eq!(by_path, same_path);
    assert!(by_path.starts_with("linux-"));
    let fallback = evdev_stable_device_id("", "Pad", 1, 2);
    assert_ne!(fallback, evdev_stable_device_id("", "Pad", 1, 3));
}

#[test]
fn fresh_device_ids_are_drawn_not_copied() {
    let a = PhysicalDevice::new("a".into(), "PA".into(), DeviceType::Unknown);
    let b = PhysicalDevice::new("b".into(), "PB".into(), DeviceType::Unknown);
    assert_eq!(a.id.len(), 36);
    assert_eq!(b.id.len(), 36);
    assert_ne!(a.id, b.id);
}

#[test]
fn fallback_device_fields() {
    let d = PhysicalDevice::from_xinput_slot(2);
    assert_eq!(d.id, "xinput-2");
    assert_eq!(d.name, "XInput Controller (Slot 2)");
    assert_eq!(d.instance_path, "XINPUT\\SLOT2");
    assert_eq!(d.device_type, DeviceType::XInput);
    assert_eq!(d.xinput_slot, Some(2));
    assert!(!d.hidden);
    assert!(d.connected);
}

#[test]
fn fallback_device_formats_larger_slot_numbers() {
    let d = PhysicalDevice::from_xinput_slot(12);
    assert_eq!(d.id, "xinput-12");
    assert_eq!(d.instance_path, "XINPUT\\SLOT12");
}

#[test]
fn wire_frame_copies_fields_verbatim() {
    let state = GamepadState {
        buttons: 0x1234,
        left_trigger: 7,
        right_trigger: 200,
        thumb_lx: -32768,
        thumb_ly: 32767,
        thumb_rx: -1,
        thumb_ry: 12345,
    };
    let frame = to_wire(&state);
    assert_eq!(frame.buttons, 0x1234);
    assert_eq!(frame.left_trigger, 7);
    assert_eq!(frame.right_trigger, 200);
    assert_eq!(frame.thumb_lx, -32768);
    assert_eq!(frame.thumb_ly, 32767);
    assert_eq!(frame.thumb_rx, -1);
    assert_eq!(frame.thumb_ry, 12345);
}

#[test]
fn vigem_facade_stubs() {
    assert!(!ViGEmManager::is_installed());
    assert!(matches!(ViGEmManager::new(), Err(PadSwitchError::ViGEm(_))));
}

#[test]
fn axis_normalization_exact_values() {
    assert_eq!(normalize_axis(0, 0, 255), -32768);
    assert_eq!(normalize_axis(255, 0, 255), 32767);
    assert_eq!(normalize_axis(128, 0, 255), 128);
    assert_eq!(normalize_axis(5, 5, 5), 0);
    // out-of-range inputs clamp
    assert_eq!(normalize_axis(-10, 0, 255), -32768);
    assert_eq!(normalize_axis(300, 0, 255), 32767);
}

#[test]
fn inverted_axis_flips_direction() {
    assert_eq!(normalize_axis_inverted(0, 0, 255), 32767);
    assert_eq!(normalize_axis_inverted(255, 0, 255), -32767);
    assert_eq!(normalize_axis_inverted(128, 0, 255), -128);
}

#[test]
fn trigger_normalization_exact_values() {
    assert_eq!(normalize_trigger(0, 0, 1023), 0);
    assert_eq!(normalize_trigger(1023, 0, 1023), 255);
    assert_eq!(normalize_trigger(512, 0, 1023), 128);
    assert_eq!(normalize_trigger(3, 3, 3), 0);
}

#[test]
fn button_mapping_exact_bits() {
    // south face button and directional pad up
    assert_eq!(map_evdev_buttons_to_xinput(&vec![0x130, 0x220]), 0x1001);
    // every mapped code at once
    let all = vec![
        0x130, 0x131, 0x134, 0x133, 0x136, 0x137, 0x13a, 0x13b, 0x13d, 0x13e, 0x220, 0x221,
        0x222, 0x223,
    ];
    assert_eq!(map_evdev_buttons_to_xinput(&all), 0xf3ff);
    // unmapped codes contribute nothing
    assert_eq!(map_evdev_buttons_to_xinput(&vec![0x100, 0x2c0]), 0);
}

#[test]
fn gamepad_marker_key() {
    assert!(is_gamepad(&vec![0x100, 0x130]));
    assert!(!is_gamepad(&vec![0x100, 0x131]));
}

#[test]
fn controller_classification() {
    assert!(is_game_controller("XUSB22", "Xbox Controller", ""));
    assert!(is_game_controller("", "Wireless Gamepad", "HIDClass"));
    assert!(is_game_controller("", "Flight Joystick", ""));
    assert!(is_game_controller("", "Game Controller Device", "Media"));
    // "controller" alone counts only for HID-class or classless devices
    assert!(is_game_controller("", "Generic Controller", "HIDClass"));
    assert!(is_game_controller("", "Generic Controller", ""));
    assert!(!is_game_controller("", "Generic Controller", "USB"));
    assert!(!is_game_controller("", "USB Root Hub Controller", "HIDClass"));
    assert!(!is_game_controller("usbhub", "Generic SuperSpeed USB Hub", "USB"));
}

#[test]
fn xinput_driver_classification() {
    assert!(is_xinput_driver("xusb22", ""));
    assert!(is_xinput_driver("XBOXGIP", ""));
    assert!(is_xinput_driver("", "XnaComposite"));
    assert!(!is_xinput_driver("hidusb", "HIDClass"));
}

#[test]
fn vid_pid_extraction() {
    let ids = vec!["USB\\VID_045E&PID_028E".to_string()];
    assert_eq!(extract_vid_pid(&ids), (0x045E, 0x028E));
    // lowercase ids are uppercased before the markers are searched
    let lower = vec!["usb\\vid_054c&pid_0ce6".to_string()];
    assert_eq!(extract_vid_pid(&lower), (0x054C, 0x0CE6));
    // the first id that names either wins
    let several = vec!["ROOT\\HUB".to_string(), "USB\\VID_1234".to_string()];
    assert_eq!(extract_vid_pid(&several), (0x1234, 0));
    assert_eq!(extract_vid_pid(&vec![]), (0, 0));
}

#[test]
fn hex_extraction_edge_cases() {
    assert_eq!(extract_hex_after("USB\\VID_045E", "VID_"), 0x045E);
    // no marker, no digits, and a value past sixteen bits all give zero
    assert_eq!(extract_hex_after("USB\\X", "VID_"), 0);
    assert_eq!(extract_hex_after("USB\\VID_&PID", "VID_"), 0);
    assert_eq!(extract_hex_after("USB\\VID_12345", "VID_"), 0);
    // leading zeros keep the value in range
    assert_eq!(extract_hex_after("USB\\VID_0000045E", "VID_"), 0x045E);
}

#[test]
fn slot_parsing() {
    assert_eq!(parse_xinput_slot("XINPUT\\SLOT2").unwrap(), 2);
    assert_eq!(parse_xinput_slot("xinput\\slot0").unwrap(), 0);
    assert_eq!(parse_xinput_slot("3").unwrap(), 3);
    assert!(matches!(parse_xinput_slot("7"), Err(PadSwitchError::Platform(_))));
    assert!(matches!(parse_xinput_slot("XINPUT\\SLOT"), Err(PadSwitchError::Platform(_))));
    assert!(matches!(
        parse_xinput_slot("USB\\VID_045E&PID_028E\\X"),
        Err(PadSwitchError::Platform(_))
    ));
}

#[test]
fn join_assigns_slots_in_order_and_fabricates_leftovers() {
    let controllers = vec![
        GameControllerInfo {
            instance_path: "USB\\VID_045E&PID_028E\\A".to_string(),
            name: "Xbox Controller".to_string(),
            vendor_id: 0x045E,
            product_id: 0x028E,
            is_xinput: true,
        },
        GameControllerInfo {
            instance_path: "USB\\VID_054C&PID_0CE6\\B".to_string(),
            name: "DualSense".to_string(),
            vendor_id: 0x054C,
            product_id: 0x0CE6,
            is_xinput: false,
        },
    ];
    let devices = join_devices(&controllers, &vec![0, 1]);
    assert_eq!(devices.len(), 3);
    assert_eq!(devices[0].xinput_slot, Some(0));
    assert_eq!(devices[0].device_type, DeviceType::XInput);
    assert_eq!(devices[0].id, stable_device_id("USB\\VID_045E&PID_028E\\A"));
    assert_eq!(devices[0].vendor_id, 0x045E);
    assert!(devices[0].connected && !devices[0].hidden);
    assert_eq!(devices[1].xinput_slot, None);
    assert_eq!(devices[1].device_type, DeviceType::DirectInput);
    // the unmatched occupied slot becomes a synthetic fallback entry
    assert_eq!(devices[2].instance_path, "XINPUT\\SLOT1");
    assert_eq!(devices[2].xinput_slot, Some(1));
}

#[test]
fn join_runs_out_of_slots_gracefully() {
    let xpad = GameControllerInfo {
        instance_path: "P1".to_string(),
        name: "Pad".to_string(),
        vendor_id: 1,
        product_id: 2,
        is_xinput: true,
    };
    let devices = join_devices(&vec![xpad.clone(), xpad.clone()], &vec![3]);
    assert_eq!(devices.len(), 2);
    assert_eq!(devices[0].xinput_slot, Some(3));
    assert_eq!(devices[1].xinput_slot, None);
}

#[test]
fn join_without_discovered_devices_is_fallback_only() {
    let devices = join_devices(&vec![], &vec![0, 2]);
    assert_eq!(devices.len(), 2);
    assert_eq!(devices[0].instance_path, "XINPUT\\SLOT0");
    assert_eq!(devices[1].instance_path, "XINPUT\\SLOT2");
}
