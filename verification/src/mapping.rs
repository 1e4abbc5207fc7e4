//! Translation of raw evdev input to the canonical gamepad state: axis
//! normalization and the button-code bitmask.
//!
//! Absolute axes arrive with a device-specific range and are mapped onto
//! the signed 16-bit stick range or the unsigned 8-bit trigger range by
//! linear scaling with rounding to nearest (ties away from zero), the
//! vertical axes inverted.  Button codes map to the fixed sixteen-bit
//! layout of the four-slot gamepad API.

use vstd::prelude::*;

verus! {

/// Evdev key code of the south face button (also the gamepad marker).
pub const BTN_SOUTH: u16 = 0x130;

/// Rounded division for a positive divisor: nearest integer, ties away
/// from zero.
pub open spec fn spec_round_div(a: int, b: int) -> int {
    if a >= 0 {
        (2 * a + b) / (2 * b)
    } else {
        -((2 * (-a) + b) / (2 * b))
    }
}

/// A linearly rescaled axis value: the position of `value` inside
/// `min..max`, mapped onto `0..scale` and rounded, shifted by `offset`,
/// and clamped to `lo..hi`.
pub open spec fn spec_rescale(
    value: int,
    min: int,
    max: int,
    scale: int,
    offset: int,
    lo: int,
    hi: int,
) -> int {
    if max == min {
        0
    } else {
        let num = (value - min) * scale;
        let den = max - min;
        let q = if den > 0 {
            spec_round_div(num, den)
        } else {
            spec_round_div(-num, -den)
        };
        let shifted = q + offset;
        if shifted < lo {
            lo
        } else if shifted > hi {
            hi
        } else {
            shifted
        }
    }
}

/// An evdev axis value normalized to the signed 16-bit stick range.
pub open spec fn spec_normalize_axis(value: int, min: int, max: int) -> int {
    spec_rescale(value, min, max, 65535, -32768, -32768, 32767)
}

/// The inverted axis: vertical sticks point the other way between evdev
/// and the four-slot gamepad API.
pub open spec fn spec_normalize_axis_inverted(value: int, min: int, max: int) -> int {
    let n = spec_normalize_axis(value, min, max);
    if n == -32768 {
        32767
    } else {
        -n
    }
}

/// An evdev trigger value normalized to the unsigned 8-bit range.
pub open spec fn spec_normalize_trigger(value: int, min: int, max: int) -> int {
    spec_rescale(value, min, max, 255, 0, 0, 255)
}

/// Rounded division of bounded non-negative operands.
fn round_div_pos(a: u64, b: u64) -> (r: u64)
    requires
        1 <= b <= 0x200000000,
        a <= 0x1000000000000,
    ensures
        r == spec_round_div(a as int, b as int),
        r <= a + 1,
{
    proof {
        assert((2 * a + b) / (2 * b) <= a + 1) by (nonlinear_arith)
            requires
                1 <= b,
                0 <= a,
        ;
    }
    (2 * a + b) / (2 * b)
}

/// Common rescaling path shared by sticks and triggers.
fn rescale(value: i32, min: i32, max: i32, scale: u32, offset: i32, lo: i32, hi: i32) -> (r: i32)
    requires
        scale <= 65535,
        -32768 <= offset <= 0,
        -32768 <= lo <= hi <= 65535,
    ensures
        r as int == spec_rescale(
            value as int,
            min as int,
            max as int,
            scale as int,
            offset as int,
            lo as int,
            hi as int,
        ),
{
    if max == min {
        return 0;
    }
    let diff: i64 = value as i64 - min as i64;
    proof {
        assert(-0x1000000000000 <= diff * (scale as i64) <= 0x1000000000000) by (nonlinear_arith)
            requires
                -0x100000000 <= diff <= 0x100000000,
                0 <= scale <= 65535,
        ;
    }
    let num: i64 = diff * (scale as i64);
    let den: i64 = max as i64 - min as i64;
    let (num2, den2): (i64, i64) = if den < 0 {
        (-num, -den)
    } else {
        (num, den)
    };
    let q: i64 = if num2 >= 0 {
        round_div_pos(num2 as u64, den2 as u64) as i64
    } else {
        -(round_div_pos((-num2) as u64, den2 as u64) as i64)
    };
    let shifted: i64 = q + offset as i64;
    if shifted < lo as i64 {
        lo
    } else if shifted > hi as i64 {
        hi
    } else {
        shifted as i32
    }
}

/// Normalize an evdev axis value to the signed 16-bit stick range.
pub fn normalize_axis(value: i32, min: i32, max: i32) -> (r: i16)
    ensures
        r as int == spec_normalize_axis(value as int, min as int, max as int),
{
    rescale(value, min, max, 65535, -32768, -32768, 32767) as i16
}

/// Normalize an evdev axis value with the direction flipped.
pub fn normalize_axis_inverted(value: i32, min: i32, max: i32) -> (r: i16)
    ensures
        r as int == spec_normalize_axis_inverted(value as int, min as int, max as int),
{
    let n = normalize_axis(value, min, max);
    if n == i16::MIN {
        i16::MAX
    } else {
        -n
    }
}

/// Normalize an evdev trigger value to the unsigned 8-bit range.
pub fn normalize_trigger(value: i32, min: i32, max: i32) -> (r: u8)
    ensures
        r as int == spec_normalize_trigger(value as int, min as int, max as int),
{
    rescale(value, min, max, 255, 0, 0, 255) as u8
}

/// The bitmask contribution of one evdev button code in the sixteen-bit
/// gamepad layout; unmapped codes contribute nothing.
pub open spec fn spec_button_bit(code: u16) -> u16 {
    if code == 0x130 {
        0x1000  // south face button
    } else if code == 0x131 {
        0x2000  // east face button
    } else if code == 0x134 {
        0x4000  // west face button
    } else if code == 0x133 {
        0x8000  // north face button
    } else if code == 0x136 {
        0x0100  // left shoulder
    } else if code == 0x137 {
        0x0200  // right shoulder
    } else if code == 0x13a {
        0x0020  // select / back
    } else if code == 0x13b {
        0x0010  // start
    } else if code == 0x13d {
        0x0040  // left thumb click
    } else if code == 0x13e {
        0x0080  // right thumb click
    } else if code == 0x220 {
        0x0001  // directional pad up
    } else if code == 0x221 {
        0x0002  // directional pad down
    } else if code == 0x222 {
        0x0004  // directional pad left
    } else if code == 0x223 {
        0x0008  // directional pad right
    } else {
        0x0000
    }
}

/// The bitmask of a set of pressed key codes, folded left to right.
pub open spec fn spec_buttons(keys: Seq<u16>) -> u16
    decreases keys.len(),
{
    if keys.len() == 0 {
        0u16
    } else {
        spec_buttons(keys.drop_last()) | spec_button_bit(keys.last())
    }
}

/// Map the pressed evdev key codes to the sixteen-bit gamepad bitmask.
pub fn map_evdev_buttons_to_xinput(keys: &Vec<u16>) -> (r: u16)
    ensures
        r == spec_buttons(keys@),
{
    let mut acc: u16 = 0;
    let mut i: usize = 0;
    proof {
        assert(keys@.subrange(0, 0) =~= Seq::<u16>::empty());
    }
    while i < keys.len()
        invariant
            i <= keys@.len(),
            acc == spec_buttons(keys@.subrange(0, i as int)),
        decreases keys@.len() - i,
    {
        proof {
            assert(keys@.subrange(0, i + 1).drop_last() =~= keys@.subrange(0, i as int));
            assert(keys@.subrange(0, i + 1).last() == keys@[i as int]);
        }
        let code = keys[i];
        let bit: u16 = if code == 0x130 {
            0x1000
        } else if code == 0x131 {
            0x2000
        } else if code == 0x134 {
            0x4000
        } else if code == 0x133 {
            0x8000
        } else if code == 0x136 {
            0x0100
        } else if code == 0x137 {
            0x0200
        } else if code == 0x13a {
            0x0020
        } else if code == 0x13b {
            0x0010
        } else if code == 0x13d {
            0x0040
        } else if code == 0x13e {
            0x0080
        } else if code == 0x220 {
            0x0001
        } else if code == 0x221 {
            0x0002
        } else if code == 0x222 {
            0x0004
        } else if code == 0x223 {
            0x0008
        } else {
            0x0000
        };
        acc = acc | bit;
        i += 1;
    }
    proof {
        assert(keys@.subrange(0, keys@.len() as int) =~= keys@);
    }
    acc
}

/// Whether a device's supported keys mark it as a gamepad: it offers the
/// south face button (the gamepad marker code is the same button).
pub fn is_gamepad(supported_keys: &Vec<u16>) -> (r: bool)
    ensures
        r == supported_keys@.contains(BTN_SOUTH),
{
    let mut i: usize = 0;
    while i < supported_keys.len()
        invariant
            i <= supported_keys@.len(),
            forall|k: int| 0 <= k < i ==> supported_keys@[k] != BTN_SOUTH,
        decreases supported_keys@.len() - i,
    {
        if supported_keys[i] == BTN_SOUTH {
            return true;
        }
        i += 1;
    }
    false
}

} // verus!
