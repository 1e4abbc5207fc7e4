//! The virtual-bus adapter: the canonical gamepad state translated to the
//! bus driver's wire frame, and the placeholder management handles.
//!
//! The live bus client and the plugged virtual targets are created on the
//! worker's own stack, because the targets borrow the client; the engine
//! plans their creation and teardown.  What the library owns here is the
//! frame translation and the inert adapter the facade hands out.

use vstd::prelude::*;
use vstd::string::StringExecFns;

use crate::device::GamepadState;
use crate::error::PadSwitchError;

verus! {

/// One per-frame payload for a virtual wired controller: the sixteen
/// button bits, the two triggers and the four thumbstick axes, in
/// canonical order.
#[derive(Debug, Clone, Copy, PartialEq, Eq, Structural)]
pub struct WireFrame {
    pub buttons: u16,
    pub left_trigger: u8,
    pub right_trigger: u8,
    pub thumb_lx: i16,
    pub thumb_ly: i16,
    pub thumb_rx: i16,
    pub thumb_ry: i16,
}

/// Translate a gamepad snapshot to the wire frame.  Every field is copied
/// verbatim: the wire format and the canonical format agree bit for bit.
pub fn to_wire(state: &GamepadState) -> (r: WireFrame)
    ensures
        r.buttons == state.buttons,
        r.left_trigger == state.left_trigger,
        r.right_trigger == state.right_trigger,
        r.thumb_lx == state.thumb_lx,
        r.thumb_ly == state.thumb_ly,
        r.thumb_rx == state.thumb_rx,
        r.thumb_ry == state.thumb_ry,
{
    WireFrame {
        buttons: state.buttons,
        left_trigger: state.left_trigger,
        right_trigger: state.right_trigger,
        thumb_lx: state.thumb_lx,
        thumb_ly: state.thumb_ly,
        thumb_rx: state.thumb_rx,
        thumb_ry: state.thumb_ry,
    }
}

/// A handle standing for one plugged virtual controller.
#[derive(Debug, Clone, Copy, PartialEq, Eq, Structural)]
pub struct VirtualController {
    pub index: u32,
}

/// The facade's inert adapter for the virtual bus.  The real client lives
/// on the worker's stack for the worker's lifetime; this adapter only
/// reports that no controller can be managed through the facade.
#[derive(Debug)]
pub struct ViGEmManager {
}

impl ViGEmManager {
    /// The facade never owns a live bus connection.
    pub fn new() -> (r: Result<ViGEmManager, PadSwitchError>)
        ensures
            r matches Err(e) && e is ViGEm,
    {
        Err(
            PadSwitchError::ViGEm(
                String::from_str("The virtual bus client lives on the worker thread"),
            ),
        )
    }

    /// The facade cannot probe the bus; the worker's connect attempt is
    /// the probe.
    pub fn is_installed() -> (r: bool)
        ensures
            r == false,
    {
        false
    }

    /// Plugging through the facade is never possible.
    pub fn create_x360(&mut self) -> (r: Result<VirtualController, PadSwitchError>)
        ensures
            r matches Err(e) && e is ViGEm,
    {
        Err(PadSwitchError::ViGEm(String::from_str("No virtual bus connection on the facade")))
    }

    /// Unplugging an inert handle succeeds and does nothing.
    pub fn destroy(&mut self, controller: VirtualController) -> (r: Result<(), PadSwitchError>)
        ensures
            r is Ok,
    {
        let _ = controller;
        Ok(())
    }

    /// Updating an inert handle succeeds and does nothing.
    pub fn update(&self, controller: &VirtualController, state: &GamepadState) -> (r: Result<
        (),
        PadSwitchError,
    >)
        ensures
            r is Ok,
    {
        let _ = controller;
        let _ = state;
        Ok(())
    }
}

} // verus!
