//! PadSwitch core: a verified routing engine for game controllers.
//!
//! The library decides which physical game controllers occupy which of the
//! four OS-visible gamepad slots.  It models devices, user profiles and the
//! routing engine (the Minimal reordering pipeline and the Force forwarding
//! pipeline), the hiding-driver list protocol, the auto-switch process
//! watcher and the crash-recovery sweep.  All privileged OS work is expressed
//! as plans of engine actions; an embedding program performs the actions and
//! hands the outcomes back.

pub mod config;
pub mod device;
pub mod enumerate;
pub mod error;
pub mod hidhide;
pub mod identify;
pub mod mapping;
pub mod platform;
pub mod vigem;
pub mod input_loop;
pub mod state;
pub mod text;
pub mod watcher;
