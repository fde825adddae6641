//! Layout compilation and upload pipeline for a family of programmable macro
//! keypads: a grid of keys plus optional rotary knobs, programmed over USB HID.
//!
//! A layout is described per key and per knob as one or more layers of actions
//! (keystrokes, modifier chords, or macro sequences).  This crate validates such
//! a description against the physical capabilities of a chosen keyboard model,
//! renders it into the layered form the firmware expects, resolves which
//! attached device to program, and serialises the result into the fixed-size
//! command frames of the programming protocol.  The transport itself (reading
//! configuration text, enumerating USB devices, writing to a device node) is
//! left to the surrounding application; everything that decides or computes
//! lives here, verified.

pub mod bridge;
pub mod catalog;
pub mod layout;
pub mod locate;
pub mod pipeline;
pub mod protocol;
pub mod render;
pub mod validate;
