//! Normalized device events and the raw OS events they are made from.
//!
//! A raw event carries what the hook layer read off the OS input stream as
//! plain values: button and key identifiers as human-readable strings, mouse
//! coordinates as the bit patterns of the two 64-bit coordinates, so that
//! translation preserves them exactly.

use vstd::prelude::*;

verus! {

/// The five normalized shapes a hooked OS input event can take.
#[derive(Debug, Clone, PartialEq, Eq)]
pub enum DeviceKind {
    MousePress,
    MouseRelease,
    MouseMove,
    KeyboardPress,
    KeyboardRelease,
}

/// Variant payload of a normalized event: an opaque button/key identifier for
/// press/release events, a coordinate pair for move events.
#[derive(Debug, Clone, PartialEq, Eq)]
pub enum EventValue {
    /// Human-readable identifier of the button or key, not interpreted
    /// structurally downstream.
    Label(String),
    /// Mouse position, each coordinate as the raw bits of the 64-bit value
    /// the OS reported.
    Coords { x_bits: u64, y_bits: u64 },
}

/// One normalized input event, constructed during translation and handed to
/// the subscriber; never retained after delivery.
#[derive(Debug, Clone, PartialEq, Eq)]
pub struct DeviceEvent {
    pub kind: DeviceKind,
    pub value: EventValue,
}

impl DeviceEvent {
    /// A move event carries coordinates; every other kind carries a label.
    pub open spec fn wf(self) -> bool {
        match self.kind {
            DeviceKind::MouseMove => self.value is Coords,
            _ => self.value is Label,
        }
    }
}

/// A raw OS input event as the hook layer hands it over: the five recognized
/// shapes, plus the wheel events the listener discards.
#[derive(Debug, Clone, PartialEq, Eq)]
pub enum RawEvent {
    ButtonPress(String),
    ButtonRelease(String),
    MouseMove { x_bits: u64, y_bits: u64 },
    KeyPress(String),
    KeyRelease(String),
    /// Scroll-wheel movement: observed by the hook but not a recognized
    /// shape, so translation produces no event for it.
    Wheel { delta_x: i64, delta_y: i64 },
}

} // verus!
