//! Translation of raw OS input events into normalized device events.
//!
//! Each of the five recognized raw shapes maps to exactly one event kind and
//! keeps its payload unchanged; any other shape is discarded silently.

use vstd::prelude::*;

use crate::event::DeviceEvent;
use crate::event::DeviceKind;
use crate::event::EventValue;
use crate::event::RawEvent;

verus! {

/// Whether a raw event has one of the five recognized shapes.
pub open spec fn recognized(raw: RawEvent) -> bool {
    !(raw is Wheel)
}

/// What the translator produces for one raw event: a normalized event for
/// each recognized shape, nothing for any other shape. Button and key labels
/// and mouse coordinates are carried over unchanged.
pub open spec fn spec_translate(raw: RawEvent) -> Option<DeviceEvent> {
    match raw {
        RawEvent::ButtonPress(label) => Some(
            DeviceEvent { kind: DeviceKind::MousePress, value: EventValue::Label(label) },
        ),
        RawEvent::ButtonRelease(label) => Some(
            DeviceEvent { kind: DeviceKind::MouseRelease, value: EventValue::Label(label) },
        ),
        RawEvent::MouseMove { x_bits, y_bits } => Some(
            DeviceEvent { kind: DeviceKind::MouseMove, value: EventValue::Coords { x_bits, y_bits } },
        ),
        RawEvent::KeyPress(label) => Some(
            DeviceEvent { kind: DeviceKind::KeyboardPress, value: EventValue::Label(label) },
        ),
        RawEvent::KeyRelease(label) => Some(
            DeviceEvent { kind: DeviceKind::KeyboardRelease, value: EventValue::Label(label) },
        ),
        RawEvent::Wheel { .. } => None,
    }
}

/// Translate one raw event. Returns the normalized event for each of the five
/// recognized shapes, with the payload of the raw event exactly; returns
/// nothing for an unrecognized shape.
pub fn translate(raw: RawEvent) -> (r: Option<DeviceEvent>)
    ensures
        r == spec_translate(raw),
        r is Some <==> recognized(raw),
        r matches Some(e) ==> e.wf(),
{
    match raw {
        RawEvent::ButtonPress(label) => Some(
            DeviceEvent { kind: DeviceKind::MousePress, value: EventValue::Label(label) },
        ),
        RawEvent::ButtonRelease(label) => Some(
            DeviceEvent { kind: DeviceKind::MouseRelease, value: EventValue::Label(label) },
        ),
        RawEvent::MouseMove { x_bits, y_bits } => Some(
            DeviceEvent { kind: DeviceKind::MouseMove, value: EventValue::Coords { x_bits, y_bits } },
        ),
        RawEvent::KeyPress(label) => Some(
            DeviceEvent { kind: DeviceKind::KeyboardPress, value: EventValue::Label(label) },
        ),
        RawEvent::KeyRelease(label) => Some(
            DeviceEvent { kind: DeviceKind::KeyboardRelease, value: EventValue::Label(label) },
        ),
        RawEvent::Wheel { .. } => None,
    }
}

/// The events one pass over `raws` attempts to deliver: the translations of
/// the recognized raw events, in arrival order.
pub open spec fn spec_attempts(raws: Seq<RawEvent>) -> Seq<DeviceEvent>
    decreases raws.len(),
{
    if raws.len() == 0 {
        Seq::empty()
    } else {
        match spec_translate(raws[0]) {
            Some(e) => seq![e] + spec_attempts(raws.drop_first()),
            None => spec_attempts(raws.drop_first()),
        }
    }
}

/// Attempted deliveries distribute over concatenation of raw-event streams.
pub proof fn lemma_attempts_append(s: Seq<RawEvent>, t: Seq<RawEvent>)
    ensures
        spec_attempts(s + t) == spec_attempts(s) + spec_attempts(t),
    decreases s.len(),
{
    if s.len() == 0 {
        assert(s + t =~= t);
        assert(spec_attempts(s) + spec_attempts(t) =~= spec_attempts(t));
    } else {
        assert((s + t).drop_first() =~= s.drop_first() + t);
        lemma_attempts_append(s.drop_first(), t);
        match spec_translate(s[0]) {
            Some(e) => {
                assert(spec_attempts(s + t) =~= spec_attempts(s) + spec_attempts(t));
            },
            None => {},
        }
    }
}

} // verus!
