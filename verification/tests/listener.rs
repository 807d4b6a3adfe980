//! Tests of the start guard and the hook loop: one hook per process, the
//! first sink kept, every recognized event attempted even across failed
//! deliveries.

use bongocat::event::DeviceKind;
use bongocat::event::EventValue;
use bongocat::event::RawEvent;
use bongocat::listener::pump_events;
use bongocat::listener::Listener;
use bongocat::listener::StartAction;
use bongocat::sink::ChannelSink;

#[test]
fn first_start_installs_the_hook() {
    let mut l: Listener<u32> = Listener::new();
    assert!(!l.is_running());
    assert_eq!(l.hook_count(), 0);
    assert_eq!(l.start_listening(7), StartAction::InstallHook);
    assert!(l.is_running());
    assert_eq!(l.hook_count(), 1);
    assert_eq!(*l.sink_ref(), Some(7));
}

#[test]
fn second_start_is_a_no_op() {
    let mut l: Listener<u32> = Listener::new();
    assert_eq!(l.start_listening(7), StartAction::InstallHook);
    assert_eq!(l.start_listening(8), StartAction::AlreadyRunning);
    assert!(l.is_running());
    assert_eq!(l.hook_count(), 1);
    assert_eq!(*l.sink_ref(), Some(7));
}

#[test]
fn a_burst_of_starts_installs_one_hook_and_keeps_the_first_sink() {
    let mut l: Listener<u32> = Listener::new();
    let mut installs = 0;
    for sink in [3, 1, 4, 1, 5, 9] {
        if l.start_listening(sink) == StartAction::InstallHook {
            installs += 1;
        }
    }
    assert_eq!(installs, 1);
    assert_eq!(l.hook_count(), 1);
    assert_eq!(*l.sink_ref(), Some(3));
}

#[test]
fn failed_delivery_does_not_stop_the_loop() {
    // The second delivery attempt fails; the third must still be made and
    // must arrive.
    let mut sink = ChannelSink::with_plan(vec![true, false, true]);
    let raws = vec![
        RawEvent::KeyPress("KeyQ".to_string()),
        RawEvent::KeyPress("KeyW".to_string()),
        RawEvent::KeyPress("KeyE".to_string()),
    ];
    pump_events(raws, &mut sink);
    assert_eq!(sink.attempts, 3);
    let labels: Vec<&str> = sink
        .delivered
        .iter()
        .map(|e| match &e.value {
            EventValue::Label(l) => l.as_str(),
            other => panic!("expected a label, got {:?}", other),
        })
        .collect();
    assert_eq!(labels, vec!["KeyQ", "KeyE"]);
}

#[test]
fn unrecognized_events_are_not_attempted() {
    let mut sink = ChannelSink::new();
    let raws = vec![
        RawEvent::Wheel { delta_x: 0, delta_y: 1 },
        RawEvent::KeyPress("Space".to_string()),
        RawEvent::Wheel { delta_x: -2, delta_y: 0 },
    ];
    pump_events(raws, &mut sink);
    assert_eq!(sink.attempts, 1);
    assert_eq!(sink.delivered.len(), 1);
    assert_eq!(sink.delivered[0].kind, DeviceKind::KeyboardPress);
}

#[test]
fn deliver_reports_the_scripted_outcome() {
    let mut sink = ChannelSink::with_plan(vec![false]);
    let e = bongocat::event::DeviceEvent {
        kind: DeviceKind::MousePress,
        value: EventValue::Label("Middle".to_string()),
    };
    // The scripted attempt fails, every attempt past the script succeeds.
    assert!(!sink.deliver(e.clone()));
    assert!(sink.deliver(e.clone()));
    assert_eq!(sink.attempts, 2);
    assert_eq!(sink.delivered, vec![e]);
}

#[test]
fn end_to_end_stream_arrives_in_order() {
    let mut sink = ChannelSink::new();
    let mut l: Listener<u32> = Listener::new();
    assert_eq!(l.start_listening(1), StartAction::InstallHook);
    let x = 10.0f64;
    let y = 20.0f64;
    let raws = vec![
        RawEvent::KeyPress("A".to_string()),
        RawEvent::MouseMove { x_bits: x.to_bits(), y_bits: y.to_bits() },
        RawEvent::ButtonPress("Left".to_string()),
        RawEvent::KeyRelease("A".to_string()),
    ];
    pump_events(raws, &mut sink);
    assert_eq!(sink.attempts, 4);
    assert_eq!(sink.delivered.len(), 4);
    let kinds: Vec<DeviceKind> = sink.delivered.iter().map(|e| e.kind.clone()).collect();
    assert_eq!(
        kinds,
        vec![
            DeviceKind::KeyboardPress,
            DeviceKind::MouseMove,
            DeviceKind::MousePress,
            DeviceKind::KeyboardRelease,
        ]
    );
    assert_eq!(sink.delivered[0].value, EventValue::Label("A".to_string()));
    match sink.delivered[1].value {
        EventValue::Coords { x_bits, y_bits } => {
            assert_eq!(f64::from_bits(x_bits), 10.0);
            assert_eq!(f64::from_bits(y_bits), 20.0);
        }
        ref other => panic!("expected coordinates, got {:?}", other),
    }
    assert_eq!(sink.delivered[2].value, EventValue::Label("Left".to_string()));
    assert_eq!(sink.delivered[3].value, EventValue::Label("A".to_string()));
}
