use dotlottie::state_machine::events::{Event as SmEvent, EventKind};
use dotlottie::state_machine::inputs::{without_reserved_inputs, Input};
use dotlottie::state_machine_engine::events::{Event, EventName, PointerEvent};
use dotlottie::state_machine_engine::listeners::{Listener, ListenerTrait};
use dotlottie::state_machine_engine::rng::Pcg32;
use dotlottie::state_machine_engine::triggers::{TriggerManager, TriggerTrait, TriggerValue};
use dotlottie::time::Instant;
use std::time::Duration;

fn b(x: f32) -> u32 {
    x.to_bits()
}

#[test]
fn triggers_read_back_what_was_set() {
    let mut t = TriggerManager::new();
    assert!(t.set_numeric("n", b(2.0)).is_none());
    assert_eq!(t.get_numeric("n"), Some(b(2.0)));
    match t.set_boolean("n", true) {
        Some(TriggerValue::Numeric(v)) => assert_eq!(v, b(2.0)),
        other => panic!("unexpected {:?}", other),
    }
    // The value changed kind: a numeric read finds nothing.
    assert_eq!(t.get_numeric("n"), None);
    assert_eq!(t.get_boolean("n"), Some(true));
    t.set_string("s", "text".to_string());
    assert_eq!(t.get_string("s"), Some("text".to_string()));
    assert!(matches!(t.get("s"), Ok(TriggerValue::String(_))));
    assert_eq!(t.get("missing").err(), Some("Trigger key not found"));
}

#[test]
fn triggers_reset_to_their_defaults() {
    let mut t = TriggerManager::new();
    t.set_initial_numeric("n", b(1.0));
    t.set_initial_string("s", "start".to_string());
    t.set_initial_boolean("flag", false);
    t.set_numeric("n", b(9.0));
    t.set_string("s", "end".to_string());
    t.set_boolean("extra", true);
    match t.reset("n") {
        Some((TriggerValue::Numeric(old), TriggerValue::Numeric(new))) => {
            assert_eq!(old, b(9.0));
            assert_eq!(new, b(1.0));
        }
        other => panic!("unexpected {:?}", other),
    }
    assert_eq!(t.get_numeric("n"), Some(b(1.0)));
    assert!(t.reset("extra").is_none());
    t.reset_all();
    assert_eq!(t.get_string("s"), Some("start".to_string()));
    assert_eq!(t.get_boolean("flag"), Some(false));
    // A trigger set without a declaration is gone after a full reset.
    assert_eq!(t.get_boolean("extra"), None);
}

#[test]
fn engine_events_report_positions_and_names() {
    let e = Event::Click { x: b(1.5), y: b(2.5) };
    assert_eq!(e.x(), b(1.5));
    assert_eq!(e.y(), b(2.5));
    assert_eq!(e.event_type_name(), "Click");
    // A pointer exit reports the origin.
    let e = Event::PointerExit { x: b(3.0), y: b(4.0) };
    assert_eq!((e.x(), e.y()), (0, 0));
    assert_eq!(e.event_type_name(), "PointerExit");
    assert_eq!(Event::OnLoopComplete.event_type_name(), "OnLoopComplete");
}

#[test]
fn state_machine_events_have_kinds_and_positions() {
    let e = SmEvent::PointerExit { x: b(3.0), y: b(4.0) };
    assert_eq!(e.kind(), EventKind::PointerExit);
    assert_eq!(e.position(), (b(3.0), b(4.0)));
    assert_eq!(SmEvent::OnComplete.position(), (0, 0));
    assert_eq!(SmEvent::OnComplete.kind().as_str(), "OnComplete");
}

#[test]
fn listeners_answer_their_layer_state_and_kind() {
    let l = Listener::PointerDown { layer_name: Some("button".to_string()), actions: vec![] };
    assert_eq!(l.get_layer_name(), Some("button".to_string()));
    assert_eq!(l.get_state_name(), None);
    assert_eq!(l.listener_type_name(), "PointerDown");
    assert!(l.get_actions().is_empty());
    let l = Listener::OnComplete { state_name: "intro".to_string(), actions: vec![] };
    assert_eq!(l.get_layer_name(), None);
    assert_eq!(l.get_state_name(), Some("intro".to_string()));
    assert_eq!(l.listener_type_name(), "OnComplete");
}

#[test]
fn at_prefixed_declarations_are_dropped() {
    let inputs = vec![
        Input::Numeric { name: "n".to_string(), value: 0 },
        Input::Boolean { name: "flag".to_string(), value: false },
        Input::Numeric { name: "@reserved".to_string(), value: b(1.0) },
        Input::Event { name: "go".to_string() },
    ];
    let kept = without_reserved_inputs(inputs);
    assert_eq!(kept.len(), 3);
    assert!(!kept.iter().any(|i| matches!(i, Input::Numeric { name, .. } if name == "@reserved")));
    assert!(matches!(&kept[2], Input::Event { name } if name == "go"));
}

#[test]
fn unit_numerators_are_the_top_bits_of_the_outputs() {
    let mut a = Pcg32::new(42);
    let mut b = Pcg32::new(42);
    for _ in 0..100 {
        let full = a.next_u32();
        let top = b.next_unit_numerator();
        assert_eq!(top, full >> 8);
        assert!(top < (1 << 24));
    }
}

#[test]
fn instants_add_and_subtract_durations() {
    let now = Instant::now();
    let later = now.checked_add(Duration::new(1, 500_000_000)).unwrap();
    assert_eq!(later.duration_since(now), Duration::new(1, 500_000_000));
    assert_eq!(later.checked_sub(Duration::new(1, 500_000_000)), Some(now));
    let far = now.checked_add(Duration::new(u64::MAX, 0));
    assert!(far.is_none());
    let nanos = now.checked_add(Duration::new(0, 999_999_999)).unwrap();
    let carried = nanos.checked_add(Duration::new(0, 2)).unwrap();
    assert_eq!(carried.duration_since(now), Duration::new(1, 1));
}

#[test]
fn instants_from_epoch_offsets() {
    let epoch = Instant::from_epoch_offset(None);
    let a = Instant::from_epoch_offset(Some(Duration::new(5, 700)));
    let b = Instant::from_epoch_offset(Some(Duration::new(7, 100)));
    assert_eq!(a.duration_since(epoch), Duration::new(5, 700));
    let d = b.duration_since(a);
    assert_eq!(d, Duration::new(1, 999_999_400));
    assert_eq!(a.checked_add(d), Some(b));
    assert_eq!(b.checked_sub(d), Some(a));
    assert_eq!(a.saturating_duration_since(b), Duration::ZERO);
    assert!(Instant::now().duration_since(epoch) > Duration::ZERO);
}
