use tui_bridge::events::{event_record, key_code_from_token, key_token, translate_backend_key};
use tui_bridge::{
    BridgeError, Event, EventData, EventQueue, Field, KeyCode, KeyMods, MouseButton, MouseKind,
    Poll,
};

fn empty_data() -> EventData {
    EventData {
        code: None,
        modifiers: None,
        kind: None,
        button: None,
        x: None,
        y: None,
        width: None,
        height: None,
        content: None,
    }
}

fn key_data(code: &str) -> EventData {
    EventData { code: Some(code.to_string()), ..empty_data() }
}

#[test]
fn event_fifo_round_trip() {
    // Inject E1, E2; poll, poll: E1 comes back first, then E2; then the
    // queue is dry. After clearing, a poll in test mode is "no event".
    let mut q = EventQueue::new();
    q.inject_test_event("key", &key_data("up")).unwrap();
    q.inject_test_event("key", &key_data("down")).unwrap();
    match q.poll_event(false) {
        Poll::Ready(Event::Key { code, .. }) => assert_eq!(code, KeyCode::Up),
        other => panic!("expected the first injected event, got {:?}", other),
    }
    match q.poll_event(false) {
        Poll::Ready(Event::Key { code, .. }) => assert_eq!(code, KeyCode::Down),
        other => panic!("expected the second injected event, got {:?}", other),
    }
    assert_eq!(q.poll_event(false), Poll::NoEvent);

    q.inject_test_event("key", &key_data("a")).unwrap();
    q.clear_events();
    assert_eq!(q.poll_event(false), Poll::NoEvent);
}

#[test]
fn empty_queue_with_live_backend_asks_backend() {
    let mut q = EventQueue::new();
    assert_eq!(q.poll_event(true), Poll::AskBackend);
}

#[test]
fn key_token_round_trip() {
    // Every supported named token survives inject, poll and decode.
    let named = vec![
        KeyCode::Up,
        KeyCode::Down,
        KeyCode::Left,
        KeyCode::Right,
        KeyCode::Enter,
        KeyCode::Esc,
        KeyCode::Backspace,
        KeyCode::Tab,
        KeyCode::BackTab,
        KeyCode::Home,
        KeyCode::End,
        KeyCode::PageUp,
        KeyCode::PageDown,
        KeyCode::Insert,
        KeyCode::Delete,
        KeyCode::CapsLock,
        KeyCode::ScrollLock,
        KeyCode::NumLock,
        KeyCode::PrintScreen,
        KeyCode::Pause,
        KeyCode::Menu,
        KeyCode::F(1),
        KeyCode::F(2),
        KeyCode::F(3),
        KeyCode::F(4),
        KeyCode::F(5),
        KeyCode::F(6),
        KeyCode::F(7),
        KeyCode::F(8),
        KeyCode::F(9),
        KeyCode::F(10),
        KeyCode::F(11),
        KeyCode::F(12),
        KeyCode::MediaPlay,
        KeyCode::MediaPause,
        KeyCode::MediaPlayPause,
        KeyCode::MediaStop,
        KeyCode::MediaRewind,
        KeyCode::MediaFastForward,
        KeyCode::MediaNext,
        KeyCode::MediaPrevious,
        KeyCode::MediaRecord,
        KeyCode::MediaLowerVolume,
        KeyCode::MediaRaiseVolume,
        KeyCode::MediaMute,
        KeyCode::LeftShift,
        KeyCode::LeftCtrl,
        KeyCode::LeftAlt,
        KeyCode::LeftSuper,
        KeyCode::RightShift,
        KeyCode::RightCtrl,
        KeyCode::RightAlt,
        KeyCode::RightSuper,
    ];
    for code in named {
        let token = key_token(code);
        // Through the whole pipe: inject the token, poll it, re-encode.
        let mut q = EventQueue::new();
        q.inject_test_event("key", &key_data(token.as_str())).unwrap();
        match q.poll_event(false) {
            Poll::Ready(e) => {
                let record = event_record(&e);
                assert_eq!(record.code.as_deref(), Some(token.as_str()));
            },
            other => panic!("expected the injected key back, got {:?}", other),
        }
        assert_eq!(key_code_from_token(token.as_str()), code);
    }
}

#[test]
fn character_and_unknown_tokens() {
    assert_eq!(key_code_from_token("z"), KeyCode::Char('z'));
    assert_eq!(key_code_from_token("total_mystery"), KeyCode::Null);
    assert_eq!(key_token(KeyCode::Char('z')), "z");
}

#[test]
fn key_modifiers_fold() {
    let mut q = EventQueue::new();
    let data = EventData {
        code: Some("enter".to_string()),
        modifiers: Some(vec!["ctrl".to_string(), "shift".to_string(), "weird".to_string()]),
        ..empty_data()
    };
    q.inject_test_event("key", &data).unwrap();
    match q.poll_event(false) {
        Poll::Ready(Event::Key { code, modifiers }) => {
            assert_eq!(code, KeyCode::Enter);
            assert_eq!(modifiers, KeyMods { ctrl: true, alt: false, shift: true });
        },
        other => panic!("expected a key event, got {:?}", other),
    }
}

#[test]
fn malformed_injections_fail_loudly() {
    let mut q = EventQueue::new();
    assert_eq!(
        q.inject_test_event("key", &empty_data()),
        Err(BridgeError::MissingField(Field::Code))
    );
    assert_eq!(
        q.inject_test_event("squeak", &empty_data()),
        Err(BridgeError::UnknownEventType)
    );
    let no_coords = EventData { kind: Some("down".to_string()), ..empty_data() };
    assert_eq!(
        q.inject_test_event("mouse", &no_coords),
        Err(BridgeError::MissingField(Field::X))
    );
    let bad_kind = EventData {
        kind: Some("wiggle".to_string()),
        x: Some(1),
        y: Some(1),
        ..empty_data()
    };
    assert_eq!(
        q.inject_test_event("mouse", &bad_kind),
        Err(BridgeError::UnknownMouseKind)
    );
    assert_eq!(
        q.inject_test_event("resize", &empty_data()),
        Err(BridgeError::MissingField(Field::Width))
    );
    assert_eq!(
        q.inject_test_event("paste", &empty_data()),
        Err(BridgeError::MissingField(Field::Content))
    );
    // The queue stays empty after all those failures.
    assert_eq!(q.poll_event(false), Poll::NoEvent);
}

#[test]
fn mouse_button_defaults_and_none_sentinel() {
    let mut q = EventQueue::new();
    let down = EventData {
        kind: Some("down".to_string()),
        x: Some(4),
        y: Some(2),
        ..empty_data()
    };
    q.inject_test_event("mouse", &down).unwrap();
    match q.poll_event(false) {
        Poll::Ready(e) => {
            match &e {
                Event::Mouse { kind, button, x, y, .. } => {
                    assert_eq!(*kind, MouseKind::Down);
                    assert_eq!(*button, MouseButton::Left);
                    assert_eq!((*x, *y), (4, 2));
                },
                other => panic!("expected a mouse event, got {:?}", other),
            }
            let record = event_record(&e);
            assert_eq!(record.button.as_deref(), Some("left"));
        },
        other => panic!("expected a mouse event, got {:?}", other),
    }

    let moved = EventData {
        kind: Some("moved".to_string()),
        button: Some("right".to_string()),
        x: Some(9),
        y: Some(9),
        ..empty_data()
    };
    q.inject_test_event("mouse", &moved).unwrap();
    match q.poll_event(false) {
        Poll::Ready(e) => {
            let record = event_record(&e);
            // Kinds without a button report the explicit "none" sentinel.
            assert_eq!(record.button.as_deref(), Some("none"));
            assert_eq!(record.mouse_kind.as_deref(), Some("moved"));
        },
        other => panic!("expected a mouse event, got {:?}", other),
    }
}

#[test]
fn resize_paste_focus_pass_through() {
    let mut q = EventQueue::new();
    let resize = EventData { width: Some(80), height: Some(24), ..empty_data() };
    q.inject_test_event("resize", &resize).unwrap();
    assert_eq!(
        q.poll_event(false),
        Poll::Ready(Event::Resize { width: 80, height: 24 })
    );

    let paste = EventData { content: Some("hello".to_string()), ..empty_data() };
    q.inject_test_event("paste", &paste).unwrap();
    assert_eq!(
        q.poll_event(false),
        Poll::Ready(Event::Paste { content: "hello".to_string() })
    );

    q.inject_test_event("focus_gained", &empty_data()).unwrap();
    q.inject_test_event("focus_lost", &empty_data()).unwrap();
    assert_eq!(q.poll_event(false), Poll::Ready(Event::FocusGained));
    assert_eq!(q.poll_event(false), Poll::Ready(Event::FocusLost));
}

#[test]
fn backend_keys_surface_only_presses() {
    let mods = KeyMods { ctrl: false, alt: false, shift: false };
    assert_eq!(
        translate_backend_key(KeyCode::Enter, mods, true),
        Some(Event::Key { code: KeyCode::Enter, modifiers: mods })
    );
    assert_eq!(translate_backend_key(KeyCode::Enter, mods, false), None);
}
