use ime::ime_service::{ImeService, InputEvent, InputRoute, KeyboardEvent, KeyboardEventPhase};

/// Sends `value` to each listener in order; the listeners in `dead` fail. Records what reached
/// whom in `log`, and gives the outcomes.
fn send_to_all(listeners: &[u32], dead: &[u32], value: bool, log: &mut Vec<(u32, bool)>) -> Vec<bool> {
    listeners
        .iter()
        .map(|l| {
            if dead.contains(l) {
                false
            } else {
                log.push((*l, value));
                true
            }
        })
        .collect()
}

fn key(code_point: u32, phase: KeyboardEventPhase) -> InputEvent {
    InputEvent::Keyboard(KeyboardEvent {
        event_time: 0,
        device_id: 0,
        phase,
        hid_usage: 0,
        code_point,
        modifiers: 0,
    })
}

fn subscribe(svc: &mut ImeService<u32, u32>, listener: u32, dead: &[u32], log: &mut Vec<(u32, bool)>) {
    let visible = svc.keyboard_visible();
    let ok = !dead.contains(&listener);
    if ok {
        log.push((listener, visible));
    }
    svc.bind_ime_visibility_service(listener, ok);
}

#[test]
fn test_visibility_service_sends_updates() {
    let mut svc: ImeService<u32, u32> = ImeService::new();
    let mut log = Vec::new();

    // initial update with the current status
    subscribe(&mut svc, 1, &[], &mut log);
    assert_eq!(log.last(), Some(&(1, false)));

    // asking for the keyboard to close again gives another message
    let d = send_to_all(&svc.visibility_listeners().clone(), &[], false, &mut log);
    svc.hide_keyboard(&d);
    assert_eq!(log.len(), 2);
    assert_eq!(log.last(), Some(&(1, false)));

    // asking for the keyboard to open gives another message
    let d = send_to_all(&svc.visibility_listeners().clone(), &[], true, &mut log);
    svc.show_keyboard(&d);
    assert_eq!(log.last(), Some(&(1, true)));

    // asking for the keyboard to close/open from a session works
    let session = svc.get_input_method_editor(&vec![]);
    assert!(svc.is_active(session));
    let d = send_to_all(&svc.visibility_listeners().clone(), &[], false, &mut log);
    assert!(svc.update_keyboard_visibility_from_ime(session, false, &d));
    assert_eq!(log.last(), Some(&(1, false)));
    let d = send_to_all(&svc.visibility_listeners().clone(), &[], true, &mut log);
    assert!(svc.update_keyboard_visibility_from_ime(session, true, &d));
    assert_eq!(log.last(), Some(&(1, true)));
    assert_eq!(log.len(), 5);
}

#[test]
fn visibility_listener_sees_every_value_until_its_send_fails() {
    let mut svc: ImeService<u32, u32> = ImeService::new();
    let mut log = Vec::new();
    subscribe(&mut svc, 1, &[], &mut log);
    subscribe(&mut svc, 2, &[], &mut log);
    let values = [true, false, true];
    for v in values.iter() {
        let d = send_to_all(&svc.visibility_listeners().clone(), &[], *v, &mut log);
        if *v {
            svc.show_keyboard(&d);
        } else {
            svc.hide_keyboard(&d);
        }
    }
    // listener 2 fails from now on
    let d = send_to_all(&svc.visibility_listeners().clone(), &[2], false, &mut log);
    svc.hide_keyboard(&d);
    assert_eq!(svc.visibility_listeners(), &vec![1]);
    let d = send_to_all(&svc.visibility_listeners().clone(), &[], true, &mut log);
    svc.show_keyboard(&d);

    let seen_by = |l: u32| log.iter().filter(|(x, _)| *x == l).map(|(_, v)| *v).collect::<Vec<bool>>();
    assert_eq!(seen_by(1), vec![false, true, false, true, false, true]);
    assert_eq!(seen_by(2), vec![false, true, false, true]);
    assert!(svc.keyboard_visible());
}

#[test]
fn visibility_subscriber_failing_first_send_is_not_registered() {
    let mut svc: ImeService<u32, u32> = ImeService::new();
    let mut log = Vec::new();
    subscribe(&mut svc, 7, &[7], &mut log);
    assert!(svc.visibility_listeners().is_empty());
    assert!(log.is_empty());
}

#[test]
fn subscribing_twice_registers_twice() {
    let mut svc: ImeService<u32, u32> = ImeService::new();
    let mut log = Vec::new();
    subscribe(&mut svc, 3, &[], &mut log);
    subscribe(&mut svc, 3, &[], &mut log);
    assert_eq!(svc.visibility_listeners(), &vec![3, 3]);
    let d = send_to_all(&svc.visibility_listeners().clone(), &[], true, &mut log);
    svc.show_keyboard(&d);
    assert_eq!(svc.visibility_listeners(), &vec![3, 3]);
    assert_eq!(log, vec![(3, false), (3, false), (3, true), (3, true)]);
}

#[test]
fn second_session_supersedes_the_first() {
    let mut svc: ImeService<u32, u32> = ImeService::new();
    let first = svc.get_input_method_editor(&vec![]);
    let second = svc.get_input_method_editor(&vec![]);
    assert_ne!(first, second);
    assert!(!svc.is_active(first));
    assert!(svc.is_active(second));
    let ev = key('a' as u32, KeyboardEventPhase::Pressed);
    assert_eq!(svc.input_target(&ev), Some(second));
    assert_eq!(svc.inject_input(&ev, &vec![]), InputRoute::Default { session: second });
}

#[test]
fn superseded_session_cannot_change_visibility() {
    let mut svc: ImeService<u32, u32> = ImeService::new();
    let mut log = Vec::new();
    subscribe(&mut svc, 1, &[], &mut log);
    let first = svc.get_input_method_editor(&vec![]);
    let _second = svc.get_input_method_editor(&vec![]);
    assert!(!svc.update_keyboard_visibility_from_ime(first, true, &vec![]));
    assert!(!svc.keyboard_visible());
    assert_eq!(svc.visibility_listeners(), &vec![1]);
}

#[test]
fn priority_rule_with_and_without_context_listeners() {
    let mut svc: ImeService<u32, u32> = ImeService::new();
    let session = svc.get_input_method_editor(&vec![]);
    let ev = key('q' as u32, KeyboardEventPhase::Pressed);
    assert_eq!(svc.inject_input(&ev, &vec![]), InputRoute::Default { session });

    svc.bind_text_input_context(10);
    svc.bind_text_input_context(11);
    assert_eq!(svc.inject_input(&ev, &vec![false, true]), InputRoute::Listeners { session });
    assert_eq!(svc.text_input_context_clients(), &vec![11]);
    // the last listener fails on this very event: default editing still gets it
    assert_eq!(svc.inject_input(&ev, &vec![false]), InputRoute::Default { session });
    assert!(svc.text_input_context_clients().is_empty());
}

#[test]
fn events_are_dropped_without_a_session_or_when_not_keys() {
    let mut svc: ImeService<u32, u32> = ImeService::new();
    svc.bind_text_input_context(10);
    let ev = key('q' as u32, KeyboardEventPhase::Pressed);
    assert_eq!(svc.input_target(&ev), None);
    assert_eq!(svc.inject_input(&ev, &vec![]), InputRoute::Dropped);
    assert_eq!(svc.text_input_context_clients(), &vec![10]);

    let session = svc.get_input_method_editor(&vec![true]);
    assert_eq!(svc.input_target(&InputEvent::Pointer), None);
    assert_eq!(svc.inject_input(&InputEvent::Pointer, &vec![]), InputRoute::Dropped);

    svc.close_ime(session + 1);
    assert_eq!(svc.active_ime(), Some(session));
    svc.close_ime(session);
    assert_eq!(svc.active_ime(), None);
    assert_eq!(svc.inject_input(&ev, &vec![]), InputRoute::Dropped);
}

#[test]
fn context_listener_follows_sessions_and_takes_input_until_it_fails() {
    let mut svc: ImeService<u32, u32> = ImeService::new();
    let mut focus: Vec<(u32, u64)> = Vec::new();

    // session A
    let a = svc.get_input_method_editor(&vec![]);
    // context listener L1 gets a text field of A
    if let Some(s) = svc.active_ime() {
        focus.push((1, s));
    }
    svc.bind_text_input_context(1);
    assert_eq!(focus, vec![(1, a)]);

    // session B: L1 gets a text field of B
    let b = svc.get_input_method_editor(&vec![true]);
    focus.push((1, b));
    assert_ne!(a, b);
    assert_eq!(svc.text_input_context_clients(), &vec![1]);
    assert_eq!(focus.last(), Some(&(1, b)));

    // 'x' goes to L1; no default editing
    let x = key('x' as u32, KeyboardEventPhase::Pressed);
    assert_eq!(svc.input_target(&x), Some(b));
    assert_eq!(svc.inject_input(&x, &vec![true]), InputRoute::Listeners { session: b });

    // L1 is gone: 'y' goes to B's default editing
    let y = key('y' as u32, KeyboardEventPhase::Pressed);
    assert_eq!(svc.input_target(&y), Some(b));
    assert_eq!(svc.inject_input(&y, &vec![false]), InputRoute::Default { session: b });
    assert!(svc.text_input_context_clients().is_empty());
}

#[test]
fn new_session_drops_context_listeners_that_fail_the_focus_push() {
    let mut svc: ImeService<u32, u32> = ImeService::new();
    svc.bind_text_input_context(1);
    svc.bind_text_input_context(2);
    svc.bind_text_input_context(3);
    let _ = svc.get_input_method_editor(&vec![true, false, true]);
    assert_eq!(svc.text_input_context_clients(), &vec![1, 3]);
}
