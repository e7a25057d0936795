use powerbuttond::powerbutton::{
    decide_action, InputEvent, PowerAction, PowerButton, PressType, KEY_VALUE_PRESSED,
    POWER_KEY_CODE,
};

fn press(time_ms: u64) -> InputEvent {
    InputEvent { key: POWER_KEY_CODE, value: KEY_VALUE_PRESSED, time_ms }
}

fn release(time_ms: u64) -> InputEvent {
    InputEvent { key: POWER_KEY_CODE, value: 0, time_ms }
}

fn other_key(time_ms: u64, value: i32) -> InputEvent {
    InputEvent { key: 30, value, time_ms }
}

#[test]
fn new_classifier_starts_idle() {
    let pb = PowerButton::new(String::from("/dev/input/event0"), 1000);
    assert_eq!(pb.device_path, "/dev/input/event0");
    assert_eq!(pb.long_press_threshold_ms, 1000);
    assert_eq!(pb.last_pressed_at_ms, None);
}

#[test]
fn short_press_scenario() {
    // press at t=0ms, release at t=300ms, threshold=1000ms
    let mut pb = PowerButton::new(String::new(), 1000);
    let out = pb.process_events(&vec![press(0), release(300)]);
    assert_eq!(out, vec![PressType::ShortPress]);
}

#[test]
fn long_press_scenario() {
    // press at t=0ms, release at t=1500ms, threshold=1000ms
    let mut pb = PowerButton::new(String::new(), 1000);
    let out = pb.process_events(&vec![press(0), release(1500)]);
    assert_eq!(out, vec![PressType::LongPress]);
}

#[test]
fn elapsed_exactly_threshold_is_long() {
    let mut pb = PowerButton::new(String::new(), 1000);
    let out = pb.process_events(&vec![press(0), release(1000)]);
    assert_eq!(out, vec![PressType::LongPress]);
}

#[test]
fn elapsed_just_below_threshold_is_short() {
    let mut pb = PowerButton::new(String::new(), 1000);
    let out = pb.process_events(&vec![press(0), release(999)]);
    assert_eq!(out, vec![PressType::ShortPress]);
}

#[test]
fn repeated_press_overwrites_timestamp() {
    // press, press again at t=100ms, release at t=1200ms, threshold=1000ms:
    // elapsed is measured from the t=100ms press (1100ms), so LongPress.
    let mut pb = PowerButton::new(String::new(), 1000);
    let out = pb.process_events(&vec![press(0), press(100), release(1200)]);
    assert_eq!(out, vec![PressType::LongPress]);
}

#[test]
fn repeated_press_overwrite_can_turn_short() {
    // The same release would be long from the first press but is short
    // from the overwriting second one.
    let mut pb = PowerButton::new(String::new(), 1000);
    let out = pb.process_events(&vec![press(0), press(900), release(1200)]);
    assert_eq!(out, vec![PressType::ShortPress]);
}

#[test]
fn release_without_press_is_long() {
    let mut pb = PowerButton::new(String::new(), 1000);
    let out = pb.on_event(release(5));
    assert_eq!(out, Some(PressType::LongPress));
}

#[test]
fn other_keys_never_classify() {
    let mut pb = PowerButton::new(String::new(), 1000);
    assert_eq!(pb.on_event(other_key(0, 1)), None);
    assert_eq!(pb.on_event(other_key(10, 0)), None);
    assert_eq!(pb.last_pressed_at_ms, None);
    let out = pb.process_events(&vec![other_key(20, 1), other_key(30, 0), other_key(40, 2)]);
    assert_eq!(out, Vec::new());
}

#[test]
fn other_keys_do_not_disturb_a_tracked_press() {
    let mut pb = PowerButton::new(String::new(), 1000);
    let out = pb.process_events(&vec![press(0), other_key(100, 1), other_key(200, 0), release(
        300,
    )]);
    assert_eq!(out, vec![PressType::ShortPress]);
}

#[test]
fn one_classification_per_release() {
    let mut pb = PowerButton::new(String::new(), 1000);
    let events = vec![
        press(0),
        release(300),
        other_key(400, 1),
        press(500),
        press(600),
        release(2000),
        release(2100),
    ];
    let out = pb.process_events(&events);
    // three releases, three classifications
    assert_eq!(out.len(), 3);
    assert_eq!(out, vec![PressType::ShortPress, PressType::LongPress, PressType::LongPress]);
}

#[test]
fn loop_stops_with_exactly_n_classifications() {
    // The stream delivers N press/release cycles and then fails: only the
    // events seen before the failure are processed, so exactly N
    // classifications come out and none after.
    let mut pb = PowerButton::new(String::new(), 1000);
    let delivered = vec![press(0), release(100), press(1000), release(2500)];
    let out = pb.process_events(&delivered);
    assert_eq!(out.len(), 2);
    assert_eq!(out, vec![PressType::ShortPress, PressType::LongPress]);
}

#[test]
fn press_records_most_recent_time() {
    let mut pb = PowerButton::new(String::new(), 1000);
    assert_eq!(pb.on_event(press(42)), None);
    assert_eq!(pb.last_pressed_at_ms, Some(42));
    assert_eq!(pb.on_event(press(77)), None);
    assert_eq!(pb.last_pressed_at_ms, Some(77));
}

#[test]
fn stale_timestamp_persists_after_release() {
    // The recorded press time is kept after a release; a second release
    // with no new press measures from the stale press.
    let mut pb = PowerButton::new(String::new(), 1000);
    assert_eq!(pb.on_event(press(0)), None);
    assert_eq!(pb.on_event(release(100)), Some(PressType::ShortPress));
    assert_eq!(pb.last_pressed_at_ms, Some(0));
    assert_eq!(pb.on_event(release(5000)), Some(PressType::LongPress));
}

#[test]
fn decide_action_covers_all_cases() {
    assert_eq!(decide_action(PressType::ShortPress, true), PowerAction::ForwardShortPress);
    assert_eq!(decide_action(PressType::LongPress, true), PowerAction::ForwardLongPress);
    assert_eq!(decide_action(PressType::ShortPress, false), PowerAction::Suspend);
    assert_eq!(decide_action(PressType::LongPress, false), PowerAction::Poweroff);
}
