use vinput::events::{InputEvent, Timestamp};
use vinput::tracker::{key_pulse, TouchPhase, TouchTracker};

const EV_SYN: u16 = 0x00;
const EV_KEY: u16 = 0x01;
const EV_ABS: u16 = 0x03;
const ABS_MT_SLOT: u16 = 0x2f;
const ABS_MT_POSITION_X: u16 = 0x35;
const ABS_MT_POSITION_Y: u16 = 0x36;
const ABS_MT_TRACKING_ID: u16 = 0x39;
const ABS_MT_PRESSURE: u16 = 0x3a;
const BTN_TOUCH: u16 = 0x14a;
const BTN_TOOL_FINGER: u16 = 0x145;
const KEY_BACK: u16 = 0x9e;

fn ts(sec: i64, usec: i64) -> Timestamp {
    Timestamp { sec, usec }
}

fn ev(t: Timestamp, kind: u16, code: u16, value: i32) -> InputEvent {
    InputEvent { time: t, kind, code, value }
}

#[test]
fn first_down_emits_full_batch_with_button_pulse() {
    let mut tracker = TouchTracker::new();
    let t = ts(7, 100);
    let events = tracker.on_pointer_sample(0, TouchPhase::Down, 500, 600, 30, t);
    assert_eq!(
        events,
        vec![
            ev(t, EV_ABS, ABS_MT_SLOT, 0),
            ev(t, EV_ABS, ABS_MT_TRACKING_ID, 1),
            ev(t, EV_ABS, ABS_MT_POSITION_X, 500),
            ev(t, EV_ABS, ABS_MT_POSITION_Y, 600),
            ev(t, EV_ABS, ABS_MT_PRESSURE, 30),
            ev(t, EV_KEY, BTN_TOUCH, 1),
            ev(t, EV_KEY, BTN_TOOL_FINGER, 1),
            ev(t, EV_SYN, 0, 0),
        ]
    );
}

#[test]
fn down_then_up_assigns_and_releases_one_tracking_id_per_slot() {
    // Slot bounds: every in-range pointer id gets tracking id pid + 1 once,
    // and one release with the reserved value -1.
    for pid in 0..5 {
        let mut tracker = TouchTracker::new();
        let t0 = ts(1, 0);
        let t1 = ts(2, 0);
        let down = tracker.on_pointer_sample(pid, TouchPhase::Down, 10, 20, 5, t0);
        let assigns: Vec<&InputEvent> = down
            .iter()
            .filter(|e| e.kind == EV_ABS && e.code == ABS_MT_TRACKING_ID)
            .collect();
        assert_eq!(assigns.len(), 1);
        assert_eq!(assigns[0].value, pid + 1);

        let up = tracker.on_pointer_sample(pid, TouchPhase::Up, 10, 20, 5, t1);
        let releases: Vec<&InputEvent> = up
            .iter()
            .filter(|e| e.kind == EV_ABS && e.code == ABS_MT_TRACKING_ID)
            .collect();
        assert_eq!(releases.len(), 1);
        assert_eq!(releases[0].value, -1);
    }
}

#[test]
fn out_of_range_pointer_ids_are_rejected() {
    let mut tracker = TouchTracker::new();
    let t = ts(1, 0);
    assert!(tracker.on_pointer_sample(5, TouchPhase::Down, 1, 2, 3, t).is_empty());
    assert!(tracker.on_pointer_sample(-1, TouchPhase::Down, 1, 2, 3, t).is_empty());
    assert!(tracker.on_pointer_sample(i32::MAX, TouchPhase::Move, 1, 2, 3, t).is_empty());
    assert!(tracker.on_pointer_sample(i32::MIN, TouchPhase::Up, 1, 2, 3, t).is_empty());
    // The rejected samples left no slot active: the next Down is the first
    // contact and asserts the button pulse.
    let down = tracker.on_pointer_sample(0, TouchPhase::Down, 1, 2, 3, t);
    assert!(down.iter().any(|e| e.kind == EV_KEY && e.code == BTN_TOUCH && e.value == 1));
}

#[test]
fn aggregate_button_pulses_once_on_first_down_and_last_up() {
    let mut tracker = TouchTracker::new();
    let t = ts(3, 0);
    let count_btn = |events: &Vec<InputEvent>, value: i32| {
        events
            .iter()
            .filter(|e| e.kind == EV_KEY && e.code == BTN_TOUCH && e.value == value)
            .count()
    };
    let down0 = tracker.on_pointer_sample(0, TouchPhase::Down, 1, 2, 3, t);
    let down1 = tracker.on_pointer_sample(1, TouchPhase::Down, 4, 5, 6, t);
    assert_eq!(count_btn(&down0, 1), 1);
    assert_eq!(count_btn(&down1, 1), 0);
    let up0 = tracker.on_pointer_sample(0, TouchPhase::Up, 1, 2, 3, t);
    let up1 = tracker.on_pointer_sample(1, TouchPhase::Up, 4, 5, 6, t);
    assert_eq!(count_btn(&up0, 0), 0);
    assert_eq!(count_btn(&up1, 0), 1);
}

#[test]
fn move_on_active_slot_reports_position() {
    let mut tracker = TouchTracker::new();
    let t0 = ts(1, 0);
    let t1 = ts(1, 500);
    tracker.on_pointer_sample(2, TouchPhase::Down, 10, 20, 5, t0);
    let events = tracker.on_pointer_sample(2, TouchPhase::Move, 11, 21, 6, t1);
    assert_eq!(
        events,
        vec![
            ev(t1, EV_ABS, ABS_MT_SLOT, 2),
            ev(t1, EV_ABS, ABS_MT_POSITION_X, 11),
            ev(t1, EV_ABS, ABS_MT_POSITION_Y, 21),
            ev(t1, EV_ABS, ABS_MT_PRESSURE, 6),
            ev(t1, EV_SYN, 0, 0),
        ]
    );
}

#[test]
fn redundant_transitions_emit_nothing() {
    let mut tracker = TouchTracker::new();
    let t = ts(1, 0);
    // Move and Up on an idle slot are no-ops.
    assert!(tracker.on_pointer_sample(1, TouchPhase::Move, 1, 2, 3, t).is_empty());
    assert!(tracker.on_pointer_sample(1, TouchPhase::Up, 1, 2, 3, t).is_empty());
    assert!(tracker.on_pointer_sample(1, TouchPhase::Cancel, 1, 2, 3, t).is_empty());
    // Down on an active slot is a no-op too.
    tracker.on_pointer_sample(1, TouchPhase::Down, 1, 2, 3, t);
    assert!(tracker.on_pointer_sample(1, TouchPhase::Down, 1, 2, 3, t).is_empty());
    // The slot is still active: a Move reports.
    assert!(!tracker.on_pointer_sample(1, TouchPhase::Move, 7, 8, 9, t).is_empty());
}

#[test]
fn cancel_releases_like_up() {
    let mut tracker = TouchTracker::new();
    let t = ts(1, 0);
    tracker.on_pointer_sample(3, TouchPhase::Down, 1, 2, 3, t);
    let events = tracker.on_pointer_sample(3, TouchPhase::Cancel, 1, 2, 3, t);
    assert_eq!(
        events,
        vec![
            ev(t, EV_ABS, ABS_MT_SLOT, 3),
            ev(t, EV_ABS, ABS_MT_TRACKING_ID, -1),
            ev(t, EV_KEY, BTN_TOUCH, 0),
            ev(t, EV_KEY, BTN_TOOL_FINGER, 0),
            ev(t, EV_SYN, 0, 0),
        ]
    );
}

#[test]
fn every_batch_is_well_framed() {
    // Framing: over a whole generated stream, every maximal run of events
    // ends in exactly one sync/report and no two sync/reports are adjacent.
    let mut tracker = TouchTracker::new();
    let t = ts(1, 0);
    let mut stream: Vec<InputEvent> = Vec::new();
    let samples: Vec<(i32, TouchPhase)> = vec![
        (0, TouchPhase::Down),
        (1, TouchPhase::Down),
        (0, TouchPhase::Move),
        (0, TouchPhase::Move),
        (7, TouchPhase::Down),
        (0, TouchPhase::Up),
        (0, TouchPhase::Up),
        (1, TouchPhase::Cancel),
        (2, TouchPhase::Move),
    ];
    for (pid, phase) in samples {
        stream.extend(tracker.on_pointer_sample(pid, phase, 10, 20, 5, t));
    }
    stream.extend(key_pulse(KEY_BACK, t));
    assert!(!stream.is_empty());
    assert_eq!(stream.last().unwrap().kind, EV_SYN);
    assert_ne!(stream[0].kind, EV_SYN);
    for pair in stream.windows(2) {
        assert!(!(pair[0].kind == EV_SYN && pair[1].kind == EV_SYN));
    }
}

#[test]
fn touch_down_state_tracks_slot_activity() {
    // The consumer's aggregate touch-down state (the last BTN_TOUCH value it
    // saw) always equals "at least one slot is active".
    let mut tracker = TouchTracker::new();
    let t = ts(4, 0);
    let mut stream: Vec<InputEvent> = Vec::new();
    let samples: Vec<(i32, TouchPhase)> = vec![
        (0, TouchPhase::Down),
        (3, TouchPhase::Down),
        (0, TouchPhase::Up),
        (3, TouchPhase::Move),
        (3, TouchPhase::Up),
        (2, TouchPhase::Down),
        (2, TouchPhase::Cancel),
    ];
    for (pid, phase) in samples {
        stream.extend(tracker.on_pointer_sample(pid, phase, 10, 20, 5, t));
        let consumer_state = stream
            .iter()
            .rev()
            .find(|e| e.kind == EV_KEY && e.code == BTN_TOUCH)
            .map(|e| e.value == 1)
            .unwrap_or(false);
        let any_active = tracker.slots.iter().any(|&s| s);
        assert_eq!(consumer_state, any_active);
    }
    assert!(!tracker.slots.iter().any(|&s| s));
}

#[test]
fn key_pulse_is_a_complete_press_release_cycle() {
    let t = ts(9, 250);
    let events = key_pulse(KEY_BACK, t);
    assert_eq!(
        events,
        vec![
            ev(t, EV_KEY, KEY_BACK, 1),
            ev(t, EV_SYN, 0, 0),
            ev(t, EV_KEY, KEY_BACK, 0),
            ev(t, EV_SYN, 0, 0),
        ]
    );
}
