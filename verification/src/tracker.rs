//! The multi-touch slot state machine and the keyboard pulse sequencer.
//!
//! Pointer samples arrive already decoded (pointer id, phase, position,
//! pressure); each sample becomes a batch of field events closed by one
//! sync/report marker, and moves the slot the pointer maps to between
//! `Idle` and `Active`. Redundant or out-of-range samples produce nothing.

use vstd::prelude::*;

use crate::events::{
    abs_event, key_event, syn_event, well_framed, InputEvent, Timestamp, ABS_MT_POSITION_X,
    ABS_MT_POSITION_Y, ABS_MT_PRESSURE, ABS_MT_SLOT, ABS_MT_TRACKING_ID, BTN_TOOL_FINGER,
    BTN_TOUCH, EV_ABS, EV_KEY, EV_SYN, SYN_REPORT,
};

verus! {

/// Number of multi-touch slots; a pointer id maps to the slot of the same
/// index, and ids outside `[0, MAX_POINTERS)` are rejected.
pub const MAX_POINTERS: usize = 5;

/// The phase a pointer sample is tagged with.
#[derive(Clone, Copy, PartialEq, Eq, Structural, Debug)]
pub enum TouchPhase {
    Down,
    Move,
    Up,
    Cancel,
}

/// Whether at least one slot is active.
pub open spec fn any_active(slots: Seq<bool>) -> bool {
    exists|i: int| 0 <= i < slots.len() && slots[i]
}

/// Whether every slot is idle.
pub open spec fn all_idle(slots: Seq<bool>) -> bool {
    forall|i: int| 0 <= i < slots.len() ==> !slots[i]
}

/// The batch a `Down` sample emits: select the slot, assign a tracking id
/// one above the pointer id, report position and pressure, assert the
/// aggregate touch buttons if this contact is the first one down, and close
/// with a sync/report.
pub open spec fn down_events(
    pid: i32,
    x: i32,
    y: i32,
    pressure: i32,
    first_contact: bool,
    ts: Timestamp,
) -> Seq<InputEvent> {
    seq![
        abs_event(ts, ABS_MT_SLOT, pid),
        abs_event(ts, ABS_MT_TRACKING_ID, (pid + 1) as i32),
        abs_event(ts, ABS_MT_POSITION_X, x),
        abs_event(ts, ABS_MT_POSITION_Y, y),
        abs_event(ts, ABS_MT_PRESSURE, pressure),
    ] + (if first_contact {
        seq![key_event(ts, BTN_TOUCH, 1), key_event(ts, BTN_TOOL_FINGER, 1)]
    } else {
        Seq::<InputEvent>::empty()
    }) + seq![syn_event(ts)]
}

/// The batch a `Move` sample emits for an active slot: select the slot,
/// report the new position and pressure, close with a sync/report.
pub open spec fn move_events(pid: i32, x: i32, y: i32, pressure: i32, ts: Timestamp) -> Seq<
    InputEvent,
> {
    seq![
        abs_event(ts, ABS_MT_SLOT, pid),
        abs_event(ts, ABS_MT_POSITION_X, x),
        abs_event(ts, ABS_MT_POSITION_Y, y),
        abs_event(ts, ABS_MT_PRESSURE, pressure),
        syn_event(ts),
    ]
}

/// The batch an `Up` or `Cancel` sample emits for an active slot: select the
/// slot, release the tracking id, release the aggregate touch buttons if
/// this contact was the last one down, and close with a sync/report.
pub open spec fn up_events(pid: i32, last_contact: bool, ts: Timestamp) -> Seq<InputEvent> {
    seq![abs_event(ts, ABS_MT_SLOT, pid), abs_event(ts, ABS_MT_TRACKING_ID, -1i32)] + (
    if last_contact {
        seq![key_event(ts, BTN_TOUCH, 0), key_event(ts, BTN_TOOL_FINGER, 0)]
    } else {
        Seq::<InputEvent>::empty()
    }) + seq![syn_event(ts)]
}

/// The slot states after one pointer sample.
pub open spec fn next_slots(slots: Seq<bool>, pid: i32, phase: TouchPhase) -> Seq<bool> {
    if 0 <= pid < slots.len() {
        match phase {
            TouchPhase::Down => slots.update(pid as int, true),
            TouchPhase::Move => slots,
            TouchPhase::Up => slots.update(pid as int, false),
            TouchPhase::Cancel => slots.update(pid as int, false),
        }
    } else {
        slots
    }
}

/// The batch one pointer sample emits. Out-of-range pointer ids and
/// redundant transitions (a `Down` on an active slot, a `Move` or an
/// `Up`/`Cancel` on an idle one) emit nothing.
pub open spec fn pointer_events(
    slots: Seq<bool>,
    pid: i32,
    phase: TouchPhase,
    x: i32,
    y: i32,
    pressure: i32,
    ts: Timestamp,
) -> Seq<InputEvent> {
    if 0 <= pid < slots.len() {
        let p = pid as int;
        match phase {
            TouchPhase::Down => if slots[p] {
                Seq::<InputEvent>::empty()
            } else {
                down_events(pid, x, y, pressure, !any_active(slots), ts)
            },
            TouchPhase::Move => if slots[p] {
                move_events(pid, x, y, pressure, ts)
            } else {
                Seq::<InputEvent>::empty()
            },
            TouchPhase::Up | TouchPhase::Cancel => if slots[p] {
                up_events(pid, !any_active(slots.update(p, false)), ts)
            } else {
                Seq::<InputEvent>::empty()
            },
        }
    } else {
        Seq::<InputEvent>::empty()
    }
}

/// The batch one discrete key action emits: a complete press/release pulse,
/// each half closed by its own sync/report.
pub open spec fn key_pulse_events(code: u16, ts: Timestamp) -> Seq<InputEvent> {
    seq![key_event(ts, code, 1), syn_event(ts), key_event(ts, code, 0), syn_event(ts)]
}

/// Per-slot contact state for one touch device.
pub struct TouchTracker {
    pub slots: Vec<bool>,
}

impl TouchTracker {
    /// A tracker is well formed when it holds one state per slot.
    pub open spec fn wf(self) -> bool {
        self.slots@.len() == MAX_POINTERS
    }

    /// A fresh tracker with every slot idle.
    pub fn new() -> (t: TouchTracker)
        ensures
            t.wf(),
            all_idle(t.slots@),
    {
        let mut slots: Vec<bool> = Vec::new();
        let mut i: usize = 0;
        while i < MAX_POINTERS
            invariant
                i <= MAX_POINTERS,
                slots@.len() == i,
                forall|j: int| 0 <= j < i ==> !slots@[j],
            decreases MAX_POINTERS - i,
        {
            slots.push(false);
            i += 1;
        }
        TouchTracker { slots }
    }

    /// Feed one decoded pointer sample; the returned batch is what the
    /// consumer must see, in order, for this sample.
    pub fn on_pointer_sample(
        &mut self,
        pointer_id: i32,
        phase: TouchPhase,
        x: i32,
        y: i32,
        pressure: i32,
        ts: Timestamp,
    ) -> (events: Vec<InputEvent>)
        requires
            old(self).wf(),
        ensures
            final(self).wf(),
            final(self).slots@ == next_slots(old(self).slots@, pointer_id, phase),
            events@ == pointer_events(old(self).slots@, pointer_id, phase, x, y, pressure, ts),
    {
        let ghost slots0 = self.slots@;
        if pointer_id < 0 || pointer_id >= MAX_POINTERS as i32 {
            return Vec::new();
        }
        let p = pointer_id as usize;
        match phase {
            TouchPhase::Down => {
                if self.slots[p] {
                    proof {
                        assert(next_slots(slots0, pointer_id, phase) =~= slots0);
                    }
                    Vec::new()
                } else {
                    let first = none_active(&self.slots);
                    self.slots[p] = true;
                    let mut events: Vec<InputEvent> = Vec::new();
                    events.push(InputEvent { time: ts, kind: EV_ABS, code: ABS_MT_SLOT, value: pointer_id });
                    events.push(InputEvent {
                        time: ts,
                        kind: EV_ABS,
                        code: ABS_MT_TRACKING_ID,
                        value: pointer_id + 1,
                    });
                    events.push(InputEvent { time: ts, kind: EV_ABS, code: ABS_MT_POSITION_X, value: x });
                    events.push(InputEvent { time: ts, kind: EV_ABS, code: ABS_MT_POSITION_Y, value: y });
                    events.push(InputEvent { time: ts, kind: EV_ABS, code: ABS_MT_PRESSURE, value: pressure });
                    if first {
                        events.push(InputEvent { time: ts, kind: EV_KEY, code: BTN_TOUCH, value: 1 });
                        events.push(InputEvent { time: ts, kind: EV_KEY, code: BTN_TOOL_FINGER, value: 1 });
                    }
                    events.push(InputEvent { time: ts, kind: EV_SYN, code: SYN_REPORT, value: 0 });
                    proof {
                        assert(events@ =~= pointer_events(slots0, pointer_id, phase, x, y, pressure, ts));
                    }
                    events
                }
            },
            TouchPhase::Move => {
                if self.slots[p] {
                    let mut events: Vec<InputEvent> = Vec::new();
                    events.push(InputEvent { time: ts, kind: EV_ABS, code: ABS_MT_SLOT, value: pointer_id });
                    events.push(InputEvent { time: ts, kind: EV_ABS, code: ABS_MT_POSITION_X, value: x });
                    events.push(InputEvent { time: ts, kind: EV_ABS, code: ABS_MT_POSITION_Y, value: y });
                    events.push(InputEvent { time: ts, kind: EV_ABS, code: ABS_MT_PRESSURE, value: pressure });
                    events.push(InputEvent { time: ts, kind: EV_SYN, code: SYN_REPORT, value: 0 });
                    proof {
                        assert(events@ =~= pointer_events(slots0, pointer_id, phase, x, y, pressure, ts));
                    }
                    events
                } else {
                    Vec::new()
                }
            },
            TouchPhase::Up | TouchPhase::Cancel => {
                if self.slots[p] {
                    self.slots[p] = false;
                    let last = none_active(&self.slots);
                    let mut events: Vec<InputEvent> = Vec::new();
                    events.push(InputEvent { time: ts, kind: EV_ABS, code: ABS_MT_SLOT, value: pointer_id });
                    events.push(InputEvent { time: ts, kind: EV_ABS, code: ABS_MT_TRACKING_ID, value: -1 });
                    if last {
                        events.push(InputEvent { time: ts, kind: EV_KEY, code: BTN_TOUCH, value: 0 });
                        events.push(InputEvent { time: ts, kind: EV_KEY, code: BTN_TOOL_FINGER, value: 0 });
                    }
                    events.push(InputEvent { time: ts, kind: EV_SYN, code: SYN_REPORT, value: 0 });
                    proof {
                        assert(events@ =~= pointer_events(slots0, pointer_id, phase, x, y, pressure, ts));
                    }
                    events
                } else {
                    proof {
                        assert(next_slots(slots0, pointer_id, phase) =~= slots0);
                    }
                    Vec::new()
                }
            },
        }
    }
}

/// Generate the press/release pulse for one discrete key action.
pub fn key_pulse(code: u16, ts: Timestamp) -> (events: Vec<InputEvent>)
    ensures
        events@ == key_pulse_events(code, ts),
{
    let mut events: Vec<InputEvent> = Vec::new();
    events.push(InputEvent { time: ts, kind: EV_KEY, code, value: 1 });
    events.push(InputEvent { time: ts, kind: EV_SYN, code: SYN_REPORT, value: 0 });
    events.push(InputEvent { time: ts, kind: EV_KEY, code, value: 0 });
    events.push(InputEvent { time: ts, kind: EV_SYN, code: SYN_REPORT, value: 0 });
    proof {
        assert(events@ =~= key_pulse_events(code, ts));
    }
    events
}

/// One decoded pointer sample: pointer id, phase, position, pressure and
/// the timestamp its events will carry.
pub struct PointerSample {
    pub pointer_id: i32,
    pub phase: TouchPhase,
    pub x: i32,
    pub y: i32,
    pub pressure: i32,
    pub ts: Timestamp,
}

/// The slot states after a whole run of samples.
pub open spec fn run_slots(slots: Seq<bool>, samples: Seq<PointerSample>) -> Seq<bool>
    decreases samples.len(),
{
    if samples.len() == 0 {
        slots
    } else {
        let s = samples[0];
        run_slots(next_slots(slots, s.pointer_id, s.phase), samples.skip(1))
    }
}

/// Every event a whole run of samples emits, in the order the consumer
/// sees it.
pub open spec fn run_events(slots: Seq<bool>, samples: Seq<PointerSample>) -> Seq<InputEvent>
    decreases samples.len(),
{
    if samples.len() == 0 {
        Seq::<InputEvent>::empty()
    } else {
        let s = samples[0];
        pointer_events(slots, s.pointer_id, s.phase, s.x, s.y, s.pressure, s.ts) + run_events(
            next_slots(slots, s.pointer_id, s.phase),
            samples.skip(1),
        )
    }
}

/// The framing invariant over any generated stream: however a run of
/// samples interleaves pointers and phases, the emitted stream ends in a
/// sync/report and never carries two sync/reports back to back.
pub proof fn lemma_run_well_framed(slots: Seq<bool>, samples: Seq<PointerSample>)
    ensures
        well_framed(run_events(slots, samples)),
    decreases samples.len(),
{
    if samples.len() > 0 {
        let s = samples[0];
        lemma_pointer_batch_well_framed(slots, s.pointer_id, s.phase, s.x, s.y, s.pressure, s.ts);
        lemma_run_well_framed(next_slots(slots, s.pointer_id, s.phase), samples.skip(1));
        crate::events::lemma_well_framed_concat(
            pointer_events(slots, s.pointer_id, s.phase, s.x, s.y, s.pressure, s.ts),
            run_events(next_slots(slots, s.pointer_id, s.phase), samples.skip(1)),
        );
    }
}

/// The aggregate touch-down state the consumer holds after replaying a
/// stream: the value of the stream's last touch-button event, or the
/// starting state where it carries none.
pub open spec fn touch_down_after(down: bool, s: Seq<InputEvent>) -> bool
    decreases s.len(),
{
    if s.len() == 0 {
        down
    } else {
        touch_down_after(
            if s[0].kind == EV_KEY && s[0].code == BTN_TOUCH {
                s[0].value == 1
            } else {
                down
            },
            s.skip(1),
        )
    }
}

/// Replaying a concatenation replays its parts in order.
proof fn lemma_touch_down_concat(down: bool, s1: Seq<InputEvent>, s2: Seq<InputEvent>)
    ensures
        touch_down_after(down, s1 + s2) == touch_down_after(touch_down_after(down, s1), s2),
    decreases s1.len(),
{
    if s1.len() == 0 {
        assert(s1 + s2 =~= s2);
    } else {
        assert((s1 + s2).skip(1) =~= s1.skip(1) + s2);
        lemma_touch_down_concat(
            if s1[0].kind == EV_KEY && s1[0].code == BTN_TOUCH {
                s1[0].value == 1
            } else {
                down
            },
            s1.skip(1),
            s2,
        );
    }
}

/// A stream with no touch-button event leaves the state alone.
proof fn lemma_touch_down_no_btn(down: bool, s: Seq<InputEvent>)
    requires
        forall|i: int|
            0 <= i < s.len() ==> !(#[trigger] s[i].kind == EV_KEY && s[i].code == BTN_TOUCH),
    ensures
        touch_down_after(down, s) == down,
    decreases s.len(),
{
    if s.len() > 0 {
        lemma_touch_down_no_btn(down, s.skip(1));
    }
}

/// A stream whose only touch-button event stands at index `at` ends in the
/// state that event sets.
proof fn lemma_touch_down_single(down: bool, s: Seq<InputEvent>, at: int)
    requires
        0 <= at < s.len(),
        s[at].kind == EV_KEY && s[at].code == BTN_TOUCH,
        forall|i: int|
            0 <= i < s.len() && i != at ==> !(#[trigger] s[i].kind == EV_KEY && s[i].code
                == BTN_TOUCH),
    ensures
        touch_down_after(down, s) == (s[at].value == 1),
    decreases s.len(),
{
    if at == 0 {
        lemma_touch_down_no_btn(s[0].value == 1, s.skip(1));
    } else {
        assert(s.skip(1)[at - 1] == s[at]);
        lemma_touch_down_single(
            if s[0].kind == EV_KEY && s[0].code == BTN_TOUCH {
                s[0].value == 1
            } else {
                down
            },
            s.skip(1),
            at - 1,
        );
    }
}

/// One sample keeps the consumer's touch-down state in step with the
/// slots: after its batch, the state equals whether any slot is active.
proof fn lemma_batch_touch_down(
    slots: Seq<bool>,
    pid: i32,
    phase: TouchPhase,
    x: i32,
    y: i32,
    pressure: i32,
    ts: Timestamp,
)
    ensures
        touch_down_after(any_active(slots), pointer_events(slots, pid, phase, x, y, pressure, ts))
            == any_active(next_slots(slots, pid, phase)),
{
    let batch = pointer_events(slots, pid, phase, x, y, pressure, ts);
    let next = next_slots(slots, pid, phase);
    if 0 <= pid < slots.len() {
        let p = pid as int;
        match phase {
            TouchPhase::Down => {
                if slots[p] {
                    assert(next =~= slots);
                } else {
                    assert(next[p]);
                    if !any_active(slots) {
                        assert(batch =~= seq![
                            abs_event(ts, ABS_MT_SLOT, pid),
                            abs_event(ts, ABS_MT_TRACKING_ID, (pid + 1) as i32),
                            abs_event(ts, ABS_MT_POSITION_X, x),
                            abs_event(ts, ABS_MT_POSITION_Y, y),
                            abs_event(ts, ABS_MT_PRESSURE, pressure),
                            key_event(ts, BTN_TOUCH, 1),
                            key_event(ts, BTN_TOOL_FINGER, 1),
                            syn_event(ts),
                        ]);
                        lemma_touch_down_single(any_active(slots), batch, 5);
                    } else {
                        assert(batch =~= seq![
                            abs_event(ts, ABS_MT_SLOT, pid),
                            abs_event(ts, ABS_MT_TRACKING_ID, (pid + 1) as i32),
                            abs_event(ts, ABS_MT_POSITION_X, x),
                            abs_event(ts, ABS_MT_POSITION_Y, y),
                            abs_event(ts, ABS_MT_PRESSURE, pressure),
                            syn_event(ts),
                        ]);
                        lemma_touch_down_no_btn(any_active(slots), batch);
                        let j = choose|j: int| 0 <= j < slots.len() && slots[j];
                        assert(next[j]);
                    }
                }
            },
            TouchPhase::Move => {
                if slots[p] {
                    lemma_touch_down_no_btn(any_active(slots), batch);
                }
            },
            TouchPhase::Up | TouchPhase::Cancel => {
                if !slots[p] {
                    assert(next =~= slots);
                } else {
                    assert(any_active(slots));
                    if !any_active(slots.update(p, false)) {
                        assert(batch =~= seq![
                            abs_event(ts, ABS_MT_SLOT, pid),
                            abs_event(ts, ABS_MT_TRACKING_ID, -1i32),
                            key_event(ts, BTN_TOUCH, 0),
                            key_event(ts, BTN_TOOL_FINGER, 0),
                            syn_event(ts),
                        ]);
                        lemma_touch_down_single(any_active(slots), batch, 2);
                    } else {
                        assert(batch =~= seq![
                            abs_event(ts, ABS_MT_SLOT, pid),
                            abs_event(ts, ABS_MT_TRACKING_ID, -1i32),
                            syn_event(ts),
                        ]);
                        lemma_touch_down_no_btn(any_active(slots), batch);
                    }
                }
            },
        }
    } else {
        assert(next =~= slots);
    }
}

/// The aggregate state invariant over any run: at least one slot is active
/// exactly when the touch-down button state the consumer last saw is
/// asserted.
pub proof fn lemma_aggregate_state_invariant(slots: Seq<bool>, samples: Seq<PointerSample>)
    ensures
        touch_down_after(any_active(slots), run_events(slots, samples)) == any_active(
            run_slots(slots, samples),
        ),
    decreases samples.len(),
{
    if samples.len() > 0 {
        let s = samples[0];
        let batch = pointer_events(slots, s.pointer_id, s.phase, s.x, s.y, s.pressure, s.ts);
        let next = next_slots(slots, s.pointer_id, s.phase);
        lemma_batch_touch_down(slots, s.pointer_id, s.phase, s.x, s.y, s.pressure, s.ts);
        lemma_touch_down_concat(any_active(slots), batch, run_events(next, samples.skip(1)));
        lemma_aggregate_state_invariant(next, samples.skip(1));
    }
}

/// How many events in a sequence carry the given type and code.
pub open spec fn count_code(s: Seq<InputEvent>, kind: u16, code: u16) -> nat
    decreases s.len(),
{
    if s.len() == 0 {
        0
    } else {
        (if s[0].kind == kind && s[0].code == code {
            1nat
        } else {
            0nat
        }) + count_code(s.skip(1), kind, code)
    }
}

/// Every batch a pointer sample emits is well framed: it is either empty or
/// closed by exactly one sync/report, with no two sync/reports adjacent.
pub proof fn lemma_pointer_batch_well_framed(
    slots: Seq<bool>,
    pid: i32,
    phase: TouchPhase,
    x: i32,
    y: i32,
    pressure: i32,
    ts: Timestamp,
)
    ensures
        well_framed(pointer_events(slots, pid, phase, x, y, pressure, ts)),
{
    let s = pointer_events(slots, pid, phase, x, y, pressure, ts);
    if 0 <= pid < slots.len() {
        match phase {
            TouchPhase::Down => {
                if !slots[pid as int] {
                    if !any_active(slots) {
                        assert(s =~= seq![
                            abs_event(ts, ABS_MT_SLOT, pid),
                            abs_event(ts, ABS_MT_TRACKING_ID, (pid + 1) as i32),
                            abs_event(ts, ABS_MT_POSITION_X, x),
                            abs_event(ts, ABS_MT_POSITION_Y, y),
                            abs_event(ts, ABS_MT_PRESSURE, pressure),
                            key_event(ts, BTN_TOUCH, 1),
                            key_event(ts, BTN_TOOL_FINGER, 1),
                            syn_event(ts),
                        ]);
                    } else {
                        assert(s =~= seq![
                            abs_event(ts, ABS_MT_SLOT, pid),
                            abs_event(ts, ABS_MT_TRACKING_ID, (pid + 1) as i32),
                            abs_event(ts, ABS_MT_POSITION_X, x),
                            abs_event(ts, ABS_MT_POSITION_Y, y),
                            abs_event(ts, ABS_MT_PRESSURE, pressure),
                            syn_event(ts),
                        ]);
                    }
                }
            },
            TouchPhase::Move => {},
            TouchPhase::Up | TouchPhase::Cancel => {
                if slots[pid as int] {
                    if !any_active(slots.update(pid as int, false)) {
                        assert(s =~= seq![
                            abs_event(ts, ABS_MT_SLOT, pid),
                            abs_event(ts, ABS_MT_TRACKING_ID, -1i32),
                            key_event(ts, BTN_TOUCH, 0),
                            key_event(ts, BTN_TOOL_FINGER, 0),
                            syn_event(ts),
                        ]);
                    } else {
                        assert(s =~= seq![
                            abs_event(ts, ABS_MT_SLOT, pid),
                            abs_event(ts, ABS_MT_TRACKING_ID, -1i32),
                            syn_event(ts),
                        ]);
                    }
                }
            },
        }
    }
}

/// Every key pulse is well framed: press and release are each closed by one
/// sync/report, and the pulse never ends on a bare press or release.
pub proof fn lemma_key_pulse_well_framed(code: u16, ts: Timestamp)
    ensures
        well_framed(key_pulse_events(code, ts)),
{
}

/// A `Down` then an `Up` on one idle slot assign exactly one tracking id,
/// one above the pointer id, and release exactly one, with the reserved
/// value `-1`; a pointer id outside the slot range emits nothing at all.
pub proof fn lemma_slot_bounds(
    slots: Seq<bool>,
    pid: i32,
    x: i32,
    y: i32,
    pressure: i32,
    ts0: Timestamp,
    ts1: Timestamp,
)
    requires
        slots.len() == MAX_POINTERS,
        0 <= pid < MAX_POINTERS ==> !slots[pid as int],
    ensures
        0 <= pid < MAX_POINTERS ==> ({
            let down = pointer_events(slots, pid, TouchPhase::Down, x, y, pressure, ts0);
            let slots1 = next_slots(slots, pid, TouchPhase::Down);
            let up = pointer_events(slots1, pid, TouchPhase::Up, x, y, pressure, ts1);
            &&& count_code(down, EV_ABS, ABS_MT_TRACKING_ID) == 1
            &&& down[1] == abs_event(ts0, ABS_MT_TRACKING_ID, (pid + 1) as i32)
            &&& count_code(up, EV_ABS, ABS_MT_TRACKING_ID) == 1
            &&& up[1] == abs_event(ts1, ABS_MT_TRACKING_ID, -1i32)
        }),
        !(0 <= pid < MAX_POINTERS) ==> ({
            &&& pointer_events(slots, pid, TouchPhase::Down, x, y, pressure, ts0)
                == Seq::<InputEvent>::empty()
            &&& next_slots(slots, pid, TouchPhase::Down) == slots
        }),
{
    if 0 <= pid < MAX_POINTERS {
        let down = pointer_events(slots, pid, TouchPhase::Down, x, y, pressure, ts0);
        let slots1 = next_slots(slots, pid, TouchPhase::Down);
        let up = pointer_events(slots1, pid, TouchPhase::Up, x, y, pressure, ts1);
        assert(slots1[pid as int]);
        lemma_count_single(down, 1, EV_ABS, ABS_MT_TRACKING_ID);
        lemma_count_single(up, 1, EV_ABS, ABS_MT_TRACKING_ID);
    }
}

/// In a sequence whose only event of the given type and code stands at
/// index `at`, the count of such events is exactly one.
proof fn lemma_count_single(s: Seq<InputEvent>, at: int, kind: u16, code: u16)
    requires
        0 <= at < s.len(),
        s[at].kind == kind && s[at].code == code,
        forall|i: int|
            0 <= i < s.len() && i != at ==> !(#[trigger] s[i].kind == kind && s[i].code == code),
    ensures
        count_code(s, kind, code) == 1,
    decreases s.len(),
{
    if at == 0 {
        lemma_count_none(s.skip(1), kind, code);
    } else {
        assert(s.skip(1)[at - 1] == s[at]);
        lemma_count_single(s.skip(1), at - 1, kind, code);
    }
}

/// In a sequence with no event of the given type and code, the count is
/// zero.
proof fn lemma_count_none(s: Seq<InputEvent>, kind: u16, code: u16)
    requires
        forall|i: int|
            0 <= i < s.len() ==> !(#[trigger] s[i].kind == kind && s[i].code == code),
    ensures
        count_code(s, kind, code) == 0,
    decreases s.len(),
{
    if s.len() > 0 {
        lemma_count_none(s.skip(1), kind, code);
    }
}

/// Starting from all slots idle, the aggregate touch-contact buttons are
/// pressed exactly once, on the first `Down`, and released exactly once, on
/// the last `Up`, however two distinct pointers interleave.
pub proof fn lemma_aggregate_button(
    slots0: Seq<bool>,
    p0: i32,
    p1: i32,
    x: i32,
    y: i32,
    pressure: i32,
    ts: Timestamp,
)
    requires
        slots0.len() == MAX_POINTERS,
        all_idle(slots0),
        0 <= p0 < MAX_POINTERS,
        0 <= p1 < MAX_POINTERS,
        p0 != p1,
    ensures
        ({
            let down0 = pointer_events(slots0, p0, TouchPhase::Down, x, y, pressure, ts);
            let slots1 = next_slots(slots0, p0, TouchPhase::Down);
            let down1 = pointer_events(slots1, p1, TouchPhase::Down, x, y, pressure, ts);
            let slots2 = next_slots(slots1, p1, TouchPhase::Down);
            let up0 = pointer_events(slots2, p0, TouchPhase::Up, x, y, pressure, ts);
            let slots3 = next_slots(slots2, p0, TouchPhase::Up);
            let up1 = pointer_events(slots3, p1, TouchPhase::Up, x, y, pressure, ts);
            &&& count_code(down0, EV_KEY, BTN_TOUCH) == 1
            &&& count_code(down1, EV_KEY, BTN_TOUCH) == 0
            &&& count_code(up0, EV_KEY, BTN_TOUCH) == 0
            &&& count_code(up1, EV_KEY, BTN_TOUCH) == 1
            &&& down0[5] == key_event(ts, BTN_TOUCH, 1)
            &&& up1[2] == key_event(ts, BTN_TOUCH, 0)
        }),
{
    let down0 = pointer_events(slots0, p0, TouchPhase::Down, x, y, pressure, ts);
    let slots1 = next_slots(slots0, p0, TouchPhase::Down);
    let down1 = pointer_events(slots1, p1, TouchPhase::Down, x, y, pressure, ts);
    let slots2 = next_slots(slots1, p1, TouchPhase::Down);
    let up0 = pointer_events(slots2, p0, TouchPhase::Up, x, y, pressure, ts);
    let slots3 = next_slots(slots2, p0, TouchPhase::Up);
    let up1 = pointer_events(slots3, p1, TouchPhase::Up, x, y, pressure, ts);

    assert(!any_active(slots0));
    lemma_count_single(down0, 5, EV_KEY, BTN_TOUCH);

    assert(any_active(slots1)) by {
        assert(slots1[p0 as int]);
    }
    assert(!slots1[p1 as int]);
    lemma_count_none(down1, EV_KEY, BTN_TOUCH);

    assert(slots2[p0 as int]);
    assert(any_active(slots2.update(p0 as int, false))) by {
        assert(slots2.update(p0 as int, false)[p1 as int]);
    }
    lemma_count_none(up0, EV_KEY, BTN_TOUCH);

    assert(slots3[p1 as int]);
    assert(!any_active(slots3.update(p1 as int, false)));
    lemma_count_single(up1, 2, EV_KEY, BTN_TOUCH);
}

/// Redundant transitions are ignored: a `Down` on an active slot, or a
/// `Move`, `Up` or `Cancel` on an idle one, emits no event and leaves every
/// slot as it was.
pub proof fn lemma_redundant_transition_noop(
    slots: Seq<bool>,
    pid: i32,
    phase: TouchPhase,
    x: i32,
    y: i32,
    pressure: i32,
    ts: Timestamp,
)
    requires
        0 <= pid < slots.len(),
        phase == TouchPhase::Down <==> slots[pid as int],
    ensures
        pointer_events(slots, pid, phase, x, y, pressure, ts) == Seq::<InputEvent>::empty(),
        next_slots(slots, pid, phase) == slots,
{
    assert(next_slots(slots, pid, phase) =~= slots);
}

/// Whether no slot in the vector is active.
fn none_active(slots: &Vec<bool>) -> (r: bool)
    ensures
        r == !any_active(slots@),
{
    let mut i: usize = 0;
    while i < slots.len()
        invariant
            i <= slots@.len(),
            forall|j: int| 0 <= j < i ==> !slots@[j],
        decreases slots@.len() - i,
    {
        if slots[i] {
            proof {
                assert(slots@[i as int]);
            }
            return false;
        }
        i += 1;
    }
    true
}

} // verus!
