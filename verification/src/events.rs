//! Event records and the framing discipline of the wire protocol.
//!
//! A consumer reads the socket as a stream of fixed-size records, each one
//! field update of a virtual input device. Updates arrive in batches: one or
//! more field events closed by exactly one sync/report marker.

use vstd::prelude::*;

verus! {

/// Event type for synchronization markers.
pub const EV_SYN: u16 = 0x00;
/// Event type for key and button state changes.
pub const EV_KEY: u16 = 0x01;
/// Event type for absolute-axis updates.
pub const EV_ABS: u16 = 0x03;

/// Code of the report marker that closes one logical batch of updates.
pub const SYN_REPORT: u16 = 0x00;

/// Absolute-axis code selecting the active multi-touch slot.
pub const ABS_MT_SLOT: u16 = 0x2f;
/// Absolute-axis code for a contact's X position.
pub const ABS_MT_POSITION_X: u16 = 0x35;
/// Absolute-axis code for a contact's Y position.
pub const ABS_MT_POSITION_Y: u16 = 0x36;
/// Absolute-axis code for a contact's tracking identifier.
pub const ABS_MT_TRACKING_ID: u16 = 0x39;
/// Absolute-axis code for a contact's pressure.
pub const ABS_MT_PRESSURE: u16 = 0x3a;

/// Button code asserted while at least one contact is down.
pub const BTN_TOUCH: u16 = 0x14a;
/// Button code reporting that a finger tool is in use.
pub const BTN_TOOL_FINGER: u16 = 0x145;
/// Key code of the single key the keyboard device supports.
pub const KEY_BACK: u16 = 0x9e;

/// A monotonic-clock timestamp, split into whole seconds and microseconds.
#[derive(Clone, Copy, PartialEq, Eq, Structural, Debug)]
pub struct Timestamp {
    pub sec: i64,
    pub usec: i64,
}

/// One fixed-size input record: timestamp, event type, event code, value.
///
/// One record becomes one wire frame; the consumer re-frames the stream
/// purely by the fixed record size.
#[derive(Clone, Copy, PartialEq, Eq, Structural, Debug)]
pub struct InputEvent {
    pub time: Timestamp,
    pub kind: u16,
    pub code: u16,
    pub value: i32,
}

/// An absolute-axis field update.
pub open spec fn abs_event(ts: Timestamp, code: u16, value: i32) -> InputEvent {
    InputEvent { time: ts, kind: EV_ABS, code, value }
}

/// A key or button state update.
pub open spec fn key_event(ts: Timestamp, code: u16, value: i32) -> InputEvent {
    InputEvent { time: ts, kind: EV_KEY, code, value }
}

/// The sync/report marker closing one batch of field updates.
pub open spec fn syn_event(ts: Timestamp) -> InputEvent {
    InputEvent { time: ts, kind: EV_SYN, code: SYN_REPORT, value: 0 }
}

/// Whether an event is a sync/report marker.
pub open spec fn is_syn(e: InputEvent) -> bool {
    e.kind == EV_SYN
}

/// The framing discipline: a sequence is well framed when it ends in a
/// sync/report marker, does not open with one, and never carries two
/// sync/report markers with no field event in between.
pub open spec fn well_framed(s: Seq<InputEvent>) -> bool {
    &&& s.len() > 0 ==> is_syn(s.last())
    &&& s.len() > 0 ==> !is_syn(s[0])
    &&& forall|i: int|
        0 <= i < s.len() - 1 && is_syn(#[trigger] s[i]) ==> !is_syn(s[i + 1])
}

/// Well-framed streams compose: appending one well-framed batch to another
/// keeps every maximal run of events closed by exactly one sync/report.
pub proof fn lemma_well_framed_concat(a: Seq<InputEvent>, b: Seq<InputEvent>)
    requires
        well_framed(a),
        well_framed(b),
    ensures
        well_framed(a + b),
{
    let s = a + b;
    if a.len() == 0 {
        assert(s =~= b);
    } else if b.len() == 0 {
        assert(s =~= a);
    } else {
        assert(s.last() == b.last());
        assert(s[0] == a[0]);
        assert forall|i: int|
            0 <= i < s.len() - 1 && is_syn(#[trigger] s[i]) implies !is_syn(s[i + 1]) by {
            if i < a.len() - 1 {
                assert(s[i] == a[i]);
                assert(s[i + 1] == a[i + 1]);
            } else if i == a.len() - 1 {
                assert(s[i + 1] == b[0]);
            } else {
                assert(s[i] == b[i - a.len()]);
                assert(s[i + 1] == b[i - a.len() + 1]);
            }
        }
    }
}

} // verus!
