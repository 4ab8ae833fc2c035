//! The byte frames of the wire protocol.
//!
//! The wire carries the descriptor as one fixed-size frame, then each event
//! record as one fixed-size frame, with no length prefix and no delimiter:
//! the consumer re-frames the stream purely by frame size. Fields are laid
//! out little-endian in the order and widths of the consumer's in-memory
//! record layout; two explicit zero bytes stand where that layout aligns
//! the axis-range arrays.

use vstd::prelude::*;

use vstd::bytes::{
    lemma_auto_spec_u16_to_from_le_bytes, lemma_auto_spec_u32_to_from_le_bytes,
    lemma_auto_spec_u64_to_from_le_bytes, spec_u16_from_le_bytes, spec_u16_to_le_bytes,
    spec_u32_from_le_bytes, spec_u32_to_le_bytes, spec_u64_from_le_bytes, spec_u64_to_le_bytes,
    u16_from_le_bytes, u16_to_le_bytes, u32_from_le_bytes, u32_to_le_bytes, u64_from_le_bytes,
    u64_to_le_bytes,
};
use vstd::slice::{slice_subrange, slice_to_vec};

use crate::descriptor::DeviceDescriptor;
use crate::events::{InputEvent, Timestamp};

verus! {

/// Size in bytes of one event frame.
pub const EVENT_FRAME_LEN: usize = 24;

/// Size in bytes of the descriptor frame.
pub const DESCRIPTOR_FRAME_LEN: usize = 896;

/// A signed 64-bit field as its 8 little-endian two's-complement bytes.
pub open spec fn spec_i64_le(x: i64) -> Seq<u8> {
    spec_u64_to_le_bytes(x as u64)
}

/// A signed 32-bit field as its 4 little-endian two's-complement bytes.
pub open spec fn spec_i32_le(x: i32) -> Seq<u8> {
    spec_u32_to_le_bytes(x as u32)
}

/// The 24 bytes of one event frame: seconds, microseconds, event type,
/// event code, value.
pub open spec fn spec_event_bytes(e: InputEvent) -> Seq<u8> {
    spec_i64_le(e.time.sec) + spec_i64_le(e.time.usec) + spec_u16_to_le_bytes(e.kind)
        + spec_u16_to_le_bytes(e.code) + spec_i32_le(e.value)
}

/// The event one 24-byte frame denotes.
pub open spec fn spec_event_of_bytes(b: Seq<u8>) -> InputEvent {
    InputEvent {
        time: Timestamp {
            sec: spec_u64_from_le_bytes(b.subrange(0, 8)) as i64,
            usec: spec_u64_from_le_bytes(b.subrange(8, 16)) as i64,
        },
        kind: spec_u16_from_le_bytes(b.subrange(16, 18)),
        code: spec_u16_from_le_bytes(b.subrange(18, 20)),
        value: spec_u32_from_le_bytes(b.subrange(20, 24)) as i32,
    }
}

/// Encode one event as its wire frame.
pub fn encode_event(e: &InputEvent) -> (out: Vec<u8>)
    ensures
        out@ == spec_event_bytes(*e),
        out@.len() == EVENT_FRAME_LEN,
{
    proof {
        lemma_auto_spec_u64_to_from_le_bytes();
        lemma_auto_spec_u16_to_from_le_bytes();
        lemma_auto_spec_u32_to_from_le_bytes();
    }
    let mut out: Vec<u8> = Vec::new();
    let mut sec = u64_to_le_bytes(#[verifier::truncate] (e.time.sec as u64));
    out.append(&mut sec);
    let mut usec = u64_to_le_bytes(#[verifier::truncate] (e.time.usec as u64));
    out.append(&mut usec);
    let mut kind = u16_to_le_bytes(e.kind);
    out.append(&mut kind);
    let mut code = u16_to_le_bytes(e.code);
    out.append(&mut code);
    let mut value = u32_to_le_bytes(#[verifier::truncate] (e.value as u32));
    out.append(&mut value);
    out
}

/// Decode one 24-byte wire frame back into an event.
pub fn decode_event(b: &[u8]) -> (e: InputEvent)
    requires
        b@.len() == EVENT_FRAME_LEN,
    ensures
        e == spec_event_of_bytes(b@),
{
    let sec_bits = u64_from_le_bytes(slice_subrange(b, 0, 8));
    let usec_bits = u64_from_le_bytes(slice_subrange(b, 8, 16));
    let kind = u16_from_le_bytes(slice_subrange(b, 16, 18));
    let code = u16_from_le_bytes(slice_subrange(b, 18, 20));
    let value_bits = u32_from_le_bytes(slice_subrange(b, 20, 24));
    InputEvent {
        time: Timestamp {
            sec: #[verifier::truncate] (sec_bits as i64),
            usec: #[verifier::truncate] (usec_bits as i64),
        },
        kind,
        code,
        value: #[verifier::truncate] (value_bits as i32),
    }
}

/// Decoding an event frame recovers the event it was encoded from, field
/// for field.
pub proof fn lemma_event_round_trip(e: InputEvent)
    ensures
        spec_event_bytes(e).len() == EVENT_FRAME_LEN,
        spec_event_of_bytes(spec_event_bytes(e)) == e,
{
    lemma_auto_spec_u64_to_from_le_bytes();
    lemma_auto_spec_u16_to_from_le_bytes();
    lemma_auto_spec_u32_to_from_le_bytes();
    let b = spec_event_bytes(e);
    assert(b.subrange(0, 8) =~= spec_u64_to_le_bytes(e.time.sec as u64));
    assert(b.subrange(8, 16) =~= spec_u64_to_le_bytes(e.time.usec as u64));
    assert(b.subrange(16, 18) =~= spec_u16_to_le_bytes(e.kind));
    assert(b.subrange(18, 20) =~= spec_u16_to_le_bytes(e.code));
    assert(b.subrange(20, 24) =~= spec_u32_to_le_bytes(e.value as u32));
    let s = e.time.sec;
    assert(s as u64 as i64 == s) by (bit_vector);
    let u = e.time.usec;
    assert(u as u64 as i64 == u) by (bit_vector);
    let v = e.value;
    assert(v as u32 as i32 == v) by (bit_vector);
}

/// The byte stream of a whole event sequence, frame after frame.
pub open spec fn spec_events_bytes(events: Seq<InputEvent>) -> Seq<u8>
    decreases events.len(),
{
    if events.len() == 0 {
        Seq::<u8>::empty()
    } else {
        spec_event_bytes(events[0]) + spec_events_bytes(events.skip(1))
    }
}

/// An event stream's length is one frame per event.
pub proof fn lemma_events_bytes_len(events: Seq<InputEvent>)
    ensures
        spec_events_bytes(events).len() == EVENT_FRAME_LEN * events.len(),
    decreases events.len(),
{
    if events.len() > 0 {
        lemma_event_round_trip(events[0]);
        lemma_events_bytes_len(events.skip(1));
    }
}

/// Frame `i` of an event stream is the encoding of event `i`.
proof fn lemma_events_bytes_index(events: Seq<InputEvent>, i: int)
    requires
        0 <= i < events.len(),
    ensures
        spec_events_bytes(events).subrange(24 * i, 24 * i + 24) =~= spec_event_bytes(events[i]),
    decreases i,
{
    lemma_events_bytes_len(events);
    lemma_event_round_trip(events[0]);
    lemma_events_bytes_len(events.skip(1));
    if i == 0 {
        assert(spec_events_bytes(events).subrange(0, 24) =~= spec_event_bytes(events[0]));
    } else {
        lemma_events_bytes_index(events.skip(1), i - 1);
        assert(events.skip(1)[i - 1] == events[i]);
        assert(spec_events_bytes(events).subrange(24 * i, 24 * i + 24) =~= spec_events_bytes(
            events.skip(1),
        ).subrange(24 * (i - 1), 24 * (i - 1) + 24));
    }
}

/// The 4-byte little-endian run of a whole axis-range array.
pub open spec fn spec_words_bytes(ws: Seq<u32>) -> Seq<u8>
    decreases ws.len(),
{
    if ws.len() == 0 {
        Seq::<u8>::empty()
    } else {
        spec_u32_to_le_bytes(ws[0]) + spec_words_bytes(ws.skip(1))
    }
}

/// An axis-range array's byte run is four bytes per entry.
pub proof fn lemma_words_bytes_len(ws: Seq<u32>)
    ensures
        spec_words_bytes(ws).len() == 4 * ws.len(),
    decreases ws.len(),
{
    lemma_auto_spec_u32_to_from_le_bytes();
    if ws.len() > 0 {
        lemma_words_bytes_len(ws.skip(1));
    }
}

/// Extending an axis-range array appends its entry's four bytes.
proof fn lemma_words_bytes_push(ws: Seq<u32>, w: u32)
    ensures
        spec_words_bytes(ws.push(w)) =~= spec_words_bytes(ws) + spec_u32_to_le_bytes(w),
    decreases ws.len(),
{
    lemma_auto_spec_u32_to_from_le_bytes();
    if ws.len() == 0 {
        assert(ws.push(w)[0] == w);
        assert(ws.push(w).skip(1) =~= ws);
        assert(spec_words_bytes(ws.push(w)) =~= spec_u32_to_le_bytes(w) + spec_words_bytes(ws));
        assert(spec_u32_to_le_bytes(w) + spec_words_bytes(ws) =~= spec_words_bytes(ws)
            + spec_u32_to_le_bytes(w));
    } else {
        assert(ws.push(w)[0] == ws[0]);
        assert(ws.push(w).skip(1) =~= ws.skip(1).push(w));
        lemma_words_bytes_push(ws.skip(1), w);
        assert(spec_words_bytes(ws.push(w)) =~= spec_u32_to_le_bytes(ws[0]) + (spec_words_bytes(
            ws.skip(1),
        ) + spec_u32_to_le_bytes(w)));
        assert(spec_u32_to_le_bytes(ws[0]) + (spec_words_bytes(ws.skip(1))
            + spec_u32_to_le_bytes(w)) =~= spec_words_bytes(ws) + spec_u32_to_le_bytes(w));
    }
}

/// The 896 bytes of the descriptor frame, field after field in the
/// consumer's layout, with two zero bytes of alignment padding before the
/// axis-range arrays.
pub open spec fn spec_descriptor_bytes(d: DeviceDescriptor) -> Seq<u8> {
    d.name@ + spec_i32_le(d.driver_version) + spec_u16_to_le_bytes(d.bustype)
        + spec_u16_to_le_bytes(d.vendor) + spec_u16_to_le_bytes(d.product) + spec_u16_to_le_bytes(
        d.version,
    ) + d.physical_location@ + d.unique_id@ + d.key_bitmask@ + d.abs_bitmask@ + d.rel_bitmask@
        + d.sw_bitmask@ + d.led_bitmask@ + d.ff_bitmask@ + d.prop_bitmask@ + seq![0u8, 0u8]
        + spec_words_bytes(d.abs_max@) + spec_words_bytes(d.abs_min@)
}

/// A well-formed descriptor always encodes to exactly one descriptor frame.
pub proof fn lemma_descriptor_bytes_len(d: DeviceDescriptor)
    requires
        d.wf(),
    ensures
        spec_descriptor_bytes(d).len() == DESCRIPTOR_FRAME_LEN,
{
    lemma_auto_spec_u32_to_from_le_bytes();
    lemma_auto_spec_u16_to_from_le_bytes();
    lemma_words_bytes_len(d.abs_max@);
    lemma_words_bytes_len(d.abs_min@);
}

/// Encode the capability descriptor as its wire frame.
pub fn encode_descriptor(d: &DeviceDescriptor) -> (out: Vec<u8>)
    requires
        d.wf(),
    ensures
        out@ == spec_descriptor_bytes(*d),
        out@.len() == DESCRIPTOR_FRAME_LEN,
{
    proof {
        lemma_auto_spec_u32_to_from_le_bytes();
        lemma_descriptor_bytes_len(*d);
    }
    let mut out: Vec<u8> = Vec::new();
    append_bytes(&mut out, &d.name);
    let mut driver_version = u32_to_le_bytes(#[verifier::truncate] (d.driver_version as u32));
    out.append(&mut driver_version);
    let mut bustype = u16_to_le_bytes(d.bustype);
    out.append(&mut bustype);
    let mut vendor = u16_to_le_bytes(d.vendor);
    out.append(&mut vendor);
    let mut product = u16_to_le_bytes(d.product);
    out.append(&mut product);
    let mut version = u16_to_le_bytes(d.version);
    out.append(&mut version);
    append_bytes(&mut out, &d.physical_location);
    append_bytes(&mut out, &d.unique_id);
    append_bytes(&mut out, &d.key_bitmask);
    append_bytes(&mut out, &d.abs_bitmask);
    append_bytes(&mut out, &d.rel_bitmask);
    append_bytes(&mut out, &d.sw_bitmask);
    append_bytes(&mut out, &d.led_bitmask);
    append_bytes(&mut out, &d.ff_bitmask);
    append_bytes(&mut out, &d.prop_bitmask);
    out.push(0);
    out.push(0);
    append_words(&mut out, &d.abs_max);
    append_words(&mut out, &d.abs_min);
    proof {
        assert(out@ =~= spec_descriptor_bytes(*d));
    }
    out
}

/// Entry `i` of an axis-range byte run holds entry `i` of the array.
proof fn lemma_words_bytes_index(ws: Seq<u32>, i: int)
    requires
        0 <= i < ws.len(),
    ensures
        spec_words_bytes(ws).subrange(4 * i, 4 * i + 4) =~= spec_u32_to_le_bytes(ws[i]),
    decreases i,
{
    lemma_auto_spec_u32_to_from_le_bytes();
    lemma_words_bytes_len(ws);
    lemma_words_bytes_len(ws.skip(1));
    if i == 0 {
        assert(spec_words_bytes(ws).subrange(0, 4) =~= spec_u32_to_le_bytes(ws[0]));
    } else {
        lemma_words_bytes_index(ws.skip(1), i - 1);
        assert(ws.skip(1)[i - 1] == ws[i]);
        assert(spec_words_bytes(ws).subrange(4 * i, 4 * i + 4) =~= spec_words_bytes(
            ws.skip(1),
        ).subrange(4 * (i - 1), 4 * (i - 1) + 4));
    }
}

/// The wire contract of the descriptor frame, read back: every field of a
/// well-formed descriptor stands at its fixed offset in the frame and can
/// be recovered from the bytes alone.
pub proof fn lemma_descriptor_bytes_fields(d: DeviceDescriptor)
    requires
        d.wf(),
    ensures
        ({
            let b = spec_descriptor_bytes(d);
            &&& b.subrange(0, 80) == d.name@
            &&& spec_u32_from_le_bytes(b.subrange(80, 84)) as i32 == d.driver_version
            &&& spec_u16_from_le_bytes(b.subrange(84, 86)) == d.bustype
            &&& spec_u16_from_le_bytes(b.subrange(86, 88)) == d.vendor
            &&& spec_u16_from_le_bytes(b.subrange(88, 90)) == d.product
            &&& spec_u16_from_le_bytes(b.subrange(90, 92)) == d.version
            &&& b.subrange(92, 172) == d.physical_location@
            &&& b.subrange(172, 252) == d.unique_id@
            &&& b.subrange(252, 348) == d.key_bitmask@
            &&& b.subrange(348, 356) == d.abs_bitmask@
            &&& b.subrange(356, 358) == d.rel_bitmask@
            &&& b.subrange(358, 360) == d.sw_bitmask@
            &&& b.subrange(360, 362) == d.led_bitmask@
            &&& b.subrange(362, 378) == d.ff_bitmask@
            &&& b.subrange(378, 382) == d.prop_bitmask@
            &&& forall|i: int|
                0 <= i < 64 ==> spec_u32_from_le_bytes(
                    #[trigger] b.subrange(384 + 4 * i, 384 + 4 * i + 4),
                ) == d.abs_max@[i]
            &&& forall|i: int|
                0 <= i < 64 ==> spec_u32_from_le_bytes(
                    #[trigger] b.subrange(640 + 4 * i, 640 + 4 * i + 4),
                ) == d.abs_min@[i]
        }),
{
    lemma_auto_spec_u32_to_from_le_bytes();
    lemma_auto_spec_u16_to_from_le_bytes();
    lemma_words_bytes_len(d.abs_max@);
    lemma_words_bytes_len(d.abs_min@);
    let b = spec_descriptor_bytes(d);
    assert(b.subrange(0, 80) =~= d.name@);
    assert(b.subrange(80, 84) =~= spec_u32_to_le_bytes(d.driver_version as u32));
    let v = d.driver_version;
    assert(v as u32 as i32 == v) by (bit_vector);
    assert(b.subrange(84, 86) =~= spec_u16_to_le_bytes(d.bustype));
    assert(b.subrange(86, 88) =~= spec_u16_to_le_bytes(d.vendor));
    assert(b.subrange(88, 90) =~= spec_u16_to_le_bytes(d.product));
    assert(b.subrange(90, 92) =~= spec_u16_to_le_bytes(d.version));
    assert(b.subrange(92, 172) =~= d.physical_location@);
    assert(b.subrange(172, 252) =~= d.unique_id@);
    assert(b.subrange(252, 348) =~= d.key_bitmask@);
    assert(b.subrange(348, 356) =~= d.abs_bitmask@);
    assert(b.subrange(356, 358) =~= d.rel_bitmask@);
    assert(b.subrange(358, 360) =~= d.sw_bitmask@);
    assert(b.subrange(360, 362) =~= d.led_bitmask@);
    assert(b.subrange(362, 378) =~= d.ff_bitmask@);
    assert(b.subrange(378, 382) =~= d.prop_bitmask@);
    assert forall|i: int| 0 <= i < 64 implies spec_u32_from_le_bytes(
        #[trigger] b.subrange(384 + 4 * i, 384 + 4 * i + 4),
    ) == d.abs_max@[i] by {
        lemma_words_bytes_index(d.abs_max@, i);
        assert(b.subrange(384 + 4 * i, 384 + 4 * i + 4) =~= spec_words_bytes(
            d.abs_max@,
        ).subrange(4 * i, 4 * i + 4));
    }
    assert forall|i: int| 0 <= i < 64 implies spec_u32_from_le_bytes(
        #[trigger] b.subrange(640 + 4 * i, 640 + 4 * i + 4),
    ) == d.abs_min@[i] by {
        lemma_words_bytes_index(d.abs_min@, i);
        assert(b.subrange(640 + 4 * i, 640 + 4 * i + 4) =~= spec_words_bytes(
            d.abs_min@,
        ).subrange(4 * i, 4 * i + 4));
    }
}

/// Decode a descriptor frame back into the record it carries, field by
/// field from the fixed offsets. Nothing is returned unless the buffer
/// holds at least one whole descriptor frame; bytes past the frame are not
/// read.
pub fn decode_descriptor(b: &[u8]) -> (r: Option<DeviceDescriptor>)
    ensures
        r.is_some() <==> b@.len() >= DESCRIPTOR_FRAME_LEN,
        r.is_some() ==> ({
            let d = r.unwrap();
            &&& d.wf()
            &&& d.name@ == b@.subrange(0, 80)
            &&& d.driver_version == spec_u32_from_le_bytes(b@.subrange(80, 84)) as i32
            &&& d.bustype == spec_u16_from_le_bytes(b@.subrange(84, 86))
            &&& d.vendor == spec_u16_from_le_bytes(b@.subrange(86, 88))
            &&& d.product == spec_u16_from_le_bytes(b@.subrange(88, 90))
            &&& d.version == spec_u16_from_le_bytes(b@.subrange(90, 92))
            &&& d.physical_location@ == b@.subrange(92, 172)
            &&& d.unique_id@ == b@.subrange(172, 252)
            &&& d.key_bitmask@ == b@.subrange(252, 348)
            &&& d.abs_bitmask@ == b@.subrange(348, 356)
            &&& d.rel_bitmask@ == b@.subrange(356, 358)
            &&& d.sw_bitmask@ == b@.subrange(358, 360)
            &&& d.led_bitmask@ == b@.subrange(360, 362)
            &&& d.ff_bitmask@ == b@.subrange(362, 378)
            &&& d.prop_bitmask@ == b@.subrange(378, 382)
            &&& forall|i: int|
                0 <= i < 64 ==> d.abs_max@[i] == spec_u32_from_le_bytes(
                    #[trigger] b@.subrange(384 + 4 * i, 384 + 4 * i + 4),
                )
            &&& forall|i: int|
                0 <= i < 64 ==> d.abs_min@[i] == spec_u32_from_le_bytes(
                    #[trigger] b@.subrange(640 + 4 * i, 640 + 4 * i + 4),
                )
        }),
{
    if b.len() < DESCRIPTOR_FRAME_LEN {
        return None;
    }
    let name = slice_to_vec(slice_subrange(b, 0, 80));
    let driver_version_bits = u32_from_le_bytes(slice_subrange(b, 80, 84));
    let bustype = u16_from_le_bytes(slice_subrange(b, 84, 86));
    let vendor = u16_from_le_bytes(slice_subrange(b, 86, 88));
    let product = u16_from_le_bytes(slice_subrange(b, 88, 90));
    let version = u16_from_le_bytes(slice_subrange(b, 90, 92));
    let physical_location = slice_to_vec(slice_subrange(b, 92, 172));
    let unique_id = slice_to_vec(slice_subrange(b, 172, 252));
    let key_bitmask = slice_to_vec(slice_subrange(b, 252, 348));
    let abs_bitmask = slice_to_vec(slice_subrange(b, 348, 356));
    let rel_bitmask = slice_to_vec(slice_subrange(b, 356, 358));
    let sw_bitmask = slice_to_vec(slice_subrange(b, 358, 360));
    let led_bitmask = slice_to_vec(slice_subrange(b, 360, 362));
    let ff_bitmask = slice_to_vec(slice_subrange(b, 362, 378));
    let prop_bitmask = slice_to_vec(slice_subrange(b, 378, 382));
    let abs_max = read_words(b, 384);
    let abs_min = read_words(b, 640);
    Some(
        DeviceDescriptor {
            name,
            driver_version: #[verifier::truncate] (driver_version_bits as i32),
            bustype,
            vendor,
            product,
            version,
            physical_location,
            unique_id,
            key_bitmask,
            abs_bitmask,
            rel_bitmask,
            sw_bitmask,
            led_bitmask,
            ff_bitmask,
            prop_bitmask,
            abs_max,
            abs_min,
        },
    )
}

/// Read 64 consecutive little-endian axis-range entries starting at `at`.
fn read_words(b: &[u8], at: usize) -> (ws: Vec<u32>)
    requires
        at + 256 <= b@.len(),
    ensures
        ws@.len() == 64,
        forall|i: int|
            0 <= i < 64 ==> ws@[i] == spec_u32_from_le_bytes(
                #[trigger] b@.subrange(at + 4 * i, at + 4 * i + 4),
            ),
{
    let n = b.len();
    let mut ws: Vec<u32> = Vec::new();
    let mut i: usize = 0;
    while i < 64
        invariant
            at + 256 <= n == b@.len(),
            i <= 64,
            ws@.len() == i,
            forall|j: int|
                0 <= j < i ==> ws@[j] == spec_u32_from_le_bytes(
                    #[trigger] b@.subrange(at + 4 * j, at + 4 * j + 4),
                ),
        decreases 64 - i,
    {
        ws.push(u32_from_le_bytes(slice_subrange(b, at + 4 * i, at + 4 * i + 4)));
        i += 1;
    }
    ws
}

/// Whether a byte stream parses as one descriptor frame followed by whole
/// event frames.
pub open spec fn stream_well_sized(b: Seq<u8>) -> bool {
    b.len() >= DESCRIPTOR_FRAME_LEN && (b.len() - DESCRIPTOR_FRAME_LEN) % (
    EVENT_FRAME_LEN as int) == 0
}

/// The events a well-sized stream carries after its descriptor frame.
pub open spec fn spec_stream_events(b: Seq<u8>) -> Seq<InputEvent> {
    Seq::new(
        ((b.len() - DESCRIPTOR_FRAME_LEN) / (EVENT_FRAME_LEN as int)) as nat,
        |i: int|
            spec_event_of_bytes(
                b.subrange(
                    DESCRIPTOR_FRAME_LEN + EVENT_FRAME_LEN * i,
                    DESCRIPTOR_FRAME_LEN + EVENT_FRAME_LEN * i + EVENT_FRAME_LEN,
                ),
            ),
    )
}

/// Re-frame a byte stream: skip the descriptor frame, then decode each
/// fixed-size event frame in order. Nothing is returned unless the stream
/// is exactly one descriptor frame plus whole event frames.
pub fn decode_stream(b: &[u8]) -> (r: Option<Vec<InputEvent>>)
    ensures
        r.is_some() <==> stream_well_sized(b@),
        r.is_some() ==> r.unwrap()@ == spec_stream_events(b@),
{
    if b.len() < DESCRIPTOR_FRAME_LEN {
        return None;
    }
    if (b.len() - DESCRIPTOR_FRAME_LEN) % EVENT_FRAME_LEN != 0 {
        return None;
    }
    let mut events: Vec<InputEvent> = Vec::new();
    let mut off: usize = DESCRIPTOR_FRAME_LEN;
    while off < b.len()
        invariant
            b@.len() >= DESCRIPTOR_FRAME_LEN,
            (b@.len() - DESCRIPTOR_FRAME_LEN) % (EVENT_FRAME_LEN as int) == 0,
            DESCRIPTOR_FRAME_LEN <= off <= b@.len(),
            (off - DESCRIPTOR_FRAME_LEN) % (EVENT_FRAME_LEN as int) == 0,
            events@.len() == (off - DESCRIPTOR_FRAME_LEN) / (EVENT_FRAME_LEN as int),
            forall|i: int|
                0 <= i < events@.len() ==> events@[i] == spec_event_of_bytes(
                    b@.subrange(
                        DESCRIPTOR_FRAME_LEN + EVENT_FRAME_LEN * i,
                        DESCRIPTOR_FRAME_LEN + EVENT_FRAME_LEN * i + EVENT_FRAME_LEN,
                    ),
                ),
        decreases b@.len() - off,
    {
        let e = decode_event(slice_subrange(b, off, off + EVENT_FRAME_LEN));
        events.push(e);
        off += EVENT_FRAME_LEN;
    }
    proof {
        assert(events@ =~= spec_stream_events(b@));
    }
    Some(events)
}

/// Round trip: concatenating the descriptor frame and any event frames and
/// re-framing the bytes by fixed frame size recovers every event, field for
/// field.
pub proof fn lemma_stream_round_trip(d: DeviceDescriptor, events: Seq<InputEvent>)
    requires
        d.wf(),
    ensures
        ({
            let stream = spec_descriptor_bytes(d) + spec_events_bytes(events);
            &&& stream_well_sized(stream)
            &&& spec_stream_events(stream) == events
        }),
{
    let stream = spec_descriptor_bytes(d) + spec_events_bytes(events);
    lemma_descriptor_bytes_len(d);
    lemma_events_bytes_len(events);
    assert(stream.len() == DESCRIPTOR_FRAME_LEN + 24 * events.len());
    assert((24 * events.len()) % 24 == 0) by (nonlinear_arith);
    assert((stream.len() - DESCRIPTOR_FRAME_LEN) / (EVENT_FRAME_LEN as int) == events.len());
    assert forall|i: int| 0 <= i < events.len() implies spec_stream_events(stream)[i]
        == events[i] by {
        lemma_events_bytes_index(events, i);
        assert(stream.subrange(896 + 24 * i, 896 + 24 * i + 24) =~= spec_events_bytes(
            events,
        ).subrange(24 * i, 24 * i + 24));
        lemma_event_round_trip(events[i]);
    }
    assert(spec_stream_events(stream) =~= events);
}

/// Append a copy of a byte field to the frame being built.
fn append_bytes(out: &mut Vec<u8>, src: &Vec<u8>)
    ensures
        final(out)@ == old(out)@ + src@,
{
    let mut i: usize = 0;
    while i < src.len()
        invariant
            i <= src@.len(),
            out@.len() == old(out)@.len() + i,
            forall|j: int| 0 <= j < old(out)@.len() ==> out@[j] == old(out)@[j],
            forall|j: int| 0 <= j < i ==> out@[old(out)@.len() + j] == src@[j],
        decreases src@.len() - i,
    {
        let b = src[i];
        out.push(b);
        i += 1;
    }
    proof {
        assert(out@ =~= old(out)@ + src@);
    }
}

/// Append an axis-range array to the frame being built, each entry as its
/// four little-endian bytes.
fn append_words(out: &mut Vec<u8>, src: &Vec<u32>)
    ensures
        final(out)@ == old(out)@ + spec_words_bytes(src@),
{
    let mut i: usize = 0;
    while i < src.len()
        invariant
            i <= src@.len(),
            out@ == old(out)@ + spec_words_bytes(src@.take(i as int)),
        decreases src@.len() - i,
    {
        let mut word = u32_to_le_bytes(src[i]);
        out.append(&mut word);
        proof {
            lemma_words_bytes_push(src@.take(i as int), src@[i as int]);
            assert(src@.take(i + 1) =~= src@.take(i as int).push(src@[i as int]));
            assert(out@ =~= old(out)@ + spec_words_bytes(src@.take(i + 1)));
        }
        i += 1;
    }
    proof {
        assert(src@.take(i as int) =~= src@);
    }
}

} // verus!
