use vinput::codec::{decode_descriptor, decode_event, decode_stream, encode_descriptor, encode_event};
use vinput::descriptor::{build_key_descriptor, build_touch_descriptor};
use vinput::events::{InputEvent, Timestamp};

fn ev(sec: i64, usec: i64, kind: u16, code: u16, value: i32) -> InputEvent {
    InputEvent { time: Timestamp { sec, usec }, kind, code, value }
}

#[test]
fn event_frame_layout_exact() {
    let frame = encode_event(&ev(1, 2, 3, 0x35, -1));
    assert_eq!(
        frame,
        vec![
            1, 0, 0, 0, 0, 0, 0, 0, // seconds, little endian
            2, 0, 0, 0, 0, 0, 0, 0, // microseconds, little endian
            3, 0, // event type
            0x35, 0, // event code
            0xff, 0xff, 0xff, 0xff, // value -1, two's complement
        ]
    );
}

#[test]
fn event_round_trip_preserves_fields() {
    let samples = vec![
        ev(0, 0, 0, 0, 0),
        ev(1700000000, 999999, 3, 0x39, -1),
        ev(i64::MAX, i64::MIN, u16::MAX, u16::MAX, i32::MIN),
        ev(-5, -7, 1, 0x14a, i32::MAX),
    ];
    for e in samples {
        let frame = encode_event(&e);
        assert_eq!(frame.len(), 24);
        assert_eq!(decode_event(&frame), e);
    }
}

#[test]
fn descriptor_frame_layout_exact() {
    let d = build_touch_descriptor(1080, 1920, 5);
    let frame = encode_descriptor(&d);
    assert_eq!(frame.len(), 896);
    assert_eq!(&frame[..6], b"vtouch");
    assert!(frame[6..80].iter().all(|&b| b == 0));
    assert_eq!(&frame[80..84], &[1, 0, 0, 0]); // driver version
    assert_eq!(&frame[84..86], &[6, 0]); // virtual bus
    assert_eq!(&frame[86..92], &[0, 0, 0, 0, 0, 0]); // vendor, product, version
    assert_eq!(&frame[92..134], b"/data/data/io.twoyi/rootfs/dev/input/touch");
    assert_eq!(&frame[172..182], b"<vtouch 0>");
    assert!(frame[252..348].iter().all(|&b| b == 0)); // key bitmap
    assert_eq!(&frame[348..356], &[0, 0, 0, 0, 0, 0x80, 0x60, 0x02]); // abs bitmap
    assert!(frame[356..378].iter().all(|&b| b == 0)); // rel, sw, led, ff bitmaps
    assert_eq!(&frame[378..382], &[1, 0, 0, 0]); // property bitmap
    assert_eq!(&frame[382..384], &[0, 0]); // alignment padding
    assert_eq!(&frame[384 + 4 * 0x2f..388 + 4 * 0x2f], &[4, 0, 0, 0]); // slot max
    assert_eq!(&frame[384 + 4 * 0x35..388 + 4 * 0x35], &[0x38, 0x04, 0, 0]); // width 1080
    assert_eq!(&frame[384 + 4 * 0x36..388 + 4 * 0x36], &[0x80, 0x07, 0, 0]); // height 1920
    assert_eq!(&frame[384 + 4 * 0x39..388 + 4 * 0x39], &[0xff, 0xff, 0, 0]); // tracking id max
    assert!(frame[640..].iter().all(|&b| b == 0)); // minima
}

#[test]
fn descriptor_round_trip_preserves_fields() {
    let touch = build_touch_descriptor(1080, 1920, 5);
    let key = build_key_descriptor();
    for d in [touch, key] {
        let frame = encode_descriptor(&d);
        assert_eq!(decode_descriptor(&frame), Some(d));
    }
}

#[test]
fn descriptor_decode_rejects_short_frames() {
    let frame = encode_descriptor(&build_key_descriptor());
    assert!(decode_descriptor(&frame[..895]).is_none());
    assert!(decode_descriptor(&[]).is_none());
    // Extra bytes past the frame are ignored, not an error.
    let mut long = frame.clone();
    long.extend([7u8; 24]);
    assert!(decode_descriptor(&long).is_some());
}

#[test]
fn stream_round_trip_empty() {
    let d = build_touch_descriptor(1080, 1920, 5);
    let stream = encode_descriptor(&d);
    let decoded = decode_stream(&stream).unwrap();
    assert!(decoded.is_empty());
}

#[test]
fn stream_round_trip_single_event() {
    let d = build_touch_descriptor(1080, 1920, 5);
    let mut stream = encode_descriptor(&d);
    let e = ev(12, 34, 3, 0x2f, 2);
    stream.extend(encode_event(&e));
    let decoded = decode_stream(&stream).unwrap();
    assert_eq!(decoded, vec![e]);
}

#[test]
fn stream_round_trip_thousand_events() {
    let d = build_touch_descriptor(1080, 1920, 5);
    let mut stream = encode_descriptor(&d);
    let mut events = Vec::new();
    for i in 0..1000i32 {
        let e = ev(i as i64, (i * 7) as i64, 3, 0x35, i - 500);
        stream.extend(encode_event(&e));
        events.push(e);
    }
    assert_eq!(stream.len(), 896 + 24 * 1000);
    let decoded = decode_stream(&stream).unwrap();
    assert_eq!(decoded, events);
}

#[test]
fn stream_rejects_wrong_sizes() {
    let d = build_touch_descriptor(1080, 1920, 5);
    let stream = encode_descriptor(&d);
    // Too short for the descriptor frame.
    assert!(decode_stream(&stream[..895]).is_none());
    assert!(decode_stream(&[]).is_none());
    // A ragged event frame at the end.
    let mut ragged = stream.clone();
    ragged.push(0);
    assert!(decode_stream(&ragged).is_none());
    let mut ragged23 = stream.clone();
    ragged23.extend(std::iter::repeat(0u8).take(23));
    assert!(decode_stream(&ragged23).is_none());
}
