use vinput::descriptor::{build_key_descriptor, build_touch_descriptor};

#[test]
fn touch_descriptor_abs_bitmap_exact() {
    let d = build_touch_descriptor(1080, 1920, 5);
    // Exactly the slot (0x2f), X (0x35), Y (0x36) and tracking-id (0x39) bits.
    assert_eq!(d.abs_bitmask, vec![0u8, 0, 0, 0, 0, 0x80, 0x60, 0x02]);
    for (i, b) in d.abs_bitmask.iter().enumerate() {
        let expected: u8 = match i {
            5 => 0x80,
            6 => 0x60,
            7 => 0x02,
            _ => 0,
        };
        assert_eq!(*b, expected);
    }
}

#[test]
fn touch_descriptor_axis_ranges_exact() {
    let d = build_touch_descriptor(1080, 1920, 5);
    assert_eq!(d.abs_max.len(), 64);
    assert_eq!(d.abs_min.len(), 64);
    for a in 0..64 {
        let expected: u32 = match a {
            0x35 => 1080,
            0x36 => 1920,
            0x2f => 4,
            0x39 => 65535,
            _ => 0,
        };
        assert_eq!(d.abs_max[a], expected);
        assert_eq!(d.abs_min[a], 0);
    }
}

#[test]
fn touch_descriptor_identity_fields() {
    let d = build_touch_descriptor(1080, 1920, 5);
    assert_eq!(d.driver_version, 1);
    assert_eq!(d.bustype, 0x06);
    assert_eq!(d.vendor, 0);
    assert_eq!(d.product, 0);
    assert_eq!(d.version, 0);
    assert_eq!(&d.name[..6], b"vtouch");
    assert!(d.name[6..].iter().all(|&b| b == 0));
    assert_eq!(&d.physical_location[..42], b"/data/data/io.twoyi/rootfs/dev/input/touch");
    assert!(d.physical_location[42..].iter().all(|&b| b == 0));
    assert_eq!(&d.unique_id[..10], b"<vtouch 0>");
    assert!(d.unique_id[10..].iter().all(|&b| b == 0));
    // The direct-input property and nothing else.
    assert_eq!(d.prop_bitmask, vec![1u8, 0, 0, 0]);
    // No capability the device does not have: every other bitmap is zero.
    assert!(d.key_bitmask.iter().all(|&b| b == 0));
    assert!(d.rel_bitmask.iter().all(|&b| b == 0));
    assert!(d.sw_bitmask.iter().all(|&b| b == 0));
    assert!(d.led_bitmask.iter().all(|&b| b == 0));
    assert!(d.ff_bitmask.iter().all(|&b| b == 0));
}

#[test]
fn touch_descriptor_other_sizes() {
    let d = build_touch_descriptor(720, 1280, 10);
    assert_eq!(d.abs_max[0x35], 720);
    assert_eq!(d.abs_max[0x36], 1280);
    assert_eq!(d.abs_max[0x2f], 9);
    assert_eq!(d.abs_max[0x39], 65535);
}

#[test]
fn key_descriptor_exact() {
    let d = build_key_descriptor();
    assert_eq!(d.driver_version, 1);
    assert_eq!(d.bustype, 0);
    assert_eq!(&d.name[..4], b"vkey");
    assert!(d.name[4..].iter().all(|&b| b == 0));
    assert_eq!(&d.physical_location[..41], b"/data/data/io.twoyi/rootfs/dev/input/key0");
    assert_eq!(&d.unique_id[..12], b"<keyboard 0>");
    // Exactly the back key: code 158 = byte 19, bit 6.
    assert_eq!(d.key_bitmask.len(), 96);
    for (i, b) in d.key_bitmask.iter().enumerate() {
        let expected: u8 = if i == 19 { 0x40 } else { 0 };
        assert_eq!(*b, expected);
    }
    assert!(d.abs_bitmask.iter().all(|&b| b == 0));
    assert!(d.prop_bitmask.iter().all(|&b| b == 0));
    assert!(d.abs_max.iter().all(|&w| w == 0));
    assert!(d.abs_min.iter().all(|&w| w == 0));
}
