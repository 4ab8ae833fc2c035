//! The fixed-size capability descriptor a consumer reads on connect.
//!
//! The descriptor is a fixed-layout record: display name, driver version,
//! bus/vendor/product/version identifiers, location and unique-id strings,
//! six capability bitmaps plus a device-property bitmap, and per-axis
//! minimum and maximum arrays indexed by absolute-axis code. Every
//! capability the device does not have must be an explicit zero bit, never
//! garbage.

use vstd::prelude::*;

use vstd::string::is_ascii;

use crate::events::{ABS_MT_POSITION_X, ABS_MT_POSITION_Y, ABS_MT_SLOT, ABS_MT_TRACKING_ID, KEY_BACK};

verus! {

/// Capacity of the name, physical-location and unique-id fields.
pub const NAME_LEN: usize = 80;

/// Bytes in the key-code capability bitmap (key codes 0 to 0x2ff).
pub const KEY_BITMASK_LEN: usize = 96;

/// Bytes in the absolute-axis capability bitmap (axis codes 0 to 0x3f).
pub const ABS_BITMASK_LEN: usize = 8;

/// Bytes in the relative-axis capability bitmap.
pub const REL_BITMASK_LEN: usize = 2;

/// Bytes in the switch capability bitmap.
pub const SW_BITMASK_LEN: usize = 2;

/// Bytes in the LED capability bitmap.
pub const LED_BITMASK_LEN: usize = 2;

/// Bytes in the force-feedback capability bitmap.
pub const FF_BITMASK_LEN: usize = 16;

/// Bytes in the device-property bitmap.
pub const PROP_BITMASK_LEN: usize = 4;

/// Number of absolute-axis slots in the min/max range arrays.
pub const ABS_CNT: usize = 64;

/// The bus identifier of a virtual device.
pub const BUS_VIRTUAL: u16 = 0x06;

/// The fixed-layout capability record of one virtual device.
#[derive(Clone, Debug, PartialEq, Eq)]
pub struct DeviceDescriptor {
    pub name: Vec<u8>,
    pub driver_version: i32,
    pub bustype: u16,
    pub vendor: u16,
    pub product: u16,
    pub version: u16,
    pub physical_location: Vec<u8>,
    pub unique_id: Vec<u8>,
    pub key_bitmask: Vec<u8>,
    pub abs_bitmask: Vec<u8>,
    pub rel_bitmask: Vec<u8>,
    pub sw_bitmask: Vec<u8>,
    pub led_bitmask: Vec<u8>,
    pub ff_bitmask: Vec<u8>,
    pub prop_bitmask: Vec<u8>,
    pub abs_max: Vec<u32>,
    pub abs_min: Vec<u32>,
}

impl DeviceDescriptor {
    /// A descriptor is well formed when every field has its fixed capacity,
    /// so that its byte layout is the one the consumer expects.
    pub open spec fn wf(self) -> bool {
        &&& self.name@.len() == NAME_LEN
        &&& self.physical_location@.len() == NAME_LEN
        &&& self.unique_id@.len() == NAME_LEN
        &&& self.key_bitmask@.len() == KEY_BITMASK_LEN
        &&& self.abs_bitmask@.len() == ABS_BITMASK_LEN
        &&& self.rel_bitmask@.len() == REL_BITMASK_LEN
        &&& self.sw_bitmask@.len() == SW_BITMASK_LEN
        &&& self.led_bitmask@.len() == LED_BITMASK_LEN
        &&& self.ff_bitmask@.len() == FF_BITMASK_LEN
        &&& self.prop_bitmask@.len() == PROP_BITMASK_LEN
        &&& self.abs_max@.len() == ABS_CNT
        &&& self.abs_min@.len() == ABS_CNT
    }
}

/// The display name of the touch device.
pub open spec fn touch_device_name() -> Seq<char> {
    "vtouch"@
}

/// The socket path, doubling as physical location, of the touch device.
pub open spec fn touch_device_path() -> Seq<char> {
    "/data/data/io.twoyi/rootfs/dev/input/touch"@
}

/// The unique id of the touch device.
pub open spec fn touch_device_unique_id() -> Seq<char> {
    "<vtouch 0>"@
}

/// The display name of the keyboard device.
pub open spec fn key_device_name() -> Seq<char> {
    "vkey"@
}

/// The socket path, doubling as physical location, of the keyboard device.
pub open spec fn key_device_path() -> Seq<char> {
    "/data/data/io.twoyi/rootfs/dev/input/key0"@
}

/// The unique id of the keyboard device.
pub open spec fn key_device_unique_id() -> Seq<char> {
    "<keyboard 0>"@
}

/// An ASCII string laid into a zero-padded field of `n` bytes.
pub open spec fn padded_ascii(s: Seq<char>, n: int) -> Seq<u8> {
    Seq::new(
        n as nat,
        |i: int|
            if i < s.len() {
                s[i] as u8
            } else {
                0u8
            },
    )
}

/// A bitmap of `n` zero bytes: no capability present.
pub open spec fn zero_bitmap(n: int) -> Seq<u8> {
    Seq::new(n as nat, |i: int| 0u8)
}

/// Axis ranges of `n` zeroed entries: no axis present.
pub open spec fn zero_ranges(n: int) -> Seq<u32> {
    Seq::new(n as nat, |i: int| 0u32)
}

/// The absolute-axis capability bitmap of the touch device: exactly the
/// bits of the slot axis (0x2f, byte 5 bit 7), the X and Y position axes
/// (0x35 and 0x36, byte 6 bits 5 and 6) and the tracking-id axis (0x39,
/// byte 7 bit 1).
pub open spec fn touch_abs_bitmap() -> Seq<u8> {
    Seq::new(
        ABS_BITMASK_LEN as nat,
        |i: int|
            if i == 5 {
                0x80u8
            } else if i == 6 {
                0x60u8
            } else if i == 7 {
                0x02u8
            } else {
                0u8
            },
    )
}

/// The device-property bitmap of the touch device: exactly the direct-input
/// property (bit 0), so coordinates are absolute screen space.
pub open spec fn touch_prop_bitmap() -> Seq<u8> {
    Seq::new(
        PROP_BITMASK_LEN as nat,
        |i: int|
            if i == 0 {
                0x01u8
            } else {
                0u8
            },
    )
}

/// The per-axis maxima of the touch device: the X and Y position axes run
/// to the display width and height, the slot axis to one below the pointer
/// capacity, the tracking-id axis to 65535; every other axis is zero.
pub open spec fn touch_abs_ranges(width: u32, height: u32, max_pointers: u32) -> Seq<u32> {
    Seq::new(
        ABS_CNT as nat,
        |i: int|
            if i == ABS_MT_POSITION_X as int {
                width
            } else if i == ABS_MT_POSITION_Y as int {
                height
            } else if i == ABS_MT_SLOT as int {
                (max_pointers - 1) as u32
            } else if i == ABS_MT_TRACKING_ID as int {
                65535u32
            } else {
                0u32
            },
    )
}

/// The key capability bitmap of the keyboard device: exactly the bit of the
/// back key (code 0x9e, byte 19 bit 6).
pub open spec fn key_bitmap() -> Seq<u8> {
    Seq::new(
        KEY_BITMASK_LEN as nat,
        |i: int|
            if i == KEY_BACK as int / 8 {
                0x40u8
            } else {
                0u8
            },
    )
}

/// Whether bit `idx` of a capability bitmap is set.
pub open spec fn bitmap_bit(bm: Seq<u8>, idx: int) -> bool {
    (bm[idx / 8] >> ((idx % 8) as u8)) & 1u8 == 1u8
}

/// Build the capability descriptor of the touch device for the given
/// display size and pointer capacity.
pub fn build_touch_descriptor(width: u32, height: u32, max_pointers: u32) -> (d: DeviceDescriptor)
    requires
        max_pointers >= 1,
    ensures
        d.wf(),
        d.driver_version == 1,
        d.bustype == BUS_VIRTUAL,
        d.vendor == 0,
        d.product == 0,
        d.version == 0,
        d.name@ == padded_ascii(touch_device_name(), NAME_LEN as int),
        d.physical_location@ == padded_ascii(touch_device_path(), NAME_LEN as int),
        d.unique_id@ == padded_ascii(touch_device_unique_id(), NAME_LEN as int),
        d.key_bitmask@ == zero_bitmap(KEY_BITMASK_LEN as int),
        d.abs_bitmask@ == touch_abs_bitmap(),
        d.rel_bitmask@ == zero_bitmap(REL_BITMASK_LEN as int),
        d.sw_bitmask@ == zero_bitmap(SW_BITMASK_LEN as int),
        d.led_bitmask@ == zero_bitmap(LED_BITMASK_LEN as int),
        d.ff_bitmask@ == zero_bitmap(FF_BITMASK_LEN as int),
        d.prop_bitmask@ == touch_prop_bitmap(),
        d.abs_max@ == touch_abs_ranges(width, height, max_pointers),
        d.abs_min@ == zero_ranges(ABS_CNT as int),
{
    proof {
        reveal_strlit("vtouch");
        reveal_strlit("/data/data/io.twoyi/rootfs/dev/input/touch");
        reveal_strlit("<vtouch 0>");
    }
    let name = padded_str_bytes("vtouch", NAME_LEN);
    let physical_location = padded_str_bytes("/data/data/io.twoyi/rootfs/dev/input/touch", NAME_LEN);
    let unique_id = padded_str_bytes("<vtouch 0>", NAME_LEN);

    let mut abs_bitmask = zero_bytes(ABS_BITMASK_LEN);
    abs_bitmask[5] = 0x80;  // slot axis 0x2f
    abs_bitmask[6] = 0x60;  // X axis 0x35, Y axis 0x36
    abs_bitmask[7] = 0x02;  // tracking-id axis 0x39

    let mut prop_bitmask = zero_bytes(PROP_BITMASK_LEN);
    prop_bitmask[0] = 0x01;  // direct-input property

    let mut abs_max = zero_words(ABS_CNT);
    abs_max[ABS_MT_POSITION_X as usize] = width;
    abs_max[ABS_MT_POSITION_Y as usize] = height;
    abs_max[ABS_MT_SLOT as usize] = max_pointers - 1;
    abs_max[ABS_MT_TRACKING_ID as usize] = 65535;

    let d = DeviceDescriptor {
        name,
        driver_version: 1,
        bustype: BUS_VIRTUAL,
        vendor: 0,
        product: 0,
        version: 0,
        physical_location,
        unique_id,
        key_bitmask: zero_bytes(KEY_BITMASK_LEN),
        abs_bitmask,
        rel_bitmask: zero_bytes(REL_BITMASK_LEN),
        sw_bitmask: zero_bytes(SW_BITMASK_LEN),
        led_bitmask: zero_bytes(LED_BITMASK_LEN),
        ff_bitmask: zero_bytes(FF_BITMASK_LEN),
        prop_bitmask,
        abs_max,
        abs_min: zero_words(ABS_CNT),
    };
    proof {
        assert(d.abs_bitmask@ =~= touch_abs_bitmap());
        assert(d.prop_bitmask@ =~= touch_prop_bitmap());
        assert(d.abs_max@ =~= touch_abs_ranges(width, height, max_pointers));
    }
    d
}

/// Build the capability descriptor of the keyboard device, which supports
/// exactly one key, the back action.
pub fn build_key_descriptor() -> (d: DeviceDescriptor)
    ensures
        d.wf(),
        d.driver_version == 1,
        d.bustype == 0,
        d.vendor == 0,
        d.product == 0,
        d.version == 0,
        d.name@ == padded_ascii(key_device_name(), NAME_LEN as int),
        d.physical_location@ == padded_ascii(key_device_path(), NAME_LEN as int),
        d.unique_id@ == padded_ascii(key_device_unique_id(), NAME_LEN as int),
        d.key_bitmask@ == key_bitmap(),
        d.abs_bitmask@ == zero_bitmap(ABS_BITMASK_LEN as int),
        d.rel_bitmask@ == zero_bitmap(REL_BITMASK_LEN as int),
        d.sw_bitmask@ == zero_bitmap(SW_BITMASK_LEN as int),
        d.led_bitmask@ == zero_bitmap(LED_BITMASK_LEN as int),
        d.ff_bitmask@ == zero_bitmap(FF_BITMASK_LEN as int),
        d.prop_bitmask@ == zero_bitmap(PROP_BITMASK_LEN as int),
        d.abs_max@ == zero_ranges(ABS_CNT as int),
        d.abs_min@ == zero_ranges(ABS_CNT as int),
{
    proof {
        reveal_strlit("vkey");
        reveal_strlit("/data/data/io.twoyi/rootfs/dev/input/key0");
        reveal_strlit("<keyboard 0>");
    }
    let name = padded_str_bytes("vkey", NAME_LEN);
    let physical_location = padded_str_bytes("/data/data/io.twoyi/rootfs/dev/input/key0", NAME_LEN);
    let unique_id = padded_str_bytes("<keyboard 0>", NAME_LEN);

    let mut key_bitmask = zero_bytes(KEY_BITMASK_LEN);
    key_bitmask[19] = 0x40;  // back key 0x9e

    let d = DeviceDescriptor {
        name,
        driver_version: 1,
        bustype: 0,
        vendor: 0,
        product: 0,
        version: 0,
        physical_location,
        unique_id,
        key_bitmask,
        abs_bitmask: zero_bytes(ABS_BITMASK_LEN),
        rel_bitmask: zero_bytes(REL_BITMASK_LEN),
        sw_bitmask: zero_bytes(SW_BITMASK_LEN),
        led_bitmask: zero_bytes(LED_BITMASK_LEN),
        ff_bitmask: zero_bytes(FF_BITMASK_LEN),
        prop_bitmask: zero_bytes(PROP_BITMASK_LEN),
        abs_max: zero_words(ABS_CNT),
        abs_min: zero_words(ABS_CNT),
    };
    proof {
        assert(d.key_bitmask@ =~= key_bitmap());
    }
    d
}

/// Descriptor bit-exactness, bit side: the touch device's absolute-axis
/// bitmap holds exactly the slot, X, Y and tracking-id bits, and no other.
pub proof fn lemma_touch_bitmap_exact()
    ensures
        forall|a: int|
            0 <= a < 64 ==> (bitmap_bit(touch_abs_bitmap(), a) <==> (a == ABS_MT_SLOT as int || a
                == ABS_MT_POSITION_X as int || a == ABS_MT_POSITION_Y as int || a
                == ABS_MT_TRACKING_ID as int)),
{
    assert forall|a: int| 0 <= a < 64 implies (bitmap_bit(touch_abs_bitmap(), a) <==> (a
        == ABS_MT_SLOT as int || a == ABS_MT_POSITION_X as int || a == ABS_MT_POSITION_Y as int
        || a == ABS_MT_TRACKING_ID as int)) by {
        let t = (a % 8) as u8;
        lemma_bit_of_byte(t);
        assert(a == 8 * (a / 8) + a % 8);
    }
}

/// Which bit positions are set in each byte value a capability bitmap of
/// this crate uses.
proof fn lemma_bit_of_byte(t: u8)
    by (bit_vector)
    requires
        t < 8,
    ensures
        (0u8 >> t) & 1u8 != 1u8,
        ((0x80u8 >> t) & 1u8 == 1u8) <==> t == 7,
        ((0x60u8 >> t) & 1u8 == 1u8) <==> (t == 5 || t == 6),
        ((0x02u8 >> t) & 1u8 == 1u8) <==> t == 1,
        ((0x40u8 >> t) & 1u8 == 1u8) <==> t == 6,
        ((0x01u8 >> t) & 1u8 == 1u8) <==> t == 0,
{
}

/// Descriptor bit-exactness, key side: the keyboard device's key bitmap
/// holds exactly the bit of the back key, and no other.
pub proof fn lemma_key_bitmap_exact()
    ensures
        forall|k: int| 0 <= k < 768 ==> (bitmap_bit(key_bitmap(), k) <==> k == KEY_BACK as int),
{
    assert forall|k: int| 0 <= k < 768 implies (bitmap_bit(key_bitmap(), k) <==> k
        == KEY_BACK as int) by {
        let t = (k % 8) as u8;
        lemma_bit_of_byte(t);
        assert(k == 8 * (k / 8) + k % 8);
    }
}

/// An ASCII string copied into a fresh zero-padded field of `n` bytes.
fn padded_str_bytes(s: &str, n: usize) -> (v: Vec<u8>)
    requires
        is_ascii(s),
        s@.len() <= n,
    ensures
        v@ == padded_ascii(s@, n as int),
{
    proof {
        vstd::string::is_ascii_spec_bytes(s);
    }
    let bytes: &[u8] = s.as_bytes();
    let mut v: Vec<u8> = Vec::new();
    let mut i: usize = 0;
    while i < bytes.len()
        invariant
            bytes@.len() == s@.len() <= n,
            forall|j: int| 0 <= j < bytes@.len() ==> bytes@[j] == s@[j] as u8,
            i <= bytes@.len(),
            v@.len() == i,
            forall|j: int| 0 <= j < i ==> v@[j] == s@[j] as u8,
        decreases bytes@.len() - i,
    {
        v.push(bytes[i]);
        i += 1;
    }
    while i < n
        invariant
            s@.len() <= i <= n,
            v@.len() == i,
            forall|j: int| 0 <= j < s@.len() ==> v@[j] == s@[j] as u8,
            forall|j: int| s@.len() <= j < i ==> v@[j] == 0u8,
        decreases n - i,
    {
        v.push(0);
        i += 1;
    }
    proof {
        assert(v@ =~= padded_ascii(s@, n as int));
    }
    v
}

/// A fresh all-zero byte field of length `n`.
fn zero_bytes(n: usize) -> (v: Vec<u8>)
    ensures
        v@ == zero_bitmap(n as int),
{
    let mut v: Vec<u8> = Vec::new();
    let mut i: usize = 0;
    while i < n
        invariant
            i <= n,
            v@.len() == i,
            forall|j: int| 0 <= j < i ==> v@[j] == 0u8,
        decreases n - i,
    {
        v.push(0);
        i += 1;
    }
    proof {
        assert(v@ =~= zero_bitmap(n as int));
    }
    v
}

/// A fresh all-zero axis-range array of length `n`.
fn zero_words(n: usize) -> (v: Vec<u32>)
    ensures
        v@ == zero_ranges(n as int),
{
    let mut v: Vec<u32> = Vec::new();
    let mut i: usize = 0;
    while i < n
        invariant
            i <= n,
            v@.len() == i,
            forall|j: int| 0 <= j < i ==> v@[j] == 0u32,
        decreases n - i,
    {
        v.push(0);
        i += 1;
    }
    proof {
        assert(v@ =~= zero_ranges(n as int));
    }
    v
}

} // verus!
