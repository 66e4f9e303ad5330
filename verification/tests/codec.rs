use umd::vertex::ScreenVertex;

fn roundtrip(v: ScreenVertex) {
    let (w0, w1) = v.pack();
    let back = ScreenVertex::unpack(w0, w1);
    assert_eq!(back, v);
}

#[test]
fn pack_unpack_round_trip() {
    roundtrip(ScreenVertex { x: 0, y: 0, z: 0, r_s: 0, g_t: 0, b: 0 });
    roundtrip(ScreenVertex { x: 1, y: 2, z: 3, r_s: 4, g_t: 5, b: 6 });
    roundtrip(ScreenVertex { x: 2047, y: 2047, z: 65535, r_s: 255, g_t: 255, b: 255 });
    roundtrip(ScreenVertex { x: 639, y: 479, z: 32767, r_s: 17, g_t: 254, b: 128 });
    roundtrip(ScreenVertex { x: 1024, y: 1, z: 256, r_s: 0, g_t: 255, b: 1 });
}

#[test]
fn pack_bit_layout() {
    let v = ScreenVertex { x: 1, y: 2, z: 3, r_s: 4, g_t: 5, b: 6 };
    let expected: u64 =
        1u64 | (2u64 << 11) | (3u64 << 22) | (4u64 << 38) | (5u64 << 46) | (6u64 << 54);
    let (w0, w1) = v.pack();
    assert_eq!(w0, expected as u32);
    assert_eq!(w1, (expected >> 32) as u32);
}

#[test]
fn pack_low_word_is_least_significant() {
    // x sits entirely in the low word, b entirely in the high word
    let v = ScreenVertex { x: 0x7FF, y: 0, z: 0, r_s: 0, g_t: 0, b: 0 };
    let (w0, w1) = v.pack();
    assert_eq!(w0, 0x7FF);
    assert_eq!(w1, 0);
    let v = ScreenVertex { x: 0, y: 0, z: 0, r_s: 0, g_t: 0, b: 0xAB };
    let (w0, w1) = v.pack();
    assert_eq!(w0, 0);
    assert_eq!(w1, 0xABu32 << (54 - 32));
}

#[test]
fn unpack_ignores_reserved_bits() {
    // the two highest bits of the 64-bit word are reserved
    let v = ScreenVertex::unpack(0, 0xC000_0000);
    assert_eq!(v, ScreenVertex { x: 0, y: 0, z: 0, r_s: 0, g_t: 0, b: 0 });
}
