use umd::texture::{pixel_index, TextureBuffer, TEXTURE_BYTES};

#[test]
fn pixel_index_quadrant_layout() {
    // quadrant origins: (0,0), (64,0), (0,64), (64,64)
    assert_eq!(pixel_index(0, 0), 0);
    assert_eq!(pixel_index(64, 0), 4096 * 3);
    assert_eq!(pixel_index(0, 64), 2 * 4096 * 3);
    assert_eq!(pixel_index(64, 64), 3 * 4096 * 3);
    // row-major within a quadrant
    assert_eq!(pixel_index(1, 0), 3);
    assert_eq!(pixel_index(0, 1), 64 * 3);
    assert_eq!(pixel_index(63, 63), (63 * 64 + 63) * 3);
    assert_eq!(pixel_index(127, 127), (3 * 4096 + 63 * 64 + 63) * 3);
}

#[test]
fn load_reorders_row_major_into_quadrants() {
    let mut rgb = vec![0u8; TEXTURE_BYTES];
    for y in 0..128usize {
        for x in 0..128usize {
            let i = (y * 128 + x) * 3;
            rgb[i] = x as u8;
            rgb[i + 1] = y as u8;
            rgb[i + 2] = (x ^ y) as u8;
        }
    }
    let mut tex = TextureBuffer::new(7);
    tex.load(&rgb);
    let data = tex.data();
    for &(x, y) in &[(0u8, 0u8), (1, 0), (63, 63), (64, 0), (0, 64), (64, 64), (127, 127), (100, 30)] {
        let src = (y as usize * 128 + x as usize) * 3;
        let dst = pixel_index(x, y);
        assert_eq!(data[dst], rgb[src]);
        assert_eq!(data[dst + 1], rgb[src + 1]);
        assert_eq!(data[dst + 2], rgb[src + 2]);
    }
}

#[test]
fn load_marks_dirty_and_keeps_id() {
    let mut tex = TextureBuffer::new(42);
    assert_eq!(tex.id(), 42);
    assert!(tex.is_dirty());
    let rgb = vec![9u8; TEXTURE_BYTES];
    tex.load(&rgb);
    assert!(tex.is_dirty());
    assert_eq!(tex.id(), 42);
    assert_eq!(tex.data().len(), TEXTURE_BYTES);
}
