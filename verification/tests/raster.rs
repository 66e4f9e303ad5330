use umd::raster::{draw, draw_pixel, ColorSource};
use umd::raster::TextureBuffer as SwTextureBuffer;
use umd::texture::TEXTURE_BYTES;
use umd::vertex::ScreenVertex;

const W: usize = 8;
const H: usize = 8;

fn buffers() -> (Vec<u8>, Vec<u16>) {
    (vec![0u8; W * H * 3], vec![0u16; W * H])
}

fn tri(z: u16) -> [ScreenVertex; 3] {
    // right triangle with legs of length 4; positive signed area
    [
        ScreenVertex { x: 0, y: 0, z, r_s: 10, g_t: 20, b: 30 },
        ScreenVertex { x: 4, y: 0, z, r_s: 10, g_t: 20, b: 30 },
        ScreenVertex { x: 0, y: 4, z, r_s: 10, g_t: 20, b: 30 },
    ]
}

#[test]
fn pixel_written_iff_no_edge_function_is_negative() {
    let (mut frame, mut depth) = buffers();
    draw(&mut frame, &mut depth, W, tri(1000), ColorSource::Gouraud);
    for y in 0..H {
        for x in 0..W {
            let pos = y * W + x;
            let inside = x + y <= 4;
            if inside {
                assert_eq!(depth[pos], 1000, "pixel ({x},{y})");
                // BGR byte order
                assert_eq!(frame[pos * 3], 30);
                assert_eq!(frame[pos * 3 + 1], 20);
                assert_eq!(frame[pos * 3 + 2], 10);
            } else {
                assert_eq!(depth[pos], 0, "pixel ({x},{y})");
                assert_eq!(&frame[pos * 3..pos * 3 + 3], &[0, 0, 0]);
            }
        }
    }
}

#[test]
fn depth_test_keeps_the_larger_z() {
    let (mut frame, mut depth) = buffers();
    draw(&mut frame, &mut depth, W, tri(1000), ColorSource::Gouraud);
    // nearer geometry (larger device z) overwrites
    let mut nearer = tri(2000);
    for v in nearer.iter_mut() {
        v.r_s = 99;
    }
    draw(&mut frame, &mut depth, W, nearer, ColorSource::Gouraud);
    assert_eq!(depth[0], 2000);
    assert_eq!(frame[2], 99);
    // farther geometry (smaller device z) is discarded
    let farther = tri(500);
    draw(&mut frame, &mut depth, W, farther, ColorSource::Gouraud);
    assert_eq!(depth[0], 2000);
    assert_eq!(frame[2], 99);
}

#[test]
fn counter_clockwise_and_degenerate_triangles_are_discarded() {
    let (mut frame, mut depth) = buffers();
    let t = tri(1000);
    let flipped = [t[0], t[2], t[1]];
    draw(&mut frame, &mut depth, W, flipped, ColorSource::Gouraud);
    assert!(depth.iter().all(|d| *d == 0));
    let degenerate = [t[0], t[0], t[0]];
    draw(&mut frame, &mut depth, W, degenerate, ColorSource::Gouraud);
    assert!(depth.iter().all(|d| *d == 0));
    assert!(frame.iter().all(|b| *b == 0));
}

#[test]
fn textured_pixels_sample_with_halved_interpolants() {
    let mut texels = vec![0u8; TEXTURE_BYTES];
    // the uniform interpolants (s, t) = (10, 20) sample texel (5, 10)
    let idx = (5 * 128 + 10) * 3;
    texels[idx] = 7;
    texels[idx + 1] = 8;
    texels[idx + 2] = 9;
    let (mut frame, mut depth) = buffers();
    draw(&mut frame, &mut depth, W, tri(1000), ColorSource::Texture(&texels));
    // BGR order of the sampled RGB
    assert_eq!(frame[0], 9);
    assert_eq!(frame[1], 8);
    assert_eq!(frame[2], 7);
}

#[test]
fn draw_pixel_interpolates_attributes() {
    let (mut frame, mut depth) = buffers();
    let t = [
        ScreenVertex { x: 0, y: 0, z: 100, r_s: 0, g_t: 0, b: 0 },
        ScreenVertex { x: 4, y: 0, z: 200, r_s: 255, g_t: 0, b: 0 },
        ScreenVertex { x: 0, y: 4, z: 300, r_s: 0, g_t: 255, b: 0 },
    ];
    // equal thirds of the full weight budget
    let w = 0xFFFFFF / 3;
    draw_pixel(&mut frame, &mut depth, t, &ColorSource::Gouraud, 0, [w, w, w]);
    assert_eq!(depth[0], 200);
    assert_eq!(frame[2], 85); // red: 255 / 3
    assert_eq!(frame[1], 85); // green
    assert_eq!(frame[0], 0); // blue
}

#[test]
fn software_texture_buffer_stores_plain_texels() {
    let mut tex = SwTextureBuffer::new();
    let mut rgb = vec![0u8; TEXTURE_BYTES];
    rgb[123] = 45;
    tex.load(&rgb);
    assert_eq!(tex.data()[123], 45);
    assert_eq!(tex.data().len(), TEXTURE_BYTES);
}
