use umd::context::Context;
use umd::cull::{CullMode, FrontFace};
use umd::texture::TEXTURE_BYTES;
use umd::vertex::ScreenVertex;

fn ctx() -> Context {
    Context::new(
        640,
        480,
        [0x10_0000, 0x20_0000, 0x30_0000],
        [0x40_0000, 0x50_0000],
    )
}

#[test]
fn new_context_state() {
    let c = ctx();
    assert_eq!(c.width(), 640);
    assert_eq!(c.height(), 480);
    assert_eq!(c.frame_buffer_idx, 0);
    assert_eq!(c.depth_buffer_idx, 0);
    assert_eq!(c.cull_mode, CullMode::Disabled);
    assert_eq!(c.front_face, FrontFace::CounterClockwise);
    assert_eq!(c.fb_size, 640 * 480 * 3);
    assert_eq!(c.z_size, 640 * 480 * 2);
    assert_eq!(c.current_frame_addr(), 0x10_0000);
    assert_eq!(c.current_depth_addr(), 0x40_0000);
}

#[test]
fn frame_rotation_cycles_through_three_buffers() {
    let mut c = ctx();
    let mut seen = Vec::new();
    for _ in 0..7 {
        seen.push(c.frame_buffer_idx);
        c.end_frame();
    }
    assert_eq!(seen, vec![0, 1, 2, 0, 1, 2, 0]);
}

#[test]
fn begin_frame_rotates_depth_and_kicks_its_clear() {
    let mut c = ctx();
    c.begin_frame();
    assert_eq!(c.depth_buffer_idx, 1);
    c.cmd.flush_buffer();
    let subs = c.cmd.take_submissions();
    assert_eq!(subs.len(), 1);
    let words = &subs[0].words;
    // clear-engine barrier, then a clear of the *new* depth buffer to zero
    assert_eq!(words.len(), 4);
    assert_eq!(words[0], 0x05);
    assert_eq!(words[1], 0x04);
    assert_eq!(words[2], 0x50_0000 >> 7);
    assert_eq!(words[3], 640 * 480 * 2 / 8);
}

#[test]
fn end_frame_clears_next_buffer_flushes_and_returns_scanout() {
    let mut c = ctx();
    let scanout = c.end_frame();
    assert_eq!(scanout, 0x10_0000);
    assert_eq!(c.frame_buffer_idx, 1);
    let subs = c.cmd.take_submissions();
    assert_eq!(subs.len(), 1);
    let words = &subs[0].words;
    assert_eq!(words.len(), 4);
    // clear the frame buffer after next to white, then a pipeline barrier
    assert_eq!(words[0], 0x04 | (0xFFFFFF << 8));
    assert_eq!(words[1], 0x20_0000 >> 7);
    assert_eq!(words[2], 640 * 480 * 3 / 8);
    assert_eq!(words[3], 0x03);
}

fn sv(x: u16, y: u16) -> ScreenVertex {
    ScreenVertex { x, y, z: 1, r_s: 1, g_t: 2, b: 3 }
}

#[test]
fn draw_gouraud_emits_one_command_per_triangle() {
    let mut c = ctx();
    let tris = [[sv(0, 0), sv(1, 0), sv(0, 1)], [sv(2, 2), sv(3, 2), sv(2, 3)]];
    c.draw_gouraud(&tris);
    c.cmd.flush_buffer();
    let subs = c.cmd.take_submissions();
    let words = &subs[0].words;
    assert_eq!(words.len(), 14);
    assert_eq!(words[0], 0x01);
    assert_eq!(words[7], 0x01);
}

#[test]
fn texture_draws_upload_once_and_round_robin_slots() {
    let mut c = ctx();
    let mut textures: Vec<_> = (0..5).map(|_| c.create_texture_buffer()).collect();
    let rgb = vec![8u8; TEXTURE_BYTES];
    for tex in textures.iter_mut() {
        tex.load(&rgb);
    }
    for tex in textures.iter_mut() {
        c.draw_texture(tex, &[]);
        assert!(!tex.is_dirty());
    }
    // ids are assigned from 1; the fifth draw evicted slot 0
    assert_eq!(c.residency.slot_id(0), 5);
    assert_eq!(c.residency.slot_id(1), 2);
    assert_eq!(c.residency.slot_id(2), 3);
    assert_eq!(c.residency.slot_id(3), 4);
}

#[test]
fn clean_resident_texture_is_not_reuploaded() {
    let mut c = ctx();
    let mut tex = c.create_texture_buffer();
    c.draw_texture(&mut tex, &[]);
    c.cmd.flush_buffer();
    let first = c.cmd.take_submissions();
    // four quadrant loads: each one header plus 12288 / 4 payload words
    let total: usize = first.iter().map(|s| s.words.len()).sum();
    assert_eq!(total, 4 * (1 + 12288 / 4));
    // a second draw of the same, now clean, texture uploads nothing
    c.draw_texture(&mut tex, &[]);
    c.cmd.flush_buffer();
    assert_eq!(c.cmd.take_submissions().len(), 0);
}

#[test]
fn dirty_resident_texture_is_reuploaded_in_place() {
    let mut c = ctx();
    let mut tex = c.create_texture_buffer();
    c.draw_texture(&mut tex, &[]);
    c.cmd.flush_buffer();
    c.cmd.take_submissions();
    let rgb = vec![1u8; TEXTURE_BYTES];
    tex.load(&rgb);
    assert!(tex.is_dirty());
    c.draw_texture(&mut tex, &[]);
    assert!(!tex.is_dirty());
    c.cmd.flush_buffer();
    let subs = c.cmd.take_submissions();
    let total: usize = subs.iter().map(|s| s.words.len()).sum();
    assert_eq!(total, 4 * (1 + 12288 / 4));
    // still resident in the same slot
    assert_eq!(c.residency.slot_id(0), 1);
}
