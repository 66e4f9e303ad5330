use umd::command::{CommandBuffer, BUFFER_SIZE_WORDS};
use umd::vertex::ScreenVertex;

#[test]
fn write_raw_then_flush_keeps_every_word_in_order() {
    let mut cmd = CommandBuffer::new();
    for i in 0..100u32 {
        cmd.write_raw(i);
    }
    cmd.flush_buffer();
    let subs = cmd.take_submissions();
    assert_eq!(subs.len(), 1);
    assert_eq!(subs[0].buffer, 0);
    let expected: Vec<u32> = (0..100).collect();
    assert_eq!(subs[0].words, expected);
}

#[test]
fn flush_alternates_dma_buffers() {
    let mut cmd = CommandBuffer::new();
    cmd.write_raw(1);
    cmd.flush_buffer();
    cmd.write_raw(2);
    cmd.flush_buffer();
    cmd.write_raw(3);
    cmd.flush_buffer();
    let subs = cmd.take_submissions();
    assert_eq!(subs.len(), 3);
    assert_eq!(subs[0].buffer, 0);
    assert_eq!(subs[1].buffer, 1);
    assert_eq!(subs[2].buffer, 0);
}

#[test]
fn empty_flush_submits_nothing() {
    let mut cmd = CommandBuffer::new();
    cmd.flush_buffer();
    let subs = cmd.take_submissions();
    assert_eq!(subs.len(), 0);
}

#[test]
fn full_buffer_flushes_on_next_write() {
    let mut cmd = CommandBuffer::new();
    let vals = vec![7u32; BUFFER_SIZE_WORDS];
    let written = cmd.write_raw_slice(&vals);
    assert_eq!(written, BUFFER_SIZE_WORDS);
    // the buffer is exactly full; nothing has been submitted yet
    assert_eq!(cmd.take_submissions().len(), 0);
    cmd.write_raw(9);
    let subs = cmd.take_submissions();
    assert_eq!(subs.len(), 1);
    assert_eq!(subs[0].words.len(), BUFFER_SIZE_WORDS);
    assert!(subs[0].words.iter().all(|w| *w == 7));
}

#[test]
fn write_raw_slice_reports_partial_writes() {
    let mut cmd = CommandBuffer::new();
    let filler = vec![1u32; BUFFER_SIZE_WORDS - 3];
    assert_eq!(cmd.write_raw_slice(&filler), BUFFER_SIZE_WORDS - 3);
    let tail = [2u32, 3, 4, 5, 6];
    // only three words of room remain
    assert_eq!(cmd.write_raw_slice(&tail), 3);
    // the next call flushes the full buffer and takes the rest
    assert_eq!(cmd.write_raw_slice(&tail[3..]), 2);
    cmd.flush_buffer();
    let subs = cmd.take_submissions();
    assert_eq!(subs.len(), 2);
    assert_eq!(subs[0].words.len(), BUFFER_SIZE_WORDS);
    assert_eq!(&subs[0].words[BUFFER_SIZE_WORDS - 3..], &[2, 3, 4]);
    assert_eq!(subs[1].words, vec![5, 6]);
}

fn v(x: u16, y: u16) -> ScreenVertex {
    ScreenVertex { x, y, z: 100, r_s: 10, g_t: 20, b: 30 }
}

#[test]
fn draw_triangle_packs_header_and_six_vertex_words() {
    let mut cmd = CommandBuffer::new();
    cmd.draw_triangle(Some(2), v(1, 2), v(3, 4), v(5, 6));
    cmd.flush_buffer();
    let subs = cmd.take_submissions();
    assert_eq!(subs.len(), 1);
    let words = &subs[0].words;
    assert_eq!(words.len(), 7);
    // opcode 0x01, texture enable at bit 6, texture slot at bits 8:7
    assert_eq!(words[0], 0x01 | (1 << 6) | (2 << 7));
    let (w0, w1) = v(1, 2).pack();
    assert_eq!(words[1], w0);
    assert_eq!(words[2], w1);
    let (w0, w1) = v(5, 6).pack();
    assert_eq!(words[5], w0);
    assert_eq!(words[6], w1);
}

#[test]
fn draw_triangle_without_texture_has_bare_opcode() {
    let mut cmd = CommandBuffer::new();
    cmd.draw_triangle(None, v(1, 2), v(3, 4), v(5, 6));
    cmd.flush_buffer();
    let subs = cmd.take_submissions();
    assert_eq!(subs[0].words[0], 0x01);
}

#[test]
fn draw_triangle_never_splits_across_buffers() {
    // fill to six words short of the end: the seven-word burst must not fit
    let mut cmd = CommandBuffer::new();
    let filler = vec![0u32; BUFFER_SIZE_WORDS - 6];
    assert_eq!(cmd.write_raw_slice(&filler), BUFFER_SIZE_WORDS - 6);
    cmd.draw_triangle(None, v(1, 2), v(3, 4), v(5, 6));
    let subs = cmd.take_submissions();
    // the partial buffer was flushed before the burst began
    assert_eq!(subs.len(), 1);
    assert_eq!(subs[0].words.len(), BUFFER_SIZE_WORDS - 6);
    cmd.flush_buffer();
    let subs = cmd.take_submissions();
    assert_eq!(subs.len(), 1);
    assert_eq!(subs[0].words.len(), 7);
    assert_eq!(subs[0].words[0], 0x01);
}

#[test]
fn load_texture_single_tile_payload_is_384_bytes() {
    let mut cmd = CommandBuffer::new();
    let mut data = vec![0u8; 64 * 2 * 3];
    assert_eq!(data.len(), 384);
    data[0] = 0x01;
    data[1] = 0x02;
    data[2] = 0x03;
    data[3] = 0x04;
    cmd.load_texture(0, 0, 63, 0, 1, &data);
    cmd.flush_buffer();
    let subs = cmd.take_submissions();
    let words = &subs[0].words;
    // header plus 384 / 4 payload words
    assert_eq!(words.len(), 1 + 96);
    // opcode 0x02, s_end 63 at bits 20:15, everything else zero
    assert_eq!(words[0], 0x02 | (63 << 15));
    // payload is read as little-endian words
    assert_eq!(words[1], 0x0403_0201);
}

#[test]
fn load_texture_header_fields() {
    let mut cmd = CommandBuffer::new();
    let data = vec![0u8; 64 * 64 * 3];
    // upper-right quadrant: s in 64..=127, t in 64..=127
    cmd.load_texture(3, 64, 127, 64, 127, &data);
    cmd.flush_buffer();
    let subs = cmd.take_submissions();
    let header = subs[0].words[0];
    let expected = 0x02u32
        | (3 << 6)   // buffer
        | (1 << 8)   // s_high
        | (0 << 9)   // s_start % 64
        | (63 << 15) // s_end % 64
        | (1 << 21)  // t_high
        | (0 << 22)  // (t_start / 2) % 32
        | (31 << 27); // (t_end / 2) % 32
    assert_eq!(header, expected);
}

#[test]
fn barriers_and_clear_encode_their_opcodes() {
    let mut cmd = CommandBuffer::new();
    cmd.wait_idle();
    cmd.wait_clear_idle();
    cmd.clear_buffer(0x1234, 0x40, 0xABCDEF);
    cmd.flush_buffer();
    let subs = cmd.take_submissions();
    let words = &subs[0].words;
    assert_eq!(words.len(), 5);
    assert_eq!(words[0], 0x03);
    assert_eq!(words[1], 0x05);
    assert_eq!(words[2], 0x04 | (0xABCDEF << 8));
    assert_eq!(words[3], 0x1234);
    assert_eq!(words[4], 0x40);
}
