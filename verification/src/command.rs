//! Double-buffered command stream.
//!
//! Draw, texture-load, clear and barrier commands are packed into fixed-size
//! buffers of 32-bit words.  When a buffer fills up, or on an explicit flush,
//! the buffer becomes a [`Submission`]: a batch that the caller streams to the
//! rasterizer's command DMA from one of two rotating DMA buffers, so the
//! hardware can drain one buffer while the next is being filled.
//!
//! The central invariant: the concatenation of every submitted batch followed
//! by the words still pending equals the sequence of all words ever written,
//! in order, with no gaps and no duplicates.

use vstd::prelude::*;
use crate::vertex::ScreenVertex;

verus! {

/// Number of 32-bit words in one command buffer.
pub const BUFFER_SIZE_WORDS: usize = 8192;

/// Number of DMA command buffers in the rotation.
pub const BUFFER_COUNT: usize = 2;

/// One flushed batch of command words.
///
/// `buffer` names which of the rotating DMA buffers the batch belongs to; the
/// caller copies `words` there and hands the buffer's physical address and
/// word count to the rasterizer.
pub struct Submission {
    pub buffer: usize,
    pub words: Vec<u32>,
}

impl Submission {
    pub open spec fn wf(self) -> bool {
        self.buffer < BUFFER_COUNT && 0 < self.words@.len() <= BUFFER_SIZE_WORDS
    }
}

/// The words of a run of submissions, concatenated in order.
pub open spec fn flat(subs: Seq<Submission>) -> Seq<u32>
    decreases subs.len(),
{
    if subs.len() == 0 {
        Seq::empty()
    } else {
        flat(subs.drop_last()) + subs.last().words@
    }
}

/// Well-formedness carries over to a state with the same batches and
/// rotation and an in-range pending buffer.
proof fn lemma_wf_carries(a: CommandBuffer, b: CommandBuffer)
    requires
        a.wf(),
        b.pending_words().len() <= BUFFER_SIZE_WORDS,
        b.buffer_index() == a.buffer_index(),
        b.batches() == a.batches(),
    ensures
        b.wf(),
{
    assert forall|i: int| 0 <= i < b.batches().len() implies (#[trigger] b.batches()[i]).wf() by {
        assert(a.batches()[i].wf());
    }
}

/// Header word of a draw-triangle command: opcode 0x01, a texture-enable
/// flag at bit 6 and the texture slot at bits 8:7.
pub open spec fn draw_triangle_header(texture: Option<u8>) -> u32 {
    match texture {
        Some(slot) => 0x01u32 | (1u32 << 6) | ((slot as u32) << 7),
        None => 0x01u32,
    }
}

/// The seven words of a draw-triangle command: header, then each vertex
/// packed into two words, low word first.
pub open spec fn draw_triangle_words(
    texture: Option<u8>,
    v0: ScreenVertex,
    v1: ScreenVertex,
    v2: ScreenVertex,
) -> Seq<u32> {
    seq![
        draw_triangle_header(texture),
        v0.packed() as u32,
        (v0.packed() >> 32) as u32,
        v1.packed() as u32,
        (v1.packed() >> 32) as u32,
        v2.packed() as u32,
        (v2.packed() >> 32) as u32,
    ]
}

/// Header word of a load-texture command: opcode 0x02, target slot at bits
/// 7:6, then the S range (tile bit, start, end) and the T range in half-rows
/// (tile bit, start, end).
pub open spec fn load_texture_header(
    buffer: u8,
    start_s: u8,
    end_s: u8,
    start_t: u8,
    end_t: u8,
) -> u32 {
    0x02u32 | ((buffer as u32) << 6) | (((start_s / 64) as u32) << 8)
        | (((start_s % 64) as u32) << 9) | (((end_s % 64) as u32) << 15)
        | ((((start_t / 2) / 32) as u32) << 21) | ((((start_t / 2) % 32) as u32) << 22)
        | ((((end_t / 2) % 32) as u32) << 27)
}

/// Header word of a clear-buffer command: opcode 0x04 and the 24-bit fill
/// pattern at bits 31:8.
pub open spec fn clear_buffer_header(pattern: u32) -> u32 {
    0x04u32 | (pattern << 8)
}

/// A 32-bit word read from four bytes, little endian.
pub open spec fn le_word(b0: u8, b1: u8, b2: u8, b3: u8) -> u32 {
    (b0 as u32) | ((b1 as u32) << 8) | ((b2 as u32) << 16) | ((b3 as u32) << 24)
}

/// A byte payload reinterpreted as little-endian 32-bit words.
pub open spec fn le_words(bytes: Seq<u8>) -> Seq<u32> {
    Seq::new(
        (bytes.len() / 4) as nat,
        |i: int| le_word(bytes[4 * i], bytes[4 * i + 1], bytes[4 * i + 2], bytes[4 * i + 3]),
    )
}

/// The command stream: a pending buffer of words, the index of the DMA
/// buffer the pending words will go to, and the batches already flushed.
pub struct CommandBuffer {
    pending: Vec<u32>,
    current_buffer: usize,
    outbox: Vec<Submission>,
    drained: Ghost<Seq<u32>>,
}

impl CommandBuffer {
    /// Words waiting in the current buffer, in write order.
    pub closed spec fn pending_words(self) -> Seq<u32> {
        self.pending@
    }

    /// Words of the batches the caller already took, in order.
    pub closed spec fn taken(self) -> Seq<u32> {
        self.drained@
    }

    /// Which DMA buffer the pending words belong to.
    pub closed spec fn buffer_index(self) -> int {
        self.current_buffer as int
    }

    /// Batches flushed but not yet taken by the caller.
    pub closed spec fn batches(self) -> Seq<Submission> {
        self.outbox@
    }

    pub open spec fn wf(self) -> bool {
        &&& self.pending_words().len() <= BUFFER_SIZE_WORDS
        &&& 0 <= self.buffer_index() < BUFFER_COUNT
        &&& forall|i: int| 0 <= i < self.batches().len() ==> (#[trigger] self.batches()[i]).wf()
    }

    /// Number of words waiting in the current buffer.
    pub open spec fn pos(self) -> int {
        self.pending_words().len() as int
    }

    /// Every word handed over for submission so far: batches already taken
    /// by the caller, then batches still in the outbox.
    pub open spec fn submitted(self) -> Seq<u32> {
        self.taken() + flat(self.batches())
    }

    /// Every word ever written, in write order.
    pub open spec fn stream(self) -> Seq<u32> {
        self.submitted() + self.pending_words()
    }

    pub fn new() -> (s: Self)
        ensures
            s.wf(),
            s.stream() == Seq::<u32>::empty(),
            s.pos() == 0,
            s.batches().len() == 0,
            s.buffer_index() == 0,
    {
        CommandBuffer {
            pending: Vec::new(),
            current_buffer: 0,
            outbox: Vec::new(),
            drained: Ghost(Seq::empty()),
        }
    }

    /// Flush the pending words, if any, into a batch for the current DMA
    /// buffer and rotate to the other buffer.  No word is lost: the overall
    /// stream is unchanged.
    pub fn flush_buffer(&mut self)
        requires
            old(self).wf(),
        ensures
            final(self).wf(),
            final(self).stream() == old(self).stream(),
            final(self).taken() == old(self).taken(),
            final(self).pos() == 0,
            final(self).submitted() == old(self).stream(),
            old(self).pos() == 0 ==> *final(self) == *old(self),
            old(self).pos() > 0 ==> {
                &&& final(self).batches().len() == old(self).batches().len() + 1
                &&& final(self).batches().last().buffer == old(self).buffer_index()
                &&& final(self).batches().last().words@ == old(self).pending_words()
                &&& final(self).batches().take(final(self).batches().len() - 1) == old(self).batches()
                &&& final(self).buffer_index() == 1 - old(self).buffer_index()
            },
            old(self).pos() == 0 ==> final(self).batches() == old(self).batches(),
    {
        if self.pending.len() != 0 {
            let mut words: Vec<u32> = Vec::new();
            core::mem::swap(&mut self.pending, &mut words);
            let batch = Submission { buffer: self.current_buffer, words };
            self.outbox.push(batch);
            self.current_buffer = (self.current_buffer + 1) % BUFFER_COUNT;
            proof {
                assert(self.batches().drop_last() =~= old(self).batches());
                assert(self.batches().take(self.batches().len() - 1) =~= old(self).batches());
                assert(self.batches().last().wf());
                assert forall|i: int| 0 <= i < self.batches().len() implies (
                #[trigger] self.batches()[i]).wf() by {
                    if i < self.batches().len() - 1 {
                        assert(self.batches()[i] == old(self).batches()[i]);
                        assert(old(self).batches()[i].wf());
                    }
                }
            }
        }
    }

    /// Append one word, flushing first if the current buffer is full.
    pub fn write_raw(&mut self, val: u32)
        requires
            old(self).wf(),
        ensures
            final(self).wf(),
            final(self).stream() == old(self).stream().push(val),
            final(self).taken() == old(self).taken(),
            final(self).pos() == if old(self).pos() == BUFFER_SIZE_WORDS { 1int } else {
                old(self).pos() + 1
            },
            old(self).pos() < BUFFER_SIZE_WORDS ==> {
                &&& final(self).pending_words() == old(self).pending_words().push(val)
                &&& final(self).batches() == old(self).batches()
                &&& final(self).buffer_index() == old(self).buffer_index()
            },
    {
        if self.pending.len() == BUFFER_SIZE_WORDS {
            self.flush_buffer();
        }
        let ghost mid = *self;
        self.pending.push(val);
        proof {
            assert(self.pending_words() =~= mid.pending_words().push(val));
            assert(self.stream() =~= mid.stream().push(val));
            lemma_wf_carries(mid, *self);
        }
    }

    /// Append as much of `vals` as fits the current buffer (flushing first
    /// if it is already full) and report how many words were taken.
    pub fn write_raw_slice(&mut self, vals: &[u32]) -> (written: usize)
        requires
            old(self).wf(),
        ensures
            final(self).wf(),
            final(self).taken() == old(self).taken(),
            ({
                let start = if old(self).pos() == BUFFER_SIZE_WORDS { 0int } else {
                    old(self).pos()
                };
                &&& written == vstd::math::min(BUFFER_SIZE_WORDS - start, vals@.len() as int)
                &&& final(self).pos() == start + written
            }),
            final(self).stream() == old(self).stream() + vals@.take(written as int),
    {
        if self.pending.len() == BUFFER_SIZE_WORDS {
            self.flush_buffer();
        }
        let room = BUFFER_SIZE_WORDS - self.pending.len();
        let n = if vals.len() < room {
            vals.len()
        } else {
            room
        };
        let mut i: usize = 0;
        while i < n
            invariant
                i <= n,
                n <= vals@.len(),
                self.pending@.len() + (n - i) <= BUFFER_SIZE_WORDS,
                self.current_buffer == old(self).current_buffer || old(self).pos()
                    == BUFFER_SIZE_WORDS,
                self.wf(),
                self.taken() == old(self).taken(),
                self.stream() == old(self).stream() + vals@.take(i as int),
                self.pos() == (if old(self).pos() == BUFFER_SIZE_WORDS { 0int } else {
                    old(self).pos()
                }) + i,
            decreases n - i,
        {
            proof {
                assert(vals@.take(i + 1) =~= vals@.take(i as int).push(vals@[i as int]));
            }
            let ghost prev = *self;
            let val = vals[i];
            self.pending.push(val);
            i += 1;
            proof {
                assert(self.pending_words() =~= prev.pending_words().push(val));
                assert(self.stream() =~= prev.stream().push(val));
                assert(self.stream() =~= old(self).stream() + vals@.take(i as int));
                lemma_wf_carries(prev, *self);
            }
        }
        n
    }

    /// Append a single-word pipeline-drain barrier (opcode 0x03).
    pub fn wait_idle(&mut self)
        requires
            old(self).wf(),
        ensures
            final(self).wf(),
            final(self).taken() == old(self).taken(),
            final(self).stream() == old(self).stream().push(0x03u32),
    {
        self.write_raw(0x03);
    }

    /// Append a single-word barrier on the background clear engine
    /// (opcode 0x05).
    pub fn wait_clear_idle(&mut self)
        requires
            old(self).wf(),
        ensures
            final(self).wf(),
            final(self).taken() == old(self).taken(),
            final(self).stream() == old(self).stream().push(0x05u32),
    {
        self.write_raw(0x05);
    }

    /// Append a clear-buffer command: header with the 24-bit fill pattern,
    /// the 128-byte-aligned base address in units of 128 bytes, and the
    /// word count in units of eight words.
    pub fn clear_buffer(&mut self, addr: u32, words: u32, pattern: u32)
        requires
            old(self).wf(),
            pattern < 0x1000000,
        ensures
            final(self).wf(),
            final(self).taken() == old(self).taken(),
            final(self).stream() == old(self).stream() + seq![
                clear_buffer_header(pattern),
                addr,
                words,
            ],
    {
        let header: u32 = 0x04u32 | (pattern << 8);
        self.write_raw(header);
        self.write_raw(addr);
        self.write_raw(words);
        proof {
            assert(old(self).stream().push(clear_buffer_header(pattern)).push(addr).push(words)
                =~= old(self).stream() + seq![clear_buffer_header(pattern), addr, words]);
        }
    }

    /// Append a draw-triangle command: the seven words are kept contiguous
    /// in one buffer, so the stream is flushed first when fewer than seven
    /// words of room remain.
    pub fn draw_triangle(
        &mut self,
        texture: Option<u8>,
        v0: ScreenVertex,
        v1: ScreenVertex,
        v2: ScreenVertex,
    )
        requires
            old(self).wf(),
            texture matches Some(slot) ==> slot < 4,
            v0.wf(),
            v1.wf(),
            v2.wf(),
        ensures
            final(self).wf(),
            final(self).taken() == old(self).taken(),
            final(self).stream() == old(self).stream() + draw_triangle_words(texture, v0, v1, v2),
            old(self).pos() + 7 <= BUFFER_SIZE_WORDS ==> {
                &&& final(self).pending_words() == old(self).pending_words() + draw_triangle_words(texture, v0, v1, v2)
                &&& final(self).batches() == old(self).batches()
                &&& final(self).submitted() == old(self).submitted()
            },
            old(self).pos() + 7 > BUFFER_SIZE_WORDS ==> {
                &&& final(self).submitted() == old(self).stream()
                &&& final(self).pending_words() == draw_triangle_words(texture, v0, v1, v2)
            },
    {
        if self.pending.len() + 7 > BUFFER_SIZE_WORDS {
            self.flush_buffer();
        }
        let header: u32 = match texture {
            Some(slot) => 0x01u32 | (1u32 << 6) | ((slot as u32) << 7),
            None => 0x01u32,
        };
        self.write_raw(header);
        let (a0, a1) = v0.pack();
        self.write_raw(a0);
        self.write_raw(a1);
        let (b0, b1) = v1.pack();
        self.write_raw(b0);
        self.write_raw(b1);
        let (c0, c1) = v2.pack();
        self.write_raw(c0);
        self.write_raw(c1);
        proof {
            let ws = draw_triangle_words(texture, v0, v1, v2);
            assert(self.stream() =~= old(self).stream() + ws);
            if old(self).pos() + 7 <= BUFFER_SIZE_WORDS {
                assert(self.pending@ =~= old(self).pending@ + ws);
            } else {
                assert(self.pending@ =~= ws);
            }
        }
    }

    /// Append a load-texture command: the header names the target slot and
    /// the S/T tile ranges, and the RGB payload follows as little-endian
    /// words.  The ranges must stay within one 64-wide tile, T must cover
    /// whole half-row pairs, and the payload length must match the ranges.
    pub fn load_texture(
        &mut self,
        buffer: u8,
        start_s: u8,
        end_s: u8,
        start_t: u8,
        end_t: u8,
        data: &[u8],
    )
        requires
            old(self).wf(),
            buffer < 4,
            start_s <= end_s && end_s < 128,
            start_t < 128 && end_t < 128,
            start_t % 2 == 0,
            end_t % 2 == 1,
            start_s / 64 == end_s / 64,
            start_t / 2 < end_t / 2,
            (start_t / 2) / 32 == (end_t / 2) / 32,
            data@.len() == (end_s - start_s + 1) * ((end_t / 2 - start_t / 2 + 1) * 2) * 3,
            data@.len() % 4 == 0,
        ensures
            final(self).wf(),
            final(self).taken() == old(self).taken(),
            final(self).stream() == old(self).stream() + seq![
                load_texture_header(buffer, start_s, end_s, start_t, end_t),
            ] + le_words(data@),
    {
        let s_high = start_s / 64;
        let start_t_half = start_t / 2;
        let end_t_half = end_t / 2;
        let t_high = start_t_half / 32;
        let header: u32 = 0x02u32 | ((buffer as u32) << 6) | ((s_high as u32) << 8)
            | (((start_s % 64) as u32) << 9) | (((end_s % 64) as u32) << 15)
            | ((t_high as u32) << 21) | (((start_t_half % 32) as u32) << 22)
            | (((end_t_half % 32) as u32) << 27);
        self.write_raw(header);

        let ghost mid = self.stream();
        let n_words = data.len() / 4;
        let mut w: usize = 0;
        while w < n_words
            invariant
                w <= n_words,
                n_words == data@.len() / 4,
                data@.len() % 4 == 0,
                data@.len() <= usize::MAX,
                self.wf(),
                self.taken() == old(self).taken(),
                self.stream() == mid + le_words(data@).take(w as int),
            decreases n_words - w,
        {
            proof {
                vstd::arithmetic::div_mod::lemma_fundamental_div_mod(data@.len() as int, 4);
                assert(4 * w + 4 <= data@.len());
                assert(le_words(data@).take(w + 1) =~= le_words(data@).take(w as int).push(
                    le_words(data@)[w as int],
                ));
            }
            let b0 = data[4 * w];
            let b1 = data[4 * w + 1];
            let b2 = data[4 * w + 2];
            let b3 = data[4 * w + 3];
            let word: u32 = (b0 as u32) | ((b1 as u32) << 8) | ((b2 as u32) << 16)
                | ((b3 as u32) << 24);
            self.write_raw(word);
            w += 1;
        }
        proof {
            assert(le_words(data@).take(n_words as int) =~= le_words(data@));
            assert(self.stream() =~= old(self).stream() + seq![
                load_texture_header(buffer, start_s, end_s, start_t, end_t),
            ] + le_words(data@));
        }
    }

    /// Hand the flushed batches to the caller, oldest first, leaving the
    /// outbox empty.  The caller streams each batch to the rasterizer after
    /// the previous submission's DMA has drained.
    pub fn take_submissions(&mut self) -> (subs: Vec<Submission>)
        requires
            old(self).wf(),
        ensures
            final(self).wf(),
            subs@ == old(self).batches(),
            final(self).batches().len() == 0,
            final(self).stream() == old(self).stream(),
            final(self).submitted() == old(self).submitted(),
            final(self).pending_words() == old(self).pending_words(),
            final(self).buffer_index() == old(self).buffer_index(),
            forall|i: int| 0 <= i < subs@.len() ==> (#[trigger] subs@[i]).wf(),
    {
        let mut subs: Vec<Submission> = Vec::new();
        core::mem::swap(&mut self.outbox, &mut subs);
        proof {
            self.drained@ = self.drained@ + flat(subs@);
        }
        subs
    }
}

} // verus!
