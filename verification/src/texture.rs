//! Texture storage in the hardware's quadrant-interleaved order.
//!
//! A texture is 128 x 128 RGB bytes.  The rasterizer stores it as four
//! 64 x 64 quadrants concatenated, row-major within each quadrant, so the
//! byte offset of pixel `(x, y)` is `(quad * 4096 + (y % 64) * 64 + (x % 64))
//! * 3` with `quad = x / 64 + 2 * (y / 64)`.  Loading a texture reorders the
//! caller's row-major RGB image into that layout.

use vstd::prelude::*;

verus! {

/// Total bytes of one 128 x 128 RGB texture.
pub const TEXTURE_BYTES: usize = 49152;

/// Bytes of one 64 x 64 RGB quadrant.
pub const QUADRANT_BYTES: usize = 12288;

/// Byte offset of pixel `(x, y)` in quadrant-interleaved storage.
pub open spec fn pixel_index_spec(x: int, y: int) -> int {
    ((x / 64 + 2 * (y / 64)) * 4096 + (y % 64) * 64 + (x % 64)) * 3
}

/// The quadrant offset is within bounds and aligned to whole pixels.
pub proof fn lemma_pixel_index_bounds(x: int, y: int)
    requires
        0 <= x < 128,
        0 <= y < 128,
    ensures
        0 <= pixel_index_spec(x, y),
        pixel_index_spec(x, y) + 3 <= TEXTURE_BYTES,
        pixel_index_spec(x, y) % 3 == 0,
{
    assert(0 <= x / 64 <= 1);
    assert(0 <= y / 64 <= 1);
    assert(0 <= x % 64 < 64);
    assert(0 <= y % 64 < 64);
}

/// Distinct pixels live at distinct storage offsets.
pub proof fn lemma_pixel_index_injective(x1: int, y1: int, x2: int, y2: int)
    requires
        0 <= x1 < 128,
        0 <= y1 < 128,
        0 <= x2 < 128,
        0 <= y2 < 128,
        pixel_index_spec(x1, y1) == pixel_index_spec(x2, y2),
    ensures
        x1 == x2,
        y1 == y2,
{
    let q1 = x1 / 64 + 2 * (y1 / 64);
    let r1 = (y1 % 64) * 64 + (x1 % 64);
    let q2 = x2 / 64 + 2 * (y2 / 64);
    let r2 = (y2 % 64) * 64 + (x2 % 64);
    assert(0 <= q1 <= 3 && 0 <= q2 <= 3);
    assert(0 <= r1 < 4096 && 0 <= r2 < 4096);
    assert((q1 * 4096 + r1) * 3 == (q2 * 4096 + r2) * 3);
    assert(q1 * 4096 + r1 == q2 * 4096 + r2) by (nonlinear_arith)
        requires
            (q1 * 4096 + r1) * 3 == (q2 * 4096 + r2) * 3,
    ;
    assert(q1 == q2 && r1 == r2) by (nonlinear_arith)
        requires
            0 <= q1 <= 3 && 0 <= q2 <= 3 && 0 <= r1 < 4096 && 0 <= r2 < 4096,
            q1 * 4096 + r1 == q2 * 4096 + r2,
    ;
    assert(y1 % 64 == y2 % 64 && x1 % 64 == x2 % 64) by (nonlinear_arith)
        requires
            0 <= x1 % 64 < 64 && 0 <= x2 % 64 < 64,
            (y1 % 64) * 64 + (x1 % 64) == (y2 % 64) * 64 + (x2 % 64),
    ;
    assert(x1 / 64 == x2 / 64 && y1 / 64 == y2 / 64) by (nonlinear_arith)
        requires
            0 <= x1 / 64 <= 1 && 0 <= x2 / 64 <= 1 && 0 <= y1 / 64 <= 1 && 0 <= y2 / 64 <= 1,
            x1 / 64 + 2 * (y1 / 64) == x2 / 64 + 2 * (y2 / 64),
    ;
    assert(x1 == 64 * (x1 / 64) + x1 % 64);
    assert(x2 == 64 * (x2 / 64) + x2 % 64);
    assert(y1 == 64 * (y1 / 64) + y1 % 64);
    assert(y2 == 64 * (y2 / 64) + y2 % 64);
}

/// Byte offset of pixel `(x, y)` in quadrant-interleaved storage.
pub fn pixel_index(x: u8, y: u8) -> (r: usize)
    requires
        x < 128,
        y < 128,
    ensures
        r == pixel_index_spec(x as int, y as int),
        r + 3 <= TEXTURE_BYTES,
{
    proof {
        lemma_pixel_index_bounds(x as int, y as int);
    }
    let quad = (x / 64) as usize + 2 * (y / 64) as usize;
    let x_quad = (x % 64) as usize;
    let y_quad = (y % 64) as usize;
    (quad * 64 * 64 + y_quad * 64 + x_quad) * 3
}

/// Pixel `(x, y)` of `data` (quadrant order) holds the same RGB bytes as the
/// row-major image `rgb`.
pub open spec fn pixel_loaded(data: Seq<u8>, rgb: Seq<u8>, x: int, y: int) -> bool {
    forall|k: int| 0 <= k < 3 ==> #[trigger] data[pixel_index_spec(x, y) + k] == rgb[(y * 128 + x) * 3 + k]
}

/// A logical texture: a monotonically assigned id, the quadrant-interleaved
/// pixel bytes, and a dirty flag that marks the stored bytes as not yet
/// uploaded to the hardware slot the texture may be resident in.
pub struct TextureBuffer {
    id: u32,
    data: Vec<u8>,
    dirty: bool,
}

impl TextureBuffer {
    /// The storage always holds exactly one 128 x 128 RGB image.
    pub open spec fn wf(self) -> bool {
        self.spec_data().len() == TEXTURE_BYTES
    }

    pub closed spec fn spec_id(self) -> u32 {
        self.id
    }

    pub closed spec fn spec_data(self) -> Seq<u8> {
        self.data@
    }

    pub closed spec fn spec_dirty(self) -> bool {
        self.dirty
    }

    /// A fresh texture: all black, marked dirty so the first draw uploads it.
    pub fn new(id: u32) -> (t: Self)
        ensures
            t.wf(),
            t.spec_id() == id,
            t.spec_dirty(),
            t.spec_data() =~= Seq::new(TEXTURE_BYTES as nat, |i: int| 0u8),
    {
        TextureBuffer { id, data: vec![0u8; TEXTURE_BYTES], dirty: true }
    }

    pub fn id(&self) -> (r: u32)
        ensures
            r == self.spec_id(),
    {
        self.id
    }

    pub fn is_dirty(&self) -> (r: bool)
        ensures
            r == self.spec_dirty(),
    {
        self.dirty
    }

    /// The stored bytes, in quadrant-interleaved order.
    pub fn data(&self) -> (r: &Vec<u8>)
        ensures
            r@ == self.spec_data(),
    {
        &self.data
    }

    pub(crate) fn mark_clean(&mut self)
        ensures
            final(self).spec_id() == old(self).spec_id(),
            final(self).spec_data() == old(self).spec_data(),
            !final(self).spec_dirty(),
    {
        self.dirty = false;
    }

    /// Load a row-major 128 x 128 RGB image, reordering it into quadrant
    /// order: afterwards the bytes at `pixel_index(x, y)` are the bytes of
    /// pixel `(x, y)` of `rgb`, for every pixel.  Marks the texture dirty.
    #[verifier::rlimit(60)]
    pub fn load(&mut self, rgb: &[u8])
        requires
            old(self).wf(),
            rgb@.len() == TEXTURE_BYTES,
        ensures
            final(self).wf(),
            final(self).spec_id() == old(self).spec_id(),
            final(self).spec_dirty(),
            forall|x: int, y: int| 0 <= x < 128 && 0 <= y < 128 ==> pixel_loaded(
                final(self).spec_data(),
                rgb@,
                x,
                y,
            ),
    {
        let mut y: usize = 0;
        while y < 128
            invariant
                y <= 128,
                self.wf(),
                self.id == old(self).id,
                rgb@.len() == TEXTURE_BYTES,
                forall|x2: int, y2: int| 0 <= x2 < 128 && 0 <= y2 < y ==> pixel_loaded(
                    self.data@,
                    rgb@,
                    x2,
                    y2,
                ),
            decreases 128 - y,
        {
            let mut x: usize = 0;
            while x < 128
                invariant
                    x <= 128,
                    y < 128,
                    self.wf(),
                    self.id == old(self).id,
                    rgb@.len() == TEXTURE_BYTES,
                    forall|x2: int, y2: int| 0 <= x2 < 128 && 0 <= y2 < y ==> pixel_loaded(
                        self.data@,
                        rgb@,
                        x2,
                        y2,
                    ),
                    forall|x2: int| 0 <= x2 < x ==> pixel_loaded(self.data@, rgb@, x2, y as int),
                decreases 128 - x,
            {
                let src = (y * 128 + x) * 3;
                let dst = pixel_index(x as u8, y as u8);
                let ghost before = self.data@;
                self.data[dst] = rgb[src];
                self.data[dst + 1] = rgb[src + 1];
                self.data[dst + 2] = rgb[src + 2];
                proof {
                    let xi = x as int;
                    let yi = y as int;
                    let base = pixel_index_spec(xi, yi);
                    lemma_pixel_index_bounds(xi, yi);
                    assert(self.data@ =~= before.update(base, rgb@[(yi * 128 + xi) * 3]).update(
                        base + 1,
                        rgb@[(yi * 128 + xi) * 3 + 1],
                    ).update(base + 2, rgb@[(yi * 128 + xi) * 3 + 2]));
                    assert forall|x2: int, y2: int|
                        0 <= x2 < 128 && 0 <= y2 < yi implies pixel_loaded(
                        self.data@,
                        rgb@,
                        x2,
                        y2,
                    ) by {
                        assert(pixel_loaded(before, rgb@, x2, y2));
                        lemma_pixel_index_bounds(x2, y2);
                        if pixel_index_spec(x2, y2) == pixel_index_spec(xi, yi) {
                            lemma_pixel_index_injective(x2, y2, xi, yi);
                        }
                        assert(pixel_index_spec(x2, y2) + 3 <= base || base + 3
                            <= pixel_index_spec(x2, y2));
                    }
                    assert forall|x2: int| 0 <= x2 <= xi implies pixel_loaded(
                        self.data@,
                        rgb@,
                        x2,
                        yi,
                    ) by {
                        if x2 < xi {
                            assert(pixel_loaded(before, rgb@, x2, yi));
                            lemma_pixel_index_bounds(x2, yi);
                            if pixel_index_spec(x2, yi) == pixel_index_spec(xi, yi) {
                                lemma_pixel_index_injective(x2, yi, xi, yi);
                            }
                            assert(pixel_index_spec(x2, yi) + 3 <= base || base + 3
                                <= pixel_index_spec(x2, yi));
                        } else {
                            assert(pixel_loaded(self.data@, rgb@, xi, yi));
                        }
                    }
                }
                x += 1;
            }
            y += 1;
        }
        self.dirty = true;
    }
}

} // verus!
