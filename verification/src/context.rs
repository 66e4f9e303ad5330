//! The hardware GL context: frame and depth buffer rotation, texture
//! residency, and the per-frame command protocol.
//!
//! The context owns the command stream and the rotation state; the caller
//! owns the devices.  Around `begin_frame` the caller programs the
//! rasterizer's frame/depth base registers from [`Context::current_frame_addr`]
//! and [`Context::current_depth_addr`]; after `end_frame` it performs the
//! flushed submissions, waits for the pipeline to drain, and hands the
//! returned scan-out address to the display controller.  Three frame buffers
//! rotate so one is rendered, one is scanned out and one is cleared in the
//! background; two depth buffers rotate so the next frame's depth clear
//! overlaps the current frame.

use vstd::prelude::*;
use crate::command::{
    clear_buffer_header,
    draw_triangle_words,
    le_words,
    load_texture_header,
    CommandBuffer,
};
use crate::cull::{CullMode, FrontFace};
use crate::pipeline::{pipeline_spec, transform_gouraud, transform_texture, GeometryError};
use crate::residency::{slot_of, table_after, ResidencyTable};
use crate::texture::{TextureBuffer, QUADRANT_BYTES, TEXTURE_BYTES};
use crate::vertex::ScreenVertex;
use vstd::slice::slice_subrange;

verus! {

/// Frame buffer byte size: width x height RGB, rounded up to whole pages.
pub open spec fn fb_size_spec(width: int, height: int) -> int {
    ((width * height * 3 + 4095) / 4096) * 4096
}

/// Depth buffer byte size: width x height 16-bit, rounded up to whole pages.
pub open spec fn z_size_spec(width: int, height: int) -> int {
    ((width * height * 2 + 4095) / 4096) * 4096
}

/// The words `begin_frame` appends: a clear-engine barrier, then a
/// background clear of the depth buffer at `depth_addr` to zero.
pub open spec fn begin_frame_words(depth_addr: u32, z_size: u32) -> Seq<u32> {
    seq![0x05u32, clear_buffer_header(0), depth_addr >> 7, z_size / 8]
}

/// The words `end_frame` appends: a background clear of the next frame
/// buffer to white, then a pipeline-drain barrier.
pub open spec fn end_frame_words(next_fb_addr: u32, fb_size: u32) -> Seq<u32> {
    seq![clear_buffer_header(0xFFFFFF), next_fb_addr >> 7, fb_size / 8, 0x03u32]
}

/// The words of one whole-texture upload into `slot`: four 64 x 64 tile
/// loads, one per quadrant of the stored data, in storage order.
pub open spec fn quadrant_words(slot: u8, data: Seq<u8>, q: int) -> Seq<u32>
    recommends
        0 <= q < 4,
        data.len() == TEXTURE_BYTES,
{
    let header = if q == 0 {
        load_texture_header(slot, 0, 63, 0, 63)
    } else if q == 1 {
        load_texture_header(slot, 0, 63, 64, 127)
    } else if q == 2 {
        load_texture_header(slot, 64, 127, 0, 63)
    } else {
        load_texture_header(slot, 64, 127, 64, 127)
    };
    seq![header] + le_words(data.subrange(q * QUADRANT_BYTES, (q + 1) * QUADRANT_BYTES))
}

/// All four quadrant uploads of one texture.
pub open spec fn upload_words(slot: u8, data: Seq<u8>) -> Seq<u32> {
    quadrant_words(slot, data, 0) + quadrant_words(slot, data, 1) + quadrant_words(slot, data, 2)
        + quadrant_words(slot, data, 3)
}

/// The words of a run of draw-triangle commands, one per triangle.
pub open spec fn draws_words(texture: Option<u8>, tris: Seq<[ScreenVertex; 3]>) -> Seq<u32>
    decreases tris.len(),
{
    if tris.len() == 0 {
        Seq::empty()
    } else {
        draws_words(texture, tris.drop_last()) + draw_triangle_words(
            texture,
            tris.last()[0],
            tris.last()[1],
            tris.last()[2],
        )
    }
}

/// Every vertex of every triangle fits the packed encoding.
pub open spec fn tris_wf(tris: Seq<[ScreenVertex; 3]>) -> bool {
    forall|i: int, j: int| 0 <= i < tris.len() && 0 <= j < 3 ==> (#[trigger] tris[i][j]).wf()
}

/// The per-frame driver state around the command stream.
pub struct Context {
    pub width: usize,
    pub height: usize,
    pub cull_mode: CullMode,
    pub front_face: FrontFace,
    /// Byte addresses of the three rotating frame buffers.
    pub frame_buffer_addrs: [u32; 3],
    pub frame_buffer_idx: usize,
    /// Byte addresses of the two rotating depth buffers.
    pub depth_buffer_addrs: [u32; 2],
    pub depth_buffer_idx: usize,
    pub fb_size: u32,
    pub z_size: u32,
    pub next_texture_buffer_id: u32,
    pub residency: ResidencyTable,
    pub cmd: CommandBuffer,
}

impl Context {
    pub open spec fn wf(self) -> bool {
        &&& self.frame_buffer_idx < 3
        &&& self.depth_buffer_idx < 2
        &&& self.fb_size == fb_size_spec(self.width as int, self.height as int)
        &&& self.z_size == z_size_spec(self.width as int, self.height as int)
        &&& self.next_texture_buffer_id >= 1
        &&& self.residency.wf()
        &&& self.cmd.wf()
    }

    /// Everything of the context but the command stream and the texture
    /// residency: the drawing state that plain draws must not touch.
    pub open spec fn same_frame_state(self, other: Self) -> bool {
        &&& self.width == other.width
        &&& self.height == other.height
        &&& self.cull_mode == other.cull_mode
        &&& self.front_face == other.front_face
        &&& self.frame_buffer_addrs == other.frame_buffer_addrs
        &&& self.frame_buffer_idx == other.frame_buffer_idx
        &&& self.depth_buffer_addrs == other.depth_buffer_addrs
        &&& self.depth_buffer_idx == other.depth_buffer_idx
        &&& self.fb_size == other.fb_size
        &&& self.z_size == other.z_size
        &&& self.next_texture_buffer_id == other.next_texture_buffer_id
    }

    /// A fresh context over buffers the caller allocated.  Rotation starts
    /// at buffer 0, no texture is resident, culling is off and the front
    /// face is counter-clockwise.
    pub fn new(
        width: usize,
        height: usize,
        frame_buffer_addrs: [u32; 3],
        depth_buffer_addrs: [u32; 2],
    ) -> (s: Self)
        requires
            0 < width,
            0 < height,
            width * height * 3 + 4095 <= u32::MAX,
        ensures
            s.wf(),
            s.width == width,
            s.height == height,
            s.cull_mode == CullMode::Disabled,
            s.front_face == FrontFace::CounterClockwise,
            s.frame_buffer_addrs == frame_buffer_addrs,
            s.depth_buffer_addrs == depth_buffer_addrs,
            s.frame_buffer_idx == 0,
            s.depth_buffer_idx == 0,
            s.next_texture_buffer_id == 1,
            s.residency.spec_slots() =~= seq![0u32, 0u32, 0u32, 0u32],
            s.residency.spec_next() == 0,
            s.cmd.stream() == Seq::<u32>::empty(),
            s.cmd.pos() == 0,
            s.cmd.batches().len() == 0,
    {
        let fb_bytes: u32 = (width * height * 3) as u32;
        let fb_size: u32 = (fb_bytes + 4095) / 4096 * 4096;
        let z_bytes: u32 = (width * height * 2) as u32;
        let z_size: u32 = (z_bytes + 4095) / 4096 * 4096;
        proof {
            assert(width * height * 2 <= width * height * 3) by (nonlinear_arith)
                requires
                    0 < width && 0 < height,
            ;
            assert(fb_size == fb_size_spec(width as int, height as int));
            assert(z_size == z_size_spec(width as int, height as int));
        }
        Context {
            width,
            height,
            cull_mode: CullMode::Disabled,
            front_face: FrontFace::CounterClockwise,
            frame_buffer_addrs,
            frame_buffer_idx: 0,
            depth_buffer_addrs,
            depth_buffer_idx: 0,
            fb_size,
            z_size,
            next_texture_buffer_id: 1,
            residency: ResidencyTable::new(),
            cmd: CommandBuffer::new(),
        }
    }

    pub fn width(&self) -> (r: usize)
        ensures
            r == self.width,
    {
        self.width
    }

    pub fn height(&self) -> (r: usize)
        ensures
            r == self.height,
    {
        self.height
    }

    /// Byte address of the frame buffer the next frame renders into.
    pub fn current_frame_addr(&self) -> (r: u32)
        requires
            self.wf(),
        ensures
            r == self.frame_buffer_addrs@[self.frame_buffer_idx as int],
    {
        self.frame_buffer_addrs[self.frame_buffer_idx]
    }

    /// Byte address of the depth buffer the next frame renders against.
    pub fn current_depth_addr(&self) -> (r: u32)
        requires
            self.wf(),
        ensures
            r == self.depth_buffer_addrs@[self.depth_buffer_idx as int],
    {
        self.depth_buffer_addrs[self.depth_buffer_idx]
    }

    pub fn set_cull_mode(&mut self, mode: CullMode)
        ensures
            *final(self) == (Context { cull_mode: mode, ..*old(self) }),
    {
        self.cull_mode = mode;
    }

    pub fn set_front_face(&mut self, face: FrontFace)
        ensures
            *final(self) == (Context { front_face: face, ..*old(self) }),
    {
        self.front_face = face;
    }

    /// A fresh texture under the next monotonically assigned id.
    pub fn create_texture_buffer(&mut self) -> (t: TextureBuffer)
        requires
            old(self).wf(),
            old(self).next_texture_buffer_id < u32::MAX,
        ensures
            final(self).wf(),
            *final(self) == (Context {
                next_texture_buffer_id: (old(self).next_texture_buffer_id + 1) as u32,
                ..*old(self)
            }),
            t.wf(),
            t.spec_id() == old(self).next_texture_buffer_id,
            t.spec_dirty(),
    {
        let id = self.next_texture_buffer_id;
        self.next_texture_buffer_id = id + 1;
        TextureBuffer::new(id)
    }

    /// Open a frame: wait for the previous frame's background depth clear,
    /// rotate to the other depth buffer, and kick its clear so it overlaps
    /// this frame.  The caller must have programmed the rasterizer's base
    /// registers with `current_frame_addr`/`current_depth_addr` first.
    pub fn begin_frame(&mut self)
        requires
            old(self).wf(),
        ensures
            final(self).wf(),
            final(self).same_frame_state(Context {
                depth_buffer_idx: ((old(self).depth_buffer_idx + 1) % 2) as usize,
                ..*old(self)
            }),
            final(self).residency == old(self).residency,
            final(self).cmd.stream() == old(self).cmd.stream() + begin_frame_words(
                old(self).depth_buffer_addrs@[((old(self).depth_buffer_idx + 1) % 2) as int],
                old(self).z_size,
            ),
            final(self).cmd.taken() == old(self).cmd.taken(),
    {
        self.cmd.wait_clear_idle();
        self.depth_buffer_idx = (self.depth_buffer_idx + 1) % 2;
        let db_addr = self.depth_buffer_addrs[self.depth_buffer_idx];
        let words = self.z_size / 8;
        self.cmd.clear_buffer(db_addr >> 7, words, 0);
        proof {
            assert(final(self).cmd.stream() =~= old(self).cmd.stream() + begin_frame_words(
                old(self).depth_buffer_addrs@[((old(self).depth_buffer_idx + 1) % 2) as int],
                old(self).z_size,
            ));
        }
    }

    /// Close a frame: kick the background clear of the frame buffer the
    /// frame after next will use, append a pipeline-drain barrier, flush
    /// the command stream, and advance the frame rotation.  Returns the
    /// byte address of the buffer just rendered, for scan-out.
    pub fn end_frame(&mut self) -> (scanout: u32)
        requires
            old(self).wf(),
        ensures
            final(self).wf(),
            final(self).same_frame_state(Context {
                frame_buffer_idx: ((old(self).frame_buffer_idx + 1) % 3) as usize,
                ..*old(self)
            }),
            final(self).residency == old(self).residency,
            scanout == old(self).frame_buffer_addrs@[old(self).frame_buffer_idx as int],
            final(self).cmd.stream() == old(self).cmd.stream() + end_frame_words(
                old(self).frame_buffer_addrs@[((old(self).frame_buffer_idx + 1) % 3) as int],
                old(self).fb_size,
            ),
            final(self).cmd.pos() == 0,
            final(self).cmd.submitted() == final(self).cmd.stream(),
            final(self).cmd.taken() == old(self).cmd.taken(),
    {
        let scanout = self.frame_buffer_addrs[self.frame_buffer_idx];
        let next_idx = (self.frame_buffer_idx + 1) % 3;
        let fb_addr = self.frame_buffer_addrs[next_idx];
        let words = self.fb_size / 8;
        self.cmd.clear_buffer(fb_addr >> 7, words, 0xFFFFFF);
        self.cmd.wait_idle();
        self.cmd.flush_buffer();
        self.frame_buffer_idx = next_idx;
        proof {
            assert(final(self).cmd.stream() =~= old(self).cmd.stream() + end_frame_words(
                old(self).frame_buffer_addrs@[((old(self).frame_buffer_idx + 1) % 3) as int],
                old(self).fb_size,
            ));
        }
        scanout
    }

    /// Run the geometry pipeline for Gouraud shading under this context's
    /// cull mode, front face and viewport.
    pub fn transform_gouraud(
        &self,
        vertices: &[crate::clip::ClipVertex],
        indices: &[u16],
    ) -> (r: Result<Vec<[ScreenVertex; 3]>, GeometryError>)
        requires
            self.wf(),
            forall|i: int| 0 <= i < vertices@.len() ==> (#[trigger] vertices@[i]).wf(),
            1 <= self.width <= 2048,
            1 <= self.height <= 2048,
        ensures
            (r == Result::<Vec<[ScreenVertex; 3]>, GeometryError>::Err(
                GeometryError::IndexCount,
            )) == (indices@.len() % 3 != 0),
            r matches Ok(v) ==> v@ == pipeline_spec(
                vertices@,
                indices@,
                self.cull_mode,
                self.front_face,
                false,
                self.width as int,
                self.height as int,
            ) && tris_wf(v@),
    {
        transform_gouraud(
            vertices,
            indices,
            self.cull_mode,
            self.front_face,
            self.width,
            self.height,
        )
    }

    /// Run the geometry pipeline for texturing under this context's cull
    /// mode, front face and viewport.
    pub fn transform_texture(
        &self,
        vertices: &[crate::clip::ClipVertex],
        indices: &[u16],
    ) -> (r: Result<Vec<[ScreenVertex; 3]>, GeometryError>)
        requires
            self.wf(),
            forall|i: int| 0 <= i < vertices@.len() ==> (#[trigger] vertices@[i]).wf(),
            1 <= self.width <= 2048,
            1 <= self.height <= 2048,
        ensures
            (r == Result::<Vec<[ScreenVertex; 3]>, GeometryError>::Err(
                GeometryError::IndexCount,
            )) == (indices@.len() % 3 != 0),
            r matches Ok(v) ==> v@ == pipeline_spec(
                vertices@,
                indices@,
                self.cull_mode,
                self.front_face,
                true,
                self.width as int,
                self.height as int,
            ) && tris_wf(v@),
    {
        transform_texture(
            vertices,
            indices,
            self.cull_mode,
            self.front_face,
            self.width,
            self.height,
        )
    }

    /// Append one draw-triangle command per triangle, without a texture.
    pub fn draw_gouraud(&mut self, tris: &[[ScreenVertex; 3]])
        requires
            old(self).wf(),
            tris_wf(tris@),
        ensures
            final(self).wf(),
            final(self).same_frame_state(*old(self)),
            final(self).residency == old(self).residency,
            final(self).cmd.stream() == old(self).cmd.stream() + draws_words(None, tris@),
            final(self).cmd.taken() == old(self).cmd.taken(),
    {
        self.draw_triangles(None, tris);
    }

    /// Draw triangles against `texture`: make the texture resident (round
    /// robin over the four hardware slots), upload its four quadrants when
    /// it was not resident or is dirty, then append one textured draw per
    /// triangle.
    pub fn draw_texture(&mut self, texture: &mut TextureBuffer, tris: &[[ScreenVertex; 3]])
        requires
            old(self).wf(),
            old(texture).wf(),
            old(texture).spec_id() != 0,
            tris_wf(tris@),
        ensures
            final(self).wf(),
            final(self).same_frame_state(*old(self)),
            final(texture).wf(),
            final(texture).spec_id() == old(texture).spec_id(),
            final(texture).spec_data() == old(texture).spec_data(),
            !final(texture).spec_dirty(),
            (final(self).residency.spec_slots(), final(self).residency.spec_next()) == table_after(
                old(self).residency.spec_slots(),
                old(self).residency.spec_next(),
                old(texture).spec_id(),
            ),
            ({
                let resident = slot_of(
                    old(self).residency.spec_slots(),
                    old(texture).spec_id(),
                ) >= 0;
                let slot = if resident {
                    slot_of(old(self).residency.spec_slots(), old(texture).spec_id()) as u8
                } else {
                    old(self).residency.spec_next() as u8
                };
                let uploaded = !resident || old(texture).spec_dirty();
                final(self).cmd.stream() == old(self).cmd.stream() + (if uploaded {
                    upload_words(slot, old(texture).spec_data())
                } else {
                    Seq::<u32>::empty()
                }) + draws_words(Some(slot), tris@)
            }),
            final(self).cmd.taken() == old(self).cmd.taken(),
    {
        let (slot, fresh) = self.residency.acquire(texture.id());
        let load = fresh || texture.is_dirty();
        if load {
            let data = texture.data();
            proof {
                assert((63int - 0 + 1) * ((63int / 2 - 0int / 2 + 1) * 2) * 3 == 12288
                    && (63int - 0 + 1) * ((127int / 2 - 64int / 2 + 1) * 2) * 3 == 12288
                    && (127int - 64 + 1) * ((63int / 2 - 0int / 2 + 1) * 2) * 3 == 12288
                    && (127int - 64 + 1) * ((127int / 2 - 64int / 2 + 1) * 2) * 3 == 12288)
                    by (nonlinear_arith);
            }
            let q0 = slice_subrange(data.as_slice(), 0, QUADRANT_BYTES);
            self.cmd.load_texture(slot, 0, 63, 0, 63, q0);
            let q1 = slice_subrange(data.as_slice(), QUADRANT_BYTES, 2 * QUADRANT_BYTES);
            self.cmd.load_texture(slot, 0, 63, 64, 127, q1);
            let q2 = slice_subrange(data.as_slice(), 2 * QUADRANT_BYTES, 3 * QUADRANT_BYTES);
            self.cmd.load_texture(slot, 64, 127, 0, 63, q2);
            let q3 = slice_subrange(data.as_slice(), 3 * QUADRANT_BYTES, 4 * QUADRANT_BYTES);
            self.cmd.load_texture(slot, 64, 127, 64, 127, q3);
            texture.mark_clean();
            proof {
                assert(self.cmd.stream() =~= old(self).cmd.stream() + upload_words(
                    slot,
                    old(texture).spec_data(),
                ));
            }
        }
        self.draw_triangles(Some(slot), tris);
    }

    /// Append one draw-triangle command per triangle.
    fn draw_triangles(&mut self, texture: Option<u8>, tris: &[[ScreenVertex; 3]])
        requires
            old(self).wf(),
            texture matches Some(slot) ==> slot < 4,
            tris_wf(tris@),
        ensures
            final(self).wf(),
            final(self).same_frame_state(*old(self)),
            final(self).residency == old(self).residency,
            final(self).cmd.stream() == old(self).cmd.stream() + draws_words(texture, tris@),
            final(self).cmd.taken() == old(self).cmd.taken(),
    {
        let n = tris.len();
        let mut i: usize = 0;
        while i < n
            invariant
                i <= n,
                n == tris@.len(),
                tris_wf(tris@),
                texture matches Some(slot) ==> slot < 4,
                self.wf(),
                self.same_frame_state(*old(self)),
                self.residency == old(self).residency,
                self.cmd.stream() == old(self).cmd.stream() + draws_words(texture, tris@.take(
                    i as int,
                )),
                self.cmd.taken() == old(self).cmd.taken(),
            decreases n - i,
        {
            let t = tris[i];
            self.cmd.draw_triangle(texture, t[0], t[1], t[2]);
            proof {
                assert(tris@.take(i + 1).drop_last() =~= tris@.take(i as int));
                assert(tris@.take(i + 1).last() == tris@[i as int]);
                assert(self.cmd.stream() =~= old(self).cmd.stream() + draws_words(
                    texture,
                    tris@.take(i + 1),
                ));
            }
            i += 1;
        }
        proof {
            assert(tris@.take(n as int) =~= tris@);
        }
    }
}

} // verus!
