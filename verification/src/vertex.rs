//! Packed screen-vertex encoding.
//!
//! A screen-space vertex is carried to the rasterizer as one 64-bit value,
//! split over two 32-bit command words.  The bit layout is part of the
//! hardware instruction set and must match it exactly:
//! `X[10:0] | Y[21:11] | Z[37:22] | A0[45:38] | A1[53:46] | A2[61:54]`,
//! with the two highest bits reserved.

use vstd::prelude::*;

verus! {

/// A vertex after viewport mapping, in device coordinates.
///
/// `r_s`, `g_t` and `b` are the three interpolants: red/green/blue on the
/// Gouraud path, or S/T/zero on the texture path.
#[derive(Copy, Clone, PartialEq, Eq, Structural, Debug)]
pub struct ScreenVertex {
    /// Device column; 11 significant bits.
    pub x: u16,
    /// Device row; 11 significant bits.
    pub y: u16,
    /// Device depth; larger values are nearer.
    pub z: u16,
    pub r_s: u8,
    pub g_t: u8,
    pub b: u8,
}

/// The fields a 64-bit packed vertex decodes to.
pub open spec fn unpacked(val: u64) -> ScreenVertex {
    ScreenVertex {
        x: (val & 0x7FF) as u16,
        y: ((val >> 11) & 0x7FF) as u16,
        z: ((val >> 22) & 0xFFFF) as u16,
        r_s: ((val >> 38) & 0xFF) as u8,
        g_t: ((val >> 46) & 0xFF) as u8,
        b: ((val >> 54) & 0xFF) as u8,
    }
}

impl ScreenVertex {
    /// `x` and `y` fit their 11-bit slots of the packed word.
    pub open spec fn wf(self) -> bool {
        self.x < 2048 && self.y < 2048
    }

    /// The 64-bit packed form of this vertex.
    pub open spec fn packed(self) -> u64 {
        (self.x as u64) | ((self.y as u64) << 11) | ((self.z as u64) << 22)
            | ((self.r_s as u64) << 38) | ((self.g_t as u64) << 46) | ((self.b as u64) << 54)
    }

    /// Pack the vertex into its two command words, low word first.
    pub fn pack(&self) -> (r: (u32, u32))
        requires
            self.wf(),
        ensures
            r.0 == self.packed() as u32,
            r.1 == (self.packed() >> 32) as u32,
    {
        let val: u64 = (self.x as u64) | ((self.y as u64) << 11) | ((self.z as u64) << 22)
            | ((self.r_s as u64) << 38) | ((self.g_t as u64) << 46) | ((self.b as u64) << 54);
        (val as u32, (val >> 32) as u32)
    }

    /// Decode a vertex from its two command words, low word first.
    pub fn unpack(w0: u32, w1: u32) -> (v: ScreenVertex)
        ensures
            v == unpacked((w0 as u64) | ((w1 as u64) << 32)),
            v.wf(),
    {
        let val: u64 = (w0 as u64) | ((w1 as u64) << 32);
        let v = ScreenVertex {
            x: (val & 0x7FF) as u16,
            y: ((val >> 11) & 0x7FF) as u16,
            z: ((val >> 22) & 0xFFFF) as u16,
            r_s: ((val >> 38) & 0xFF) as u8,
            g_t: ((val >> 46) & 0xFF) as u8,
            b: ((val >> 54) & 0xFF) as u8,
        };
        proof {
            let x = v.x;
            let y = v.y;
            assert(x < 2048 && y < 2048) by (bit_vector)
                requires
                    x == (val & 0x7FF) as u16 && y == ((val >> 11) & 0x7FF) as u16,
            ;
        }
        v
    }
}

/// Every field of a well-formed vertex survives the 64-bit packing.
proof fn lemma_field_round_trip(x: u16, y: u16, z: u16, a0: u8, a1: u8, a2: u8)
    by (bit_vector)
    requires
        x < 2048,
        y < 2048,
    ensures
        ({
            let val = (x as u64) | ((y as u64) << 11) | ((z as u64) << 22) | ((a0 as u64) << 38)
                | ((a1 as u64) << 46) | ((a2 as u64) << 54);
            (val & 0x7FF) as u16 == x && ((val >> 11) & 0x7FF) as u16 == y
                && ((val >> 22) & 0xFFFF) as u16 == z && ((val >> 38) & 0xFF) as u8 == a0
                && ((val >> 46) & 0xFF) as u8 == a1 && ((val >> 54) & 0xFF) as u8 == a2
        }),
{
}

/// Splitting a 64-bit value into two 32-bit words and rejoining them is exact.
proof fn lemma_split_words(val: u64)
    by (bit_vector)
    ensures
        ((val as u32) as u64) | (((val >> 32) as u32 as u64) << 32) == val,
{
}

/// Packing a well-formed vertex and unpacking the two words yields the
/// original fields bit-exactly.
pub proof fn lemma_pack_round_trip(v: ScreenVertex)
    requires
        v.wf(),
    ensures
        unpacked(((v.packed() as u32) as u64) | (((v.packed() >> 32) as u32 as u64) << 32)) == v,
        unpacked(v.packed()) == v,
{
    lemma_split_words(v.packed());
    lemma_field_round_trip(v.x, v.y, v.z, v.r_s, v.g_t, v.b);
}

} // verus!
