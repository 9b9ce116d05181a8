//! The cosmetic damage field and its crack stencils.
//!
//! A dense byte buffer matching the world's pixel dimensions, four
//! channels per pixel, overlaid above the ice purely for the crack
//! visuals. It is mutated only by stamping a sparse stencil of
//! channel increments, centered at an agent's pixel position, clipped to
//! the buffer and added with per-channel saturation. Gameplay never reads
//! it.

use vstd::prelude::*;

verus! {

use crate::motion::Pos;
use crate::motion::pos_in_bounds;
use crate::rng::entropy_draw;

/// Buffer width in pixels (the world width).
pub const FIELD_WIDTH_PX: usize = 800;

/// Buffer height in pixels (the world height).
pub const FIELD_HEIGHT_PX: usize = 600;

/// Bytes per pixel.
pub const CHANNELS: usize = 4;

/// Total bytes in the buffer.
pub const FIELD_BYTES: usize = 800 * 600 * 4;

/// Side of a square crack stencil, in pixels.
pub const STENCIL_SIDE: usize = 32;

/// Half a stencil side: stencils are centered on the stamp position.
pub const STENCIL_HALF: usize = 16;

/// One sparse stencil entry: a channel increment at a pixel offset.
/// `row` offsets the x axis and `column` the y axis.
#[derive(Clone, Copy, Debug, PartialEq, Eq, Structural)]
pub struct PixelData {
    pub row: usize,
    pub column: usize,
    pub offset: usize,
    pub data: u8,
}

/// Every entry of a stencil stays within the stencil square and its
/// channel count.
pub open spec fn stencil_wf(s: Seq<PixelData>) -> bool {
    forall|i: int|
        0 <= i < s.len() ==> {
            &&& (#[trigger] s[i]).row < STENCIL_SIDE
            &&& s[i].column < STENCIL_SIDE
            &&& s[i].offset < CHANNELS
        }
}

/// Byte-wise saturating addition.
pub open spec fn sat_add(a: u8, v: u8) -> u8 {
    if a + v > 255 {
        255
    } else {
        (a + v) as u8
    }
}

/// Law: channel accumulation saturates instead of wrapping: adding `v`
/// twice lands on `a + 2 v` capped at the channel maximum, and a channel
/// never decreases under stamping.
pub proof fn lemma_sat_add_twice(a: u8, v: u8)
    ensures
        sat_add(sat_add(a, v), v) == if a + 2 * v > 255 {
            255u8
        } else {
            (a + 2 * v) as u8
        },
        sat_add(a, v) >= a,
        sat_add(a, v) <= 255,
{
}

/// Where one stencil entry lands in the buffer when stamped centered at
/// pixel `(cx, cy)`: the flat byte index, or nothing when the entry is
/// clipped away at the border.
pub open spec fn stamp_index(cx: int, cy: int, px: PixelData) -> int {
    let ix = cx + px.row - STENCIL_HALF;
    let iy = cy + px.column - STENCIL_HALF;
    if 0 <= ix < FIELD_WIDTH_PX && 0 <= iy < FIELD_HEIGHT_PX {
        (iy * FIELD_WIDTH_PX + ix) * CHANNELS + px.offset
    } else {
        -1
    }
}

/// The buffer after stamping a stencil centered at `(cx, cy)`: each entry
/// in turn adds its increment, saturating, at its clipped target.
pub open spec fn stamped(f: Seq<u8>, s: Seq<PixelData>, cx: int, cy: int) -> Seq<u8>
    decreases s.len(),
{
    if s.len() == 0 {
        f
    } else {
        let g = stamped(f, s.drop_last(), cx, cy);
        let idx = stamp_index(cx, cy, s.last());
        if 0 <= idx < g.len() {
            g.update(idx, sat_add(g[idx], s.last().data))
        } else {
            g
        }
    }
}

/// Stamping never changes the buffer length.
pub proof fn lemma_stamped_len(f: Seq<u8>, s: Seq<PixelData>, cx: int, cy: int)
    ensures
        stamped(f, s, cx, cy).len() == f.len(),
    decreases s.len(),
{
    if s.len() > 0 {
        lemma_stamped_len(f, s.drop_last(), cx, cy);
    }
}

/// Law: stamping only ever darkens: no byte of the buffer decreases, and
/// none can exceed the channel maximum.
pub proof fn lemma_stamped_monotone(f: Seq<u8>, s: Seq<PixelData>, cx: int, cy: int)
    ensures
        forall|k: int|
            0 <= k < f.len() ==> #[trigger] stamped(f, s, cx, cy)[k] >= f[k],
    decreases s.len(),
{
    lemma_stamped_len(f, s, cx, cy);
    if s.len() > 0 {
        lemma_stamped_len(f, s.drop_last(), cx, cy);
        lemma_stamped_monotone(f, s.drop_last(), cx, cy);
    }
}

/// The damage buffer.
pub struct DamageField {
    data: Vec<u8>,
}

impl View for DamageField {
    type V = Seq<u8>;

    closed spec fn view(&self) -> Seq<u8> {
        self.data@
    }
}

impl DamageField {
    /// The buffer always keeps its full size.
    pub open spec fn wf(&self) -> bool {
        self@.len() == FIELD_BYTES
    }

    /// A pristine, fully transparent buffer.
    pub fn new() -> (f: DamageField)
        ensures
            f.wf(),
            forall|k: int| 0 <= k < FIELD_BYTES ==> f@[k] == 0u8,
    {
        let mut data: Vec<u8> = Vec::new();
        let mut i: usize = 0;
        while i < FIELD_BYTES
            invariant
                i <= FIELD_BYTES,
                data@.len() == i,
                forall|k: int| 0 <= k < i ==> data@[k] == 0u8,
            decreases FIELD_BYTES - i,
        {
            data.push(0);
            i = i + 1;
        }
        DamageField { data }
    }

    /// The whole buffer, for the renderer's texture upload.
    pub fn bytes(&self) -> (r: &Vec<u8>)
        ensures
            r@ == self@,
    {
        &self.data
    }

    /// Reads one byte, for the renderer.
    pub fn byte_at(&self, k: usize) -> (b: u8)
        requires
            self.wf(),
            k < FIELD_BYTES,
        ensures
            b == self@[k as int],
    {
        self.data[k]
    }

    /// Stamps one stencil centered at pixel `(cx, cy)`, clipped to the
    /// buffer, adding each entry's increment with per-channel saturation.
    pub fn stamp(&mut self, stencil: &Vec<PixelData>, cx: usize, cy: usize)
        requires
            old(self).wf(),
            stencil_wf(stencil@),
            cx < FIELD_WIDTH_PX,
            cy < FIELD_HEIGHT_PX,
        ensures
            final(self).wf(),
            final(self)@ == stamped(old(self)@, stencil@, cx as int, cy as int),
    {
        let n = stencil.len();
        let mut i: usize = 0;
        while i < n
            invariant
                n == stencil@.len(),
                i <= n,
                stencil_wf(stencil@),
                cx < FIELD_WIDTH_PX,
                cy < FIELD_HEIGHT_PX,
                self.data@.len() == FIELD_BYTES,
                self.data@ == stamped(old(self)@, stencil@.take(i as int), cx as int, cy as int),
            decreases n - i,
        {
            let px = stencil[i];
            proof {
                assert(stencil@.take(i + 1).drop_last() =~= stencil@.take(i as int));
                assert(stencil@.take(i + 1).last() == stencil@[i as int]);
            }
            let ix_raw: i64 = cx as i64 + px.row as i64 - STENCIL_HALF as i64;
            let iy_raw: i64 = cy as i64 + px.column as i64 - STENCIL_HALF as i64;
            if ix_raw >= 0 && ix_raw < FIELD_WIDTH_PX as i64 && iy_raw >= 0
                && iy_raw < FIELD_HEIGHT_PX as i64 {
                let ix = ix_raw as usize;
                let iy = iy_raw as usize;
                let k = (iy * FIELD_WIDTH_PX + ix) * CHANNELS + px.offset;
                let b = self.data[k];
                self.data.set(k, b.saturating_add(px.data));
            }
            i = i + 1;
        }
        proof {
            assert(stencil@.take(n as int) =~= stencil@);
        }
    }
}

/// The buffer pixel an agent position maps to: x from the left edge, y
/// from the top edge (the buffer's rows run downward while world y runs
/// upward).
pub open spec fn pixel_center(p: Pos) -> (int, int) {
    ((p.x + 400_000) / 1000, (300_000 - p.y) / 1000)
}

/// Maps a clamped world position to its buffer pixel.
pub fn pixel_center_of(p: Pos) -> (c: (usize, usize))
    requires
        pos_in_bounds(p),
    ensures
        c.0 == pixel_center(p).0,
        c.1 == pixel_center(p).1,
        c.0 < FIELD_WIDTH_PX,
        c.1 < FIELD_HEIGHT_PX,
{
    let cx = ((p.x + 400_000) / 1000) as usize;
    let cy = ((300_000 - p.y) / 1000) as usize;
    (cx, cy)
}

/// The crack stencils extracted from the two decal images, kept as sparse
/// pixel increments.
pub struct CracksData {
    pub cracks_0: Vec<PixelData>,
    pub cracks_1: Vec<PixelData>,
}

impl CracksData {
    /// The stencil a weight draw picks: the first on the upper half of the
    /// draw space, the second on the lower.
    pub fn chosen(&self, draw: u32) -> (r: &Vec<PixelData>)
        ensures
            *r == if draw >= 0x8000_0000u32 {
                self.cracks_0
            } else {
                self.cracks_1
            },
    {
        if draw >= 0x8000_0000 {
            &self.cracks_0
        } else {
            &self.cracks_1
        }
    }

    /// Picks one of the two stencils at random from process entropy.
    pub fn random(&self) -> (r: &Vec<PixelData>)
        ensures
            *r == self.cracks_0 || *r == self.cracks_1,
    {
        let draw = entropy_draw();
        self.chosen(draw)
    }
}

/// One entry of the sparse form of a row-major image, at flat byte index
/// `i`.
pub open spec fn pixel_entry(i: int, columns: int, data_per_pixel: int, value: u8) -> PixelData {
    PixelData {
        row: (i / (columns * data_per_pixel)) as usize,
        column: (i / data_per_pixel % columns) as usize,
        offset: (i % data_per_pixel) as usize,
        data: value,
    }
}

/// The sparse form of the first `n` bytes of a row-major image: every
/// strictly positive byte becomes one entry, in index order.
pub open spec fn filtered_pixels(data: Seq<u8>, n: int, columns: int, data_per_pixel: int)
    -> Seq<PixelData>
    decreases n,
{
    if n <= 0 {
        Seq::empty()
    } else {
        let rest = filtered_pixels(data, n - 1, columns, data_per_pixel);
        if data[n - 1] > 0 {
            rest.push(pixel_entry(n - 1, columns, data_per_pixel, data[n - 1]))
        } else {
            rest
        }
    }
}

/// Reduces a dense row-major image to the sparse entries with a strictly
/// positive byte, in row, column, channel order.
pub fn filter_image_data(data: &Vec<u8>, rows: usize, columns: usize, data_per_pixel: usize)
    -> (r: Vec<PixelData>)
    requires
        0 < columns <= 4096,
        0 < data_per_pixel <= 16,
        rows <= 4096,
        data@.len() == rows * columns * data_per_pixel,
    ensures
        r@ == filtered_pixels(data@, data@.len() as int, columns as int, data_per_pixel as int),
        forall|j: int|
            0 <= j < r@.len() ==> {
                &&& (#[trigger] r@[j]).row < rows
                &&& r@[j].column < columns
                &&& r@[j].offset < data_per_pixel
            },
{
    let n = data.len();
    proof {
        assert(columns * data_per_pixel <= 4096 * 16) by (nonlinear_arith)
            requires
                0 < columns <= 4096,
                0 < data_per_pixel <= 16,
        ;
        assert(columns * data_per_pixel > 0) by (nonlinear_arith)
            requires
                columns > 0,
                data_per_pixel > 0,
        ;
        assert(rows * columns * data_per_pixel == rows * (columns * data_per_pixel))
            by (nonlinear_arith);
    }
    let stride = columns * data_per_pixel;
    let mut r: Vec<PixelData> = Vec::new();
    let mut i: usize = 0;
    while i < n
        invariant
            n == data@.len(),
            i <= n,
            0 < columns <= 4096,
            0 < data_per_pixel <= 16,
            rows <= 4096,
            stride == columns * data_per_pixel,
            n == rows * stride,
            r@ == filtered_pixels(data@, i as int, columns as int, data_per_pixel as int),
            forall|j: int|
                0 <= j < r@.len() ==> {
                    &&& (#[trigger] r@[j]).row < rows
                    &&& r@[j].column < columns
                    &&& r@[j].offset < data_per_pixel
                },
        decreases n - i,
    {
        let value = data[i];
        if value > 0 {
            let row = i / stride;
            let column = i / data_per_pixel % columns;
            let offset = i % data_per_pixel;
            proof {
                vstd::arithmetic::div_mod::lemma_multiply_divide_lt(
                    i as int,
                    stride as int,
                    rows as int,
                );
                vstd::arithmetic::div_mod::lemma_mod_division_less_than_divisor(
                    i as int / data_per_pixel as int,
                    columns as int,
                );
                vstd::arithmetic::div_mod::lemma_mod_division_less_than_divisor(
                    i as int,
                    data_per_pixel as int,
                );
            }
            r.push(PixelData { row, column, offset, data: value });
        }
        i = i + 1;
    }
    r
}

} // verus!
