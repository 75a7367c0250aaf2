use vstd::arithmetic::div_mod::lemma_fundamental_div_mod_converse;
use vstd::arithmetic::mul::{lemma_mul_inequality, lemma_mul_is_distributive_add_other_way, lemma_mul_nonnegative};
use vstd::prelude::*;

verus! {

/// Why a pixel write was refused.
#[derive(Debug, Clone, Copy, PartialEq, Eq)]
pub enum PixelError {
    /// The coordinates lie outside the grid.
    OutOfBounds,
    /// The compositor holds the buffer for presentation.
    Locked,
}

/// Row stride and total size, in bytes, of the shared memory that holds a
/// grid of four-byte pixels. The display protocol takes both as `i32`.
#[derive(Debug, Clone, Copy, PartialEq, Eq)]
pub struct ShmLayout {
    pub stride: i32,
    pub size: usize,
}

/// Bytes per ARGB pixel.
pub const PIXEL_SIZE: usize = 4;

/// The shared-memory layout for a grid of the given size, if both the row
/// stride and the total size fit in an `i32`.
pub fn shm_layout(width: usize, height: usize) -> (r: Option<ShmLayout>)
    ensures
        r is Some <==> width * 4 <= i32::MAX && width * 4 * height <= i32::MAX,
        r matches Some(l) ==> l.stride == width * 4 && l.size == width * 4 * height,
{
    let stride = match width.checked_mul(PIXEL_SIZE) {
        Some(s) => s,
        None => return None,
    };
    if stride > 0x7fff_ffff {
        return None;
    }
    match stride.checked_mul(height) {
        Some(size) => if size <= 0x7fff_ffff {
            Some(ShmLayout { stride: stride as i32, size })
        } else {
            None
        },
        None => None,
    }
}

/// A width × height grid of ARGB words, stored row by row, with the flag
/// that says whether the compositor currently owns it.
pub struct PixelBuffer {
    width: usize,
    height: usize,
    pixels: Vec<u32>,
    locked: bool,
}

/// Byte `shift / 8` of a word, counted from the least significant end.
pub open spec fn channel(p: u32, shift: u32) -> u32 {
    (p >> shift) & 0xff
}

pub open spec fn max_channel(c: u32, v: u32) -> u32 {
    if c >= v {
        c
    } else {
        v
    }
}

/// The word with its alpha byte kept and each colour byte raised to at
/// least the coverage `v`.
pub open spec fn blend(p: u32, v: u8) -> u32 {
    (p & 0xff00_0000) | (max_channel(channel(p, 16), v as u32) << 16) | (max_channel(
        channel(p, 8),
        v as u32,
    ) << 8) | max_channel(channel(p, 0), v as u32)
}

pub open spec fn max_u8(a: u8, b: u8) -> u8 {
    if a >= b {
        a
    } else {
        b
    }
}

/// Raises each colour byte of `p` to at least `v`, keeping alpha.
pub fn blend_max(p: u32, v: u8) -> (r: u32)
    ensures
        r == blend(p, v),
{
    let vv = v as u32;
    let r = (p >> 16) & 0xff;
    let g = (p >> 8) & 0xff;
    let b = p & 0xff;
    let r2 = if r >= vv { r } else { vv };
    let g2 = if g >= vv { g } else { vv };
    let b2 = if b >= vv { b } else { vv };
    proof {
        assert(p & 0xff == (p >> 0) & 0xff) by (bit_vector);
    }
    (p & 0xff00_0000) | (r2 << 16) | (g2 << 8) | b2
}

/// Blending with no coverage leaves the word as it was.
pub proof fn lemma_blend_zero(p: u32)
    ensures
        blend(p, 0) == p,
{
    assert(((p & 0xff00_0000) | ((((p >> 16) & 0xff)) << 16) | ((((p >> 8) & 0xff)) << 8) | ((p
        >> 0) & 0xff)) == p) by (bit_vector);
}

/// Blending keeps the alpha byte and raises each colour byte to the coverage.
pub proof fn lemma_blend_channels(p: u32, v: u8)
    ensures
        blend(p, v) & 0xff00_0000 == p & 0xff00_0000,
        channel(blend(p, v), 16) == max_channel(channel(p, 16), v as u32),
        channel(blend(p, v), 8) == max_channel(channel(p, 8), v as u32),
        channel(blend(p, v), 0) == max_channel(channel(p, 0), v as u32),
{
    let q = blend(p, v);
    let v32 = v as u32;
    let (r, g, bl) = (channel(p, 16), channel(p, 8), channel(p, 0));
    let (r1, g1, b1) = (max_channel(r, v32), max_channel(g, v32), max_channel(bl, v32));
    assert(r1 < 256 && g1 < 256 && b1 < 256) by (bit_vector)
        requires
            r == (p >> 16) & 0xff,
            g == (p >> 8) & 0xff,
            bl == (p >> 0) & 0xff,
            v32 < 256,
            r1 == if r >= v32 { r } else { v32 },
            g1 == if g >= v32 { g } else { v32 },
            b1 == if bl >= v32 { bl } else { v32 },
    ;
    assert(channel(q, 16) == r1 && channel(q, 8) == g1 && channel(q, 0) == b1 && q & 0xff00_0000
        == p & 0xff00_0000) by (bit_vector)
        requires
            q == (p & 0xff00_0000) | (r1 << 16) | (g1 << 8) | b1,
            r1 < 256,
            g1 < 256,
            b1 < 256,
    ;
}

/// Blending twice is blending once with the larger coverage.
pub proof fn lemma_blend_twice(p: u32, a: u8, b: u8)
    ensures
        blend(blend(p, a), b) == blend(p, max_u8(a, b)),
{
    let m32 = max_u8(a, b) as u32;
    assert(m32 == if a as u32 >= b as u32 { a as u32 } else { b as u32 });
    lemma_blend_channels(p, a);
}

/// Distinct cells of a row-major grid have distinct indices.
pub proof fn lemma_cell_index(w: int, x: int, y: int, x2: int, y2: int)
    requires
        0 <= x < w,
        0 <= x2 < w,
        0 <= y,
        0 <= y2,
        x + y * w == x2 + y2 * w,
    ensures
        x == x2,
        y == y2,
{
    lemma_fundamental_div_mod_converse(x + y * w, w, y, x);
    lemma_fundamental_div_mod_converse(x2 + y2 * w, w, y2, x2);
}

/// A cell of a row-major grid lies inside its storage.
pub proof fn lemma_cell_in_grid(w: int, h: int, x: int, y: int)
    requires
        0 <= x < w,
        0 <= y < h,
    ensures
        0 <= x + y * w < w * h,
{
    lemma_mul_nonnegative(y, w);
    lemma_mul_inequality(y + 1, h, w);
    lemma_mul_is_distributive_add_other_way(w, y, 1);
}

impl PixelBuffer {
    pub closed spec fn width_spec(&self) -> nat {
        self.width as nat
    }

    pub closed spec fn height_spec(&self) -> nat {
        self.height as nat
    }

    pub closed spec fn is_locked_spec(&self) -> bool {
        self.locked
    }

    /// The words, row after row.
    pub closed spec fn cells(&self) -> Seq<u32> {
        self.pixels@
    }

    pub open spec fn wf(&self) -> bool {
        &&& self.cells().len() == self.width_spec() * self.height_spec()
        &&& self.width_spec() * self.height_spec() <= usize::MAX
    }

    pub open spec fn in_bounds(&self, x: int, y: int) -> bool {
        0 <= x < self.width_spec() && 0 <= y < self.height_spec()
    }

    pub open spec fn pixel(&self, x: int, y: int) -> u32 {
        self.cells()[x + y * self.width_spec()]
    }

    /// A grid of the given size, all zero (fully transparent), not locked.
    pub fn new(width: usize, height: usize) -> (r: PixelBuffer)
        requires
            width * height <= usize::MAX,
        ensures
            r.wf(),
            r.width_spec() == width,
            r.height_spec() == height,
            !r.is_locked_spec(),
            forall|x: int, y: int| r.in_bounds(x, y) ==> r.pixel(x, y) == 0,
    {
        let n = width * height;
        let mut pixels: Vec<u32> = Vec::new();
        let mut i: usize = 0;
        while i < n
            invariant
                i <= n,
                pixels@.len() == i,
                forall|j: int| 0 <= j < i ==> pixels@[j] == 0,
            decreases n - i,
        {
            pixels.push(0);
            i = i + 1;
        }
        let r = PixelBuffer { width, height, pixels, locked: false };
        proof {
            assert forall|x: int, y: int| r.in_bounds(x, y) implies r.pixel(x, y) == 0 by {
                lemma_cell_in_grid(width as int, height as int, x, y);
            }
        }
        r
    }

    pub fn width(&self) -> (r: usize)
        ensures
            r == self.width_spec(),
    {
        self.width
    }

    pub fn height(&self) -> (r: usize)
        ensures
            r == self.height_spec(),
    {
        self.height
    }

    pub fn is_locked(&self) -> (r: bool)
        ensures
            r == self.is_locked_spec(),
    {
        self.locked
    }

    /// The words, row after row, for copying into presentation memory.
    pub fn pixels(&self) -> (r: &Vec<u32>)
        ensures
            r@ == self.cells(),
    {
        &self.pixels
    }

    /// The word at column `x`, row `y`; nothing outside the grid.
    pub fn get(&self, x: usize, y: usize) -> (r: Option<u32>)
        requires
            self.wf(),
        ensures
            r is Some <==> self.in_bounds(x as int, y as int),
            r matches Some(v) ==> v == self.pixel(x as int, y as int),
    {
        if x >= self.width || y >= self.height {
            return None;
        }
        proof {
            lemma_cell_in_grid(self.width as int, self.height as int, x as int, y as int);
        }
        Some(self.pixels[x + y * self.width])
    }

    /// Writes the word at column `x`, row `y`. Refused outside the grid and
    /// while the compositor holds the buffer; then nothing changes.
    pub fn set(&mut self, x: usize, y: usize, v: u32) -> (r: Result<(), PixelError>)
        requires
            old(self).wf(),
        ensures
            final(self).wf(),
            final(self).width_spec() == old(self).width_spec(),
            final(self).height_spec() == old(self).height_spec(),
            final(self).is_locked_spec() == old(self).is_locked_spec(),
            !old(self).in_bounds(x as int, y as int) ==> r == Err::<(), PixelError>(
                PixelError::OutOfBounds,
            ),
            old(self).in_bounds(x as int, y as int) && old(self).is_locked_spec() ==> r == Err::<
                (),
                PixelError,
            >(PixelError::Locked),
            r is Err ==> final(self).cells() == old(self).cells(),
            r is Ok <==> old(self).in_bounds(x as int, y as int) && !old(self).is_locked_spec(),
            r is Ok ==> forall|a: int, b: int|
                #![trigger final(self).pixel(a, b)]
                old(self).in_bounds(a, b) ==> final(self).pixel(a, b) == if a == x && b == y {
                    v
                } else {
                    old(self).pixel(a, b)
                },
    {
        if x >= self.width || y >= self.height {
            return Err(PixelError::OutOfBounds);
        }
        if self.locked {
            return Err(PixelError::Locked);
        }
        proof {
            lemma_cell_in_grid(self.width as int, self.height as int, x as int, y as int);
        }
        let ghost before = *self;
        self.pixels.set(x + y * self.width, v);
        proof {
            assert forall|a: int, b: int| before.in_bounds(a, b) implies #[trigger] self.pixel(a, b)
                == if a == x && b == y {
                v
            } else {
                before.pixel(a, b)
            } by {
                lemma_cell_in_grid(self.width as int, self.height as int, a, b);
                if a + b * self.width == x + y * self.width {
                    lemma_cell_index(self.width as int, a, b, x as int, y as int);
                }
            }
        }
        Ok(())
    }

    /// The compositor takes the buffer for presentation.
    pub fn lock(&mut self)
        ensures
            final(self).is_locked_spec(),
            final(self).cells() == old(self).cells(),
            final(self).width_spec() == old(self).width_spec(),
            final(self).height_spec() == old(self).height_spec(),
    {
        self.locked = true;
    }

    /// The compositor has released the buffer.
    pub fn unlock(&mut self)
        ensures
            !final(self).is_locked_spec(),
            final(self).cells() == old(self).cells(),
            final(self).width_spec() == old(self).width_spec(),
            final(self).height_spec() == old(self).height_spec(),
    {
        self.locked = false;
    }
}

} // verus!
