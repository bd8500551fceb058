//! The framebuffer accessor: converts logical RGB pixel writes into the
//! hardware pixel encoding, over a back/front pair of buffers.  The back
//! buffer is ordinary writable memory; `flush` copies it over the front
//! buffer in one pass.  Rendering above this raw accessor — fonts,
//! layout — is someone else's business.

use vstd::prelude::*;

verus! {

/// Rescales a 0–255 channel value into a `bits`-wide hardware channel,
/// rounding, so that 0 maps to 0 and 255 maps to the channel's maximum.
pub open spec fn scale_channel(v: u8, bits: u8) -> int {
    (v * ((1u32 << bits) - 1) + 127) / 255
}

/// The bit mask of a `bits`-wide channel.
pub open spec fn channel_mask(bits: u8) -> u32 {
    ((1u32 << bits) - 1) as u32
}

/// Scaling maps 0 to 0 at every bit depth.
pub proof fn lemma_scale_zero(bits: u8)
    requires
        1 <= bits <= 8,
    ensures
        scale_channel(0, bits) == 0,
{
}

/// Scaling maps 255 to the maximum representable channel value at every
/// bit depth from 1 to 8.
pub proof fn lemma_scale_full(bits: u8)
    requires
        1 <= bits <= 8,
    ensures
        scale_channel(255, bits) == channel_mask(bits),
{
    assert((1u32 << 1) == 2 && (1u32 << 2) == 4 && (1u32 << 3) == 8 && (1u32 << 4) == 16 && (1u32
        << 5) == 32 && (1u32 << 6) == 64 && (1u32 << 7) == 128 && (1u32 << 8) == 256)
        by (bit_vector);
    if bits == 1 {
        assert(scale_channel(255, 1) == 1);
    } else if bits == 2 {
        assert(scale_channel(255, 2) == 3);
    } else if bits == 3 {
        assert(scale_channel(255, 3) == 7);
    } else if bits == 4 {
        assert(scale_channel(255, 4) == 15);
    } else if bits == 5 {
        assert(scale_channel(255, 5) == 31);
    } else if bits == 6 {
        assert(scale_channel(255, 6) == 63);
    } else if bits == 7 {
        assert(scale_channel(255, 7) == 127);
    } else {
        assert(scale_channel(255, 8) == 255);
    }
}

/// Scaling is monotonic: a brighter input never yields a darker output.
pub proof fn lemma_scale_monotonic(v1: u8, v2: u8, bits: u8)
    requires
        1 <= bits <= 8,
        v1 <= v2,
    ensures
        scale_channel(v1, bits) <= scale_channel(v2, bits),
{
    let m = (1u32 << bits) - 1;
    assert((1u32 << bits) >= 1) by (bit_vector)
        requires
            bits <= 8,
    ;
    assert(v1 * m <= v2 * m) by (nonlinear_arith)
        requires
            0 <= m,
            v1 <= v2,
    {
    }
    vstd::arithmetic::div_mod::lemma_div_is_ordered(v1 * m + 127, v2 * m + 127, 255);
}

/// The four little-endian bytes of a packed pixel value.
pub open spec fn pixel_bytes(p: u32) -> Seq<u8> {
    seq![
        (p & 0xff) as u8,
        ((p >> 8) & 0xff) as u8,
        ((p >> 16) & 0xff) as u8,
        ((p >> 24) & 0xff) as u8,
    ]
}

/// The raw framebuffer accessor.  `back` models the CPU-writable back
/// buffer and `front` the hardware-visible front buffer; geometry and
/// per-channel encoding come from the boot protocol's framebuffer
/// description.
pub struct Framebuffer {
    pub back: Vec<u8>,
    pub front: Vec<u8>,
    pub width: u64,
    pub height: u64,
    pub pitch: u64,
    pub bpp: u16,
    pub red_mask_size: u8,
    pub red_mask_shift: u8,
    pub green_mask_size: u8,
    pub green_mask_shift: u8,
    pub blue_mask_size: u8,
    pub blue_mask_shift: u8,
    pub length: u64,
}

impl Framebuffer {
    /// Geometry and encoding constraints under which every pixel write
    /// stays in bounds: 32 bits per pixel, rows of `pitch` bytes holding
    /// at least `width` pixels, buffers covering exactly `height` rows,
    /// and each channel's bit field inside the 32-bit pixel.
    pub open spec fn wf(self) -> bool {
        &&& self.bpp == 32
        &&& self.length == self.pitch * self.height
        &&& self.back@.len() == self.length
        &&& self.front@.len() == self.length
        &&& self.width * 4 <= self.pitch
        &&& 1 <= self.red_mask_size <= 8
        &&& 1 <= self.green_mask_size <= 8
        &&& 1 <= self.blue_mask_size <= 8
        &&& self.red_mask_shift + self.red_mask_size <= 32
        &&& self.green_mask_shift + self.green_mask_size <= 32
        &&& self.blue_mask_shift + self.blue_mask_size <= 32
    }

    /// Everything but the buffer contents.
    pub open spec fn same_geometry(self, other: Framebuffer) -> bool {
        &&& self.width == other.width
        &&& self.height == other.height
        &&& self.pitch == other.pitch
        &&& self.bpp == other.bpp
        &&& self.red_mask_size == other.red_mask_size
        &&& self.red_mask_shift == other.red_mask_shift
        &&& self.green_mask_size == other.green_mask_size
        &&& self.green_mask_shift == other.green_mask_shift
        &&& self.blue_mask_size == other.blue_mask_size
        &&& self.blue_mask_shift == other.blue_mask_shift
        &&& self.length == other.length
    }

    /// Byte offset of pixel `(x, y)` in either buffer.
    pub open spec fn pixel_offset(self, x: int, y: int) -> int {
        y * self.pitch + x * 4
    }

    /// The packed hardware value of the colour `(r, g, b)` under this
    /// framebuffer's per-channel encoding: each channel rescaled to its
    /// bit depth, masked, and shifted into its field.
    pub open spec fn pixel_value(self, r: u8, g: u8, b: u8) -> u32 {
        (((scale_channel(r, self.red_mask_size) as u32) & channel_mask(self.red_mask_size))
            << self.red_mask_shift) | (((scale_channel(g, self.green_mask_size) as u32)
            & channel_mask(self.green_mask_size)) << self.green_mask_shift) | (((scale_channel(
            b,
            self.blue_mask_size,
        ) as u32) & channel_mask(self.blue_mask_size)) << self.blue_mask_shift)
    }
}

impl Framebuffer {
    /// The geometry checks under which [`Framebuffer::new`] accepts a
    /// description.
    pub open spec fn geometry_ok(
        width: u64,
        height: u64,
        pitch: u64,
        bpp: u16,
        red: (u8, u8),
        green: (u8, u8),
        blue: (u8, u8),
    ) -> bool {
        &&& bpp == 32
        &&& pitch * height <= usize::MAX
        &&& width * 4 <= pitch
        &&& 1 <= red.0 <= 8
        &&& 1 <= green.0 <= 8
        &&& 1 <= blue.0 <= 8
        &&& red.1 + red.0 <= 32
        &&& green.1 + green.0 <= 32
        &&& blue.1 + blue.0 <= 32
    }

    /// Builds an accessor from the boot protocol's framebuffer
    /// description, with both buffers zeroed.  Each channel is given as
    /// `(mask size, mask shift)`.  Returns `None` exactly when the
    /// description violates [`Framebuffer::geometry_ok`] — the bounds
    /// under which every later pixel write stays inside the buffers.
    pub fn new(
        width: u64,
        height: u64,
        pitch: u64,
        bpp: u16,
        red: (u8, u8),
        green: (u8, u8),
        blue: (u8, u8),
    ) -> (r: Option<Framebuffer>)
        ensures
            r is Some <==> Self::geometry_ok(width, height, pitch, bpp, red, green, blue),
            match r {
                Some(fb) => {
                    &&& fb.wf()
                    &&& fb.width == width
                    &&& fb.height == height
                    &&& fb.pitch == pitch
                    &&& fb.bpp == bpp
                    &&& fb.red_mask_size == red.0 && fb.red_mask_shift == red.1
                    &&& fb.green_mask_size == green.0 && fb.green_mask_shift == green.1
                    &&& fb.blue_mask_size == blue.0 && fb.blue_mask_shift == blue.1
                    &&& fb.length == pitch * height
                    &&& forall|k: int| 0 <= k < fb.back@.len() ==> fb.back@[k] == 0u8
                    &&& forall|k: int| 0 <= k < fb.front@.len() ==> fb.front@[k] == 0u8
                },
                None => true,
            },
    {
        if bpp != 32 {
            return None;
        }
        let length = match pitch.checked_mul(height) {
            Some(l) => l,
            None => {
                proof {
                    assert(pitch * height > u64::MAX >= usize::MAX);
                }
                return None;
            },
        };
        if length > usize::MAX as u64 {
            return None;
        }
        let w4 = match width.checked_mul(4) {
            Some(w) => w,
            None => {
                return None;
            },
        };
        if w4 > pitch {
            return None;
        }
        if !(1 <= red.0 && red.0 <= 8 && 1 <= green.0 && green.0 <= 8 && 1 <= blue.0 && blue.0
            <= 8) {
            return None;
        }
        if !(red.1 as u32 + red.0 as u32 <= 32 && green.1 as u32 + green.0 as u32 <= 32 && blue.1
            as u32 + blue.0 as u32 <= 32) {
            return None;
        }
        let back = zeroed_buffer(length as usize);
        let front = zeroed_buffer(length as usize);
        Some(
            Framebuffer {
                back,
                front,
                width,
                height,
                pitch,
                bpp,
                red_mask_size: red.0,
                red_mask_shift: red.1,
                green_mask_size: green.0,
                green_mask_shift: green.1,
                blue_mask_size: blue.0,
                blue_mask_shift: blue.1,
                length,
            },
        )
    }

    /// Writes one logical RGB pixel into the back buffer: channels are
    /// rescaled to the hardware bit depths, packed per the reported
    /// shifts, and stored little-endian at the pixel's offset.
    /// Coordinates outside `[0, width) x [0, height)` are rejected and
    /// nothing at all is written.
    pub fn write_pixel(&mut self, x: u64, y: u64, r: u8, g: u8, b: u8)
        requires
            old(self).wf(),
        ensures
            final(self).wf(),
            final(self).same_geometry(*old(self)),
            final(self).front@ == old(self).front@,
            x < old(self).width && y < old(self).height ==> {
                let off = old(self).pixel_offset(x as int, y as int);
                let pb = pixel_bytes(old(self).pixel_value(r, g, b));
                final(self).back@ == old(self).back@.update(off, pb[0]).update(
                    off + 1,
                    pb[1],
                ).update(off + 2, pb[2]).update(off + 3, pb[3])
            },
            !(x < old(self).width && y < old(self).height) ==> final(self).back@ == old(
                self,
            ).back@,
    {
        if x >= self.width || y >= self.height {
            return ;
        }
        proof {
            assert(y * self.pitch + x * 4 + 4 <= self.length) by (nonlinear_arith)
                requires
                    y < self.height,
                    x < self.width,
                    self.width * 4 <= self.pitch,
                    self.length == self.pitch * self.height,
            {
            }
        }
        let ghost rs = self.red_mask_size;
        let ghost gs = self.green_mask_size;
        let ghost bs = self.blue_mask_size;
        proof {
            assert(1u32 << rs >= 1 && 1u32 << rs <= 256) by (bit_vector)
                requires
                    rs <= 8u8,
            ;
            assert(1u32 << gs >= 1 && 1u32 << gs <= 256) by (bit_vector)
                requires
                    gs <= 8u8,
            ;
            assert(1u32 << bs >= 1 && 1u32 << bs <= 256) by (bit_vector)
                requires
                    bs <= 8u8,
            ;
        }
        let mask_r = (1u32 << self.red_mask_size) - 1;
        let mask_g = (1u32 << self.green_mask_size) - 1;
        let mask_b = (1u32 << self.blue_mask_size) - 1;
        proof {
            assert(r * mask_r <= 255 * 255) by (nonlinear_arith)
                requires
                    r <= 255,
                    mask_r <= 255u32,
            {
            }
            assert(g * mask_g <= 255 * 255) by (nonlinear_arith)
                requires
                    g <= 255,
                    mask_g <= 255u32,
            {
            }
            assert(b * mask_b <= 255 * 255) by (nonlinear_arith)
                requires
                    b <= 255,
                    mask_b <= 255u32,
            {
            }
        }
        let sr = ((r as u32) * mask_r + 127) / 255;
        let sg = ((g as u32) * mask_g + 127) / 255;
        let sb = ((b as u32) * mask_b + 127) / 255;
        let pixel = ((sr & mask_r) << self.red_mask_shift) | ((sg & mask_g)
            << self.green_mask_shift) | ((sb & mask_b) << self.blue_mask_shift);
        let off64 = y * self.pitch + x * 4;
        let blen = self.back.len();
        proof {
            assert(off64 + 4 <= blen);
        }
        let off = off64 as usize;
        self.back[off] = (pixel & 0xff) as u8;
        self.back[off + 1] = ((pixel >> 8) & 0xff) as u8;
        self.back[off + 2] = ((pixel >> 16) & 0xff) as u8;
        self.back[off + 3] = ((pixel >> 24) & 0xff) as u8;
    }

    /// Copies the whole back buffer over the front buffer in one pass.
    pub fn flush(&mut self)
        requires
            old(self).wf(),
        ensures
            final(self).wf(),
            final(self).same_geometry(*old(self)),
            final(self).back@ == old(self).back@,
            final(self).front@ == old(self).back@,
    {
        let n = self.back.len();
        let mut i: usize = 0;
        while i < n
            invariant
                self.wf(),
                self.same_geometry(*old(self)),
                self.back@ == old(self).back@,
                n == self.back@.len(),
                n == self.front@.len(),
                i <= n,
                forall|k: int| 0 <= k < i ==> self.front@[k] == self.back@[k],
            decreases n - i,
        {
            let v = self.back[i];
            self.front[i] = v;
            i = i + 1;
        }
        proof {
            assert(self.front@ =~= self.back@);
        }
    }
}

/// A buffer of `n` zero bytes.
fn zeroed_buffer(n: usize) -> (v: Vec<u8>)
    ensures
        v@.len() == n,
        forall|k: int| 0 <= k < n ==> v@[k] == 0u8,
{
    let mut v: Vec<u8> = Vec::new();
    let mut i: usize = 0;
    while i < n
        invariant
            i <= n,
            v@.len() == i,
            forall|k: int| 0 <= k < i ==> v@[k] == 0u8,
        decreases n - i,
    {
        v.push(0);
        i = i + 1;
    }
    v
}

/// Recomputes a direct-map address after the higher-half offset changes:
/// the same physical location, seen through the new window.
pub fn rebase_hhdm(addr: u64, old_offset: u64, new_offset: u64) -> (r: u64)
    requires
        addr >= old_offset,
        addr - old_offset + new_offset <= u64::MAX,
    ensures
        r == addr - old_offset + new_offset,
{
    addr - old_offset + new_offset
}

} // verus!
