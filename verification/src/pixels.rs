//! Square pixel buffers in cairo's native BGRA-premultiplied layout.
//!
//! Row `y` of a buffer starts at byte `y * stride`; pixel `x` of a row
//! takes the four bytes blue, green, red, alpha starting at `4 * x`.
//! `data.len() == stride * height`; the stride may exceed `4 * width`
//! when rows are padded.

use vstd::prelude::*;

verus! {

/// A pixel buffer, BGRA premultiplied.
#[derive(Debug, Clone)]
pub struct PixelBuffer {
    /// Width in pixels.
    pub width: u32,
    /// Height in pixels.
    pub height: u32,
    /// Row stride in bytes.
    pub stride: usize,
    /// BGRA premultiplied bytes.
    pub data: Vec<u8>,
}

impl PartialEq for PixelBuffer {
    fn eq(&self, other: &Self) -> (r: bool) {
        if self.width != other.width || self.height != other.height || self.stride != other.stride
            || self.data.len() != other.data.len() {
            return false;
        }
        for i in 0..self.data.len()
            invariant
                self.data@.len() == other.data@.len(),
                forall|j: int| 0 <= j < i ==> self.data@[j] == other.data@[j],
        {
            if self.data[i] != other.data[i] {
                return false;
            }
        }
        proof {
            assert(self.data@ =~= other.data@);
        }
        true
    }
}

impl vstd::std_specs::cmp::PartialEqSpecImpl for PixelBuffer {
    open spec fn obeys_eq_spec() -> bool {
        true
    }

    open spec fn eq_spec(&self, other: &Self) -> bool {
        &&& self.width == other.width
        &&& self.height == other.height
        &&& self.stride == other.stride
        &&& self.data@ == other.data@
    }
}

impl Eq for PixelBuffer {}

/// Channel `c` premultiplied by alpha `a`: `c * a / 255`, rounded down.
pub open spec fn premul(c: u8, a: u8) -> u8 {
    ((c as int) * (a as int) / 255) as u8
}

/// `c * a / 255`, which never exceeds 255.
fn premultiply(c: u8, a: u8) -> (r: u8)
    ensures
        r == premul(c, a),
{
    assert((c as int) * (a as int) <= 255 * 255) by (nonlinear_arith)
        requires
            c <= 255,
            a <= 255,
    ;
    let p = (c as u32) * (a as u32);
    (p / 255) as u8
}

/// The byte at position `c` of a pixel whose four bytes are `px`.
pub open spec fn pixel_byte(px: (u8, u8, u8, u8), c: int) -> u8 {
    if c == 0 {
        px.0
    } else if c == 1 {
        px.1
    } else if c == 2 {
        px.2
    } else {
        px.3
    }
}

impl PixelBuffer {
    /// A `width` by `height` buffer of one color given as straight RGBA,
    /// stored premultiplied: every pixel holds `b*a/255, g*a/255,
    /// r*a/255, a`, and rows are not padded.
    pub fn solid(width: u32, height: u32, rgba: [u8; 4]) -> (r: Self)
        requires
            (width as int) * (height as int) <= u32::MAX,
            4 * (width as int) <= usize::MAX,
            4 * (width as int) * (height as int) <= usize::MAX,
        ensures
            r.width == width,
            r.height == height,
            r.stride == 4 * width,
            r.data@.len() == 4 * (width as int) * (height as int),
            forall|i: int|
                0 <= i < r.data@.len() ==> #[trigger] r.data@[i] == pixel_byte(
                    (
                        premul(rgba@[2], rgba@[3]),
                        premul(rgba@[1], rgba@[3]),
                        premul(rgba@[0], rgba@[3]),
                        rgba@[3],
                    ),
                    i % 4,
                ),
    {
        let a = rgba[3];
        let pre_r = premultiply(rgba[0], a);
        let pre_g = premultiply(rgba[1], a);
        let pre_b = premultiply(rgba[2], a);
        let ghost px = (pre_b, pre_g, pre_r, a);
        let stride = (width as usize) * 4;
        let count = width * height;
        let mut data: Vec<u8> = Vec::new();
        for k in 0..count
            invariant
                px == (pre_b, pre_g, pre_r, a),
                count == (width as int) * (height as int),
                4 * (width as int) * (height as int) <= usize::MAX,
                data@.len() == 4 * k,
                forall|i: int| 0 <= i < data@.len() ==> #[trigger] data@[i] == pixel_byte(px, i % 4),
        {
            let ghost before = data@;
            data.push(pre_b);
            data.push(pre_g);
            data.push(pre_r);
            data.push(a);
            proof {
                assert(data@[4 * k] == pre_b);
                assert(data@[4 * k + 1] == pre_g);
                assert(data@[4 * k + 2] == pre_r);
                assert(data@[4 * k + 3] == a);
                assert forall|i: int| 0 <= i < data@.len() implies #[trigger] data@[i] == pixel_byte(
                    px,
                    i % 4,
                ) by {
                    if i < before.len() {
                        assert(data@[i] == before[i]);
                    } else {
                        let c = i - 4 * k;
                        assert(0 <= c < 4);
                        assert(i % 4 == c) by (nonlinear_arith)
                            requires
                                i == 4 * k + c,
                                0 <= c < 4,
                                k >= 0,
                        ;
                        if c == 0 {
                            assert(data@[i] == pre_b);
                        } else if c == 1 {
                            assert(data@[i] == pre_g);
                        } else if c == 2 {
                            assert(data@[i] == pre_r);
                        } else {
                            assert(data@[i] == a);
                        }
                    }
                }
            }
        }
        assert(4 * (count as int) == 4 * (width as int) * (height as int)) by (nonlinear_arith)
            requires
                count == (width as int) * (height as int),
        ;
        PixelBuffer { width, height, stride, data }
    }
}

/// How a straight-alpha colour byte is premultiplied: unchanged at full
/// alpha.
pub open spec fn premul_or_keep(c: u8, a: u8) -> u8 {
    if a == 255 {
        c
    } else {
        premul(c, a)
    }
}

/// Straight-alpha RGBA bytes (as decoders give them) premultiplied: each
/// colour byte of a whole pixel becomes `c * a / 255` (unchanged at full
/// alpha), alpha stays; a trailing partial pixel is kept as it is.
pub fn premultiply_rgba(rgba: &[u8]) -> (r: Vec<u8>)
    ensures
        r@.len() == rgba@.len(),
        forall|i: int|
            0 <= i < rgba@.len() ==> #[trigger] r@[i] == if i % 4 == 3 || i >= 4 * (rgba@.len()
                / 4) {
                rgba@[i]
            } else {
                premul_or_keep(rgba@[i], rgba@[i - i % 4 + 3])
            },
{
    let len = rgba.len();
    let whole = 4 * (len / 4);
    let mut out: Vec<u8> = Vec::new();
    let mut i: usize = 0;
    while i < len
        invariant
            len == rgba@.len(),
            whole == 4 * (len / 4),
            i <= len,
            out@.len() == i,
            forall|j: int|
                0 <= j < i ==> #[trigger] out@[j] == if j % 4 == 3 || j >= whole {
                    rgba@[j]
                } else {
                    premul_or_keep(rgba@[j], rgba@[j - j % 4 + 3])
                },
        decreases len - i,
    {
        let v = if i % 4 == 3 || i >= whole {
            rgba[i]
        } else {
            let ai = i - i % 4 + 3;
            assert(ai < whole) by (nonlinear_arith)
                requires
                    ai == i - i % 4 + 3,
                    i < whole,
                    whole % 4 == 0,
                    i % 4 < 3,
                    whole == 4 * (len / 4),
            ;
            let a = rgba[ai];
            if a == 255 {
                rgba[i]
            } else {
                premultiply(rgba[i], a)
            }
        };
        out.push(v);
        i += 1;
    }
    out
}

/// Premultiplied RGBA8 bytes, four per pixel (a trailing partial pixel is
/// dropped), reordered into a BGRA buffer of the given size; the bytes
/// themselves are not changed.
pub fn rgba_to_bgra_premul(rgba: &[u8], width: u32, height: u32) -> (r: PixelBuffer)
    requires
        4 * (width as int) <= usize::MAX,
    ensures
        r.width == width,
        r.height == height,
        r.stride == 4 * width,
        r.data@.len() == 4 * (rgba@.len() / 4),
        forall|p: int, c: int|
            0 <= p && 4 * p + 4 <= rgba@.len() && 0 <= c < 4 ==> #[trigger] r.data@[4 * p + c]
                == pixel_byte((rgba@[4 * p + 2], rgba@[4 * p + 1], rgba@[4 * p], rgba@[4 * p + 3]), c),
{
    let stride = (width as usize) * 4;
    let len = rgba.len();
    let n = len / 4;
    let mut data: Vec<u8> = Vec::new();
    for k in 0..n
        invariant
            len == rgba@.len(),
            n == rgba@.len() / 4,
            data@.len() == 4 * k,
            forall|p: int, c: int|
                0 <= p < k && 0 <= c < 4 ==> #[trigger] data@[4 * p + c] == pixel_byte(
                    (rgba@[4 * p + 2], rgba@[4 * p + 1], rgba@[4 * p], rgba@[4 * p + 3]),
                    c,
                ),
    {
        assert(4 * k + 4 <= rgba@.len()) by (nonlinear_arith)
            requires
                k < n,
                n == rgba@.len() / 4,
        ;
        let base = 4 * k;
        let ghost before = data@;
        data.push(rgba[base + 2]);
        data.push(rgba[base + 1]);
        data.push(rgba[base]);
        data.push(rgba[base + 3]);
        proof {
            assert forall|p: int, c: int| 0 <= p < k + 1 && 0 <= c < 4 implies #[trigger] data@[4
                * p + c] == pixel_byte(
                (rgba@[4 * p + 2], rgba@[4 * p + 1], rgba@[4 * p], rgba@[4 * p + 3]),
                c,
            ) by {
                if p < k {
                    assert(data@[4 * p + c] == before[4 * p + c]);
                }
            }
        }
    }
    PixelBuffer { width, height, stride, data }
}

} // verus!
