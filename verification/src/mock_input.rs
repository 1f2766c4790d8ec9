//! Built-in test-pattern source: SMPTE-style colour bars in UYVY.
use vstd::prelude::*;
#[allow(unused_imports)]
use vstd::arithmetic::div_mod::*;
#[allow(unused_imports)]
use vstd::arithmetic::mul::*;

use crate::frame::expected_size_spec;
use crate::transform::lemma_row_col;
use crate::types::{PixelFormat, Resolution};

verus! {

/// A test-pattern input that produces colour-bar frames.
pub struct MockInput {
    width: u32,
    height: u32,
    fps: u32,
}

/// The (Y, U, V) values of the eight colour bars, left to right: white,
/// yellow, cyan, green, magenta, red, blue, black.
pub open spec fn color_bar_yuv(i: int) -> (u8, u8, u8) {
    if i == 0 {
        (235, 128, 128)
    } else if i == 1 {
        (210, 16, 146)
    } else if i == 2 {
        (170, 166, 16)
    } else if i == 3 {
        (145, 54, 34)
    } else if i == 4 {
        (107, 202, 222)
    } else if i == 5 {
        (82, 90, 240)
    } else if i == 6 {
        (41, 240, 110)
    } else {
        (16, 128, 128)
    }
}

fn color_bar(i: u32) -> (r: (u8, u8, u8))
    ensures
        r == color_bar_yuv(i as int),
{
    if i == 0 {
        (235, 128, 128)  // White
    } else if i == 1 {
        (210, 16, 146)  // Yellow
    } else if i == 2 {
        (170, 166, 16)  // Cyan
    } else if i == 3 {
        (145, 54, 34)  // Green
    } else if i == 4 {
        (107, 202, 222)  // Magenta
    } else if i == 5 {
        (82, 90, 240)  // Red
    } else if i == 6 {
        (41, 240, 110)  // Blue
    } else {
        (16, 128, 128)  // Black
    }
}

/// The colour-bar frame can be generated without a panic: the row size and
/// every byte offset fit in `u32`, and a non-empty frame has an even width
/// of at least eight pixels (one pixel per bar).
pub open spec fn color_bars_admissible(width: u32, height: u32) -> bool {
    &&& width * 2 <= u32::MAX
    &&& width * 2 * height <= usize::MAX
    &&& width > 0 && height > 0 ==> {
        &&& width % 2 == 0
        &&& width >= 8
        &&& 2 * width * height - 4 <= u32::MAX
    }
}

/// Whether `generate_color_bars` can produce a frame of this size (see
/// `color_bars_admissible`).
pub fn color_bars_is_admissible(width: u32, height: u32) -> (r: bool)
    ensures
        r == color_bars_admissible(width, height),
{
    let w: u128 = width as u128;
    let h: u128 = height as u128;
    assert(w * 2 * h <= 0x1_ffff_fffe_u128 * 0xffff_ffff_u128) by (nonlinear_arith)
        requires
            w <= 0xffff_ffff_u128,
            h <= 0xffff_ffff_u128,
    ;
    if w * 2 > u32::MAX as u128 || w * 2 * h > usize::MAX as u128 {
        return false;
    }
    if w > 0 && h > 0 {
        assert(2 * w * h == w * 2 * h) by (nonlinear_arith);
        if w >= 8 {
            assert(2 * w * h >= 16) by (nonlinear_arith)
                requires
                    w >= 8,
                    h > 0,
            ;
        }
        w % 2 == 0 && w >= 8 && 2 * w * h - 4 <= u32::MAX as u128
    } else {
        true
    }
}

/// The bar that the macro-pixel starting at pixel `x` belongs to: bars are
/// `width / 8` pixels wide and everything right of the seventh bar is the
/// eighth.
pub open spec fn bar_index(x: int, width: int) -> int {
    let b = x / (width / 8);
    if b < 7 {
        b
    } else {
        7
    }
}

/// Byte `i` of a colour-bar frame: macro-pixel `U Y V Y` of the bar that
/// its first pixel lies in.
pub open spec fn color_bars_byte(width: int, i: int) -> u8 {
    let m = i % (width * 2);
    let x = (m / 4) * 2;
    let (yy, u, v) = color_bar_yuv(bar_index(x, width));
    let k = m % 4;
    if k == 0 {
        u
    } else if k == 2 {
        v
    } else {
        yy
    }
}

/// The colour-bar frame: `width * 2 * height` bytes of UYVY.
pub open spec fn color_bars_spec(width: u32, height: u32) -> Seq<u8> {
    Seq::new((width * 2 * height) as nat, |i: int| color_bars_byte(width as int, i))
}

/// Byte `c` of the macro-pixel at even pixel `x` in row `y` belongs to the
/// bar of pixel `x`.
proof fn lemma_color_bars_macro_byte(width: int, y: int, x: int, c: int)
    requires
        width > 0,
        0 <= y,
        0 <= x < width,
        x % 2 == 0,
        width % 2 == 0,
        0 <= c < 4,
    ensures
        ({
            let (yy, u, v) = color_bar_yuv(bar_index(x, width));
            color_bars_byte(width, y * (width * 2) + x * 2 + c) == if c == 0 {
                u
            } else if c == 2 {
                v
            } else {
                yy
            }
        }),
{
    let rb = width * 2;
    lemma_row_col(y, x * 2 + c, rb);
    lemma_row_col(x / 2, c, 4);
    assert((x * 2 + c) / 4 == x / 2);
}

/// Generate one frame of colour bars.
pub fn generate_color_bars(width: u32, height: u32) -> (r: Vec<u8>)
    requires
        color_bars_admissible(width, height),
    ensures
        r@ == color_bars_spec(width, height),
{
    let ghost spec = color_bars_spec(width, height);
    let bar_width: u32 = width / 8;
    let row_bytes: usize = (width * 2) as usize;
    let ghost rb: int = row_bytes as int;
    let mut data: Vec<u8> = Vec::new();
    if width == 0 {
        assert(width * 2 * height == 0) by (nonlinear_arith)
            requires
                width == 0,
        ;
        assert(data@ =~= spec);
        return data;
    }
    let mut y: u32 = 0;
    while y < height
        invariant
            color_bars_admissible(width, height),
            width > 0,
            bar_width == width / 8,
            rb == row_bytes,
            row_bytes == width * 2,
            spec == color_bars_spec(width, height),
            spec.len() == rb * height,
            y <= height,
            data@.len() == y * rb,
            forall|k: int| 0 <= k < data@.len() ==> data@[k] == spec[k],
        decreases height - y,
    {
        proof {
            lemma_mul_inequality((y + 1) as int, height as int, rb);
            lemma_mul_is_distributive_add_other_way(rb, y as int, 1);
            lemma_mul_is_commutative(rb, height as int);
        }
        let mut x: u32 = 0;
        while x < width
            invariant
                color_bars_admissible(width, height),
                width > 0,
                height > 0,
                y < height,
                x % 2 == 0,
                x <= width,
                bar_width == width / 8,
                bar_width > 0,
                rb == row_bytes,
                row_bytes == width * 2,
                spec == color_bars_spec(width, height),
                spec.len() == rb * height,
                (y + 1) * rb <= rb * height,
                (y + 1) * rb == y * rb + rb,
                data@.len() == y * rb + x * 2,
                forall|k: int| 0 <= k < data@.len() ==> data@[k] == spec[k],
            decreases width - x,
        {
            let q: u32 = x / bar_width;
            let bar_idx: u32 = if q < 7 { q } else { 7 };
            let (yy, u, v) = color_bar(bar_idx);
            let ghost before = data@;
            proof {
                lemma_color_bars_macro_byte(width as int, y as int, x as int, 0);
                lemma_color_bars_macro_byte(width as int, y as int, x as int, 1);
                lemma_color_bars_macro_byte(width as int, y as int, x as int, 2);
                lemma_color_bars_macro_byte(width as int, y as int, x as int, 3);
                assert(y * rb + x * 2 + 3 < spec.len());
            }
            data.push(u);
            data.push(yy);
            data.push(v);
            data.push(yy);
            proof {
                let b = y * rb + x * 2;
                assert(data@[b] == spec[b + 0]);
                assert(data@[b + 1] == spec[b + 1]);
                assert(data@[b + 2] == spec[b + 2]);
                assert(data@[b + 3] == spec[b + 3]);
                assert forall|k: int| 0 <= k < data@.len() implies data@[k] == spec[k] by {
                    if k < before.len() {
                        assert(data@[k] == before[k]);
                    }
                }
            }
            x += 2;
        }
        y += 1;
    }
    proof {
        lemma_mul_is_commutative(rb, height as int);
    }
    assert(data@ =~= spec);
    data
}

impl MockInput {
    /// A colour-bar source of the given size and frame rate.
    pub fn new(width: u32, height: u32, fps: u32) -> (r: Self)
        ensures
            r.spec_width() == width,
            r.spec_height() == height,
            r.spec_fps() == fps,
    {
        Self { width, height, fps }
    }

    /// Frame width in pixels.
    pub fn width(&self) -> (r: u32)
        ensures
            r == self.spec_width(),
    {
        self.width
    }

    /// Frame height in pixels.
    pub fn height(&self) -> (r: u32)
        ensures
            r == self.spec_height(),
    {
        self.height
    }

    /// Frames per second.
    pub fn fps(&self) -> (r: u32)
        ensures
            r == self.spec_fps(),
    {
        self.fps
    }

    /// Frame width in pixels.
    pub closed spec fn spec_width(&self) -> u32 {
        self.width
    }

    /// Frame height in pixels.
    pub closed spec fn spec_height(&self) -> u32 {
        self.height
    }

    /// Frames per second.
    pub closed spec fn spec_fps(&self) -> u32 {
        self.fps
    }
}

/// The four bytes `U, Y0, V, Y1` of the macro-pixel at byte offset `o`.
pub open spec fn macro_pixel_at(s: Seq<u8>, o: int) -> (u8, u8, u8, u8) {
    (s[o], s[o + 1], s[o + 2], s[o + 3])
}

/// The colour-bar frame shows, left to right in bars `width / 8` pixels
/// wide (the last bar taking what remains), the standard bars white,
/// yellow, cyan, green, magenta, red, blue and black, in every row. Each
/// macro-pixel holds the bar's chroma `U, V` and its luma `Y` twice.
pub proof fn lemma_color_bar_values(width: u32, height: u32, y: int, x: int)
    requires
        width % 2 == 0,
        width >= 8,
        0 <= y < height,
        0 <= x < width,
        x % 2 == 0,
    ensures
        ({
            let s = color_bars_spec(width, height);
            let o = y * (width * 2) + x * 2;
            let b = x / ((width / 8) as int);
            let q = macro_pixel_at(s, o);
            &&& 0 <= o && o + 3 < s.len()
            &&& b == 0 ==> q == (128u8, 235u8, 128u8, 235u8)
            &&& b == 1 ==> q == (16u8, 210u8, 146u8, 210u8)
            &&& b == 2 ==> q == (166u8, 170u8, 16u8, 170u8)
            &&& b == 3 ==> q == (54u8, 145u8, 34u8, 145u8)
            &&& b == 4 ==> q == (202u8, 107u8, 222u8, 107u8)
            &&& b == 5 ==> q == (90u8, 82u8, 240u8, 82u8)
            &&& b == 6 ==> q == (240u8, 41u8, 110u8, 41u8)
            &&& b >= 7 ==> q == (128u8, 16u8, 128u8, 16u8)
        }),
{
    let w = width as int;
    let o = y * (w * 2) + x * 2;
    assert(0 <= o && o + 3 < w * 2 * height) by (nonlinear_arith)
        requires
            o == y * (w * 2) + x * 2,
            0 <= y < height,
            0 <= x < w,
            x % 2 == 0,
            w % 2 == 0,
    ;
    lemma_color_bars_macro_byte(w, y, x, 0);
    lemma_color_bars_macro_byte(w, y, x, 1);
    lemma_color_bars_macro_byte(w, y, x, 2);
    lemma_color_bars_macro_byte(w, y, x, 3);
}

/// A colour-bar frame has exactly the size of a UYVY frame of its
/// resolution.
pub proof fn lemma_color_bars_frame_size(width: u32, height: u32)
    ensures
        color_bars_spec(width, height).len() == expected_size_spec(
            Resolution { width, height },
            PixelFormat::Uyvy,
        ),
{
    assert(width * 2 * height == width * height * 2) by (nonlinear_arith);
}

} // verus!
