//! CPU frame transforms on packed UYVY (4:2:2) data: crop, nearest-neighbour
//! scale and horizontal/vertical flip.
//!
//! UYVY stores two pixels in a four-byte macro-pixel `U Y0 V Y1`, so a row of
//! `w` pixels takes `2 * w` bytes and horizontal positions are handled in
//! two-pixel units.
use vstd::prelude::*;
#[allow(unused_imports)]
use vstd::arithmetic::div_mod::*;
#[allow(unused_imports)]
use vstd::arithmetic::mul::*;

use crate::error::Error;
use crate::text::{decimal, u64_to_decimal};
use crate::types::{CropRegion, Resolution};

verus! {

// ---------------------------------------------------------------------------
// Crop
// ---------------------------------------------------------------------------

/// Left edge of a crop, aligned down to a two-pixel boundary.
pub open spec fn crop_x(c: CropRegion) -> int {
    c.x - c.x % 2
}

/// Width of a crop after widening it by the alignment of its left edge and
/// aligning the result down to a two-pixel boundary.
pub open spec fn crop_width(c: CropRegion) -> int {
    (c.width + c.x % 2) - (c.width + c.x % 2) % 2
}

/// The aligned crop lies inside the source raster.
pub open spec fn crop_in_bounds(src: Resolution, c: CropRegion) -> bool {
    crop_x(c) + crop_width(c) <= src.width && c.y + c.height <= src.height
}

/// The aligned crop has a non-zero width and height.
pub open spec fn crop_nonempty(c: CropRegion) -> bool {
    crop_width(c) > 0 && c.height > 0
}

/// Number of source bytes that a crop reads up to: the end of the last
/// cropped row.
pub open spec fn crop_source_len(src: Resolution, c: CropRegion) -> int {
    (c.y + c.height - 1) * (src.width * 2) + (crop_x(c) + crop_width(c)) * 2
}

/// The arithmetic of a crop stays within `u32`, and for an accepted crop
/// the source row stride fits in `usize` and the source holds every byte
/// the crop reads.
pub open spec fn crop_admissible(data_len: int, src: Resolution, c: CropRegion) -> bool {
    &&& c.width + c.x % 2 <= u32::MAX
    &&& crop_x(c) + crop_width(c) <= u32::MAX
    &&& crop_x(c) + crop_width(c) <= src.width ==> c.y + c.height <= u32::MAX
    &&& crop_in_bounds(src, c) && crop_nonempty(c) ==> {
        &&& src.width * 2 <= usize::MAX
        &&& data_len >= crop_source_len(src, c)
    }
}

/// The cropped UYVY bytes: row `r` of the result is the aligned span of
/// source row `c.y + r`.
pub open spec fn crop_spec(data: Seq<u8>, src: Resolution, c: CropRegion) -> Seq<u8> {
    let ds = crop_width(c) * 2;
    Seq::new(
        (ds * c.height) as nat,
        |i: int| data[(c.y + i / ds) * (src.width * 2) + crop_x(c) * 2 + i % ds],
    )
}

/// The message of the error for a crop that leaves the source raster.
pub open spec fn crop_bounds_message(src: Resolution, c: CropRegion) -> Seq<char> {
    "crop region ("@ + decimal(crop_x(c) as nat) + ","@ + decimal(c.y as nat) + " "@ + decimal(
        crop_width(c) as nat,
    ) + "x"@ + decimal(c.height as nat) + ") exceeds source "@ + decimal(src.width as nat)
        + "x"@ + decimal(src.height as nat)
}

/// Clearing the lowest bit aligns a value down to an even number.
pub proof fn lemma_align_down(v: u32)
    ensures
        v & !1u32 == v - v % 2,
{
    assert(v & !1u32 == v - v % 2) by (bit_vector);
}

/// Index arithmetic of a row-major layout: position `row * stride + col`
/// with `col < stride` decomposes back into `row` and `col`.
pub proof fn lemma_row_col(row: int, col: int, stride: int)
    requires
        0 <= row,
        0 <= col < stride,
    ensures
        (row * stride + col) / stride == row,
        (row * stride + col) % stride == col,
{
    lemma_fundamental_div_mod_converse(row * stride + col, stride, row, col);
}

/// Crop UYVY frame data to the specified region.
///
/// UYVY has 2-pixel horizontal units (4 bytes per 2 pixels), so x and width
/// are aligned to 2-pixel boundaries.
pub fn crop_uyvy(data: &[u8], src_resolution: Resolution, crop: &CropRegion) -> (r: Result<
    Vec<u8>,
    Error,
>)
    requires
        crop_admissible(data@.len() as int, src_resolution, *crop),
    ensures
        r is Ok <==> crop_in_bounds(src_resolution, *crop) && crop_nonempty(*crop),
        r matches Ok(v) ==> v@ == crop_spec(data@, src_resolution, *crop),
        !crop_in_bounds(src_resolution, *crop) ==> (r matches Err(Error::Gpu(m)) && m@
            == crop_bounds_message(src_resolution, *crop)),
        crop_in_bounds(src_resolution, *crop) && !crop_nonempty(*crop) ==> (r matches Err(
            Error::Gpu(m),
        ) && m@ == "crop region has zero dimension"@),
{
    proof {
        lemma_align_down(crop.x);
        lemma_align_down((crop.width + crop.x % 2) as u32);
    }
    // Align x and width to 2-pixel boundary
    let x: u32 = crop.x & !1u32;
    let width: u32 = (crop.width + (crop.x - x)) & !1u32;
    let y: u32 = crop.y;
    let height: u32 = crop.height;

    if x + width > src_resolution.width || y + height > src_resolution.height {
        let msg = String::from_str("crop region (").concat(u64_to_decimal(x as u64).as_str()).concat(
            ",",
        ).concat(u64_to_decimal(y as u64).as_str()).concat(" ").concat(
            u64_to_decimal(width as u64).as_str(),
        ).concat("x").concat(u64_to_decimal(height as u64).as_str()).concat(
            ") exceeds source ",
        ).concat(u64_to_decimal(src_resolution.width as u64).as_str()).concat("x").concat(
            u64_to_decimal(src_resolution.height as u64).as_str(),
        );
        return Err(Error::Gpu(msg));
    }
    if width == 0 || height == 0 {
        return Err(Error::Gpu(String::from_str("crop region has zero dimension")));
    }
    let ghost ds: int = width * 2;
    let ghost ss: int = src_resolution.width * 2;
    let ghost spec = crop_spec(data@, src_resolution, *crop);
    proof {
        lemma_mul_inequality((y + height - 1) as int, src_resolution.height as int, ss);
        lemma_mul_inequality(width as int, src_resolution.width as int, 2);
    }

    let src_stride: usize = src_resolution.width as usize * 2;
    let dst_stride: usize = width as usize * 2;
    let x_byte_offset: usize = x as usize * 2;
    let mut out: Vec<u8> = Vec::new();
    let mut row: usize = 0;
    while row < height as usize
        invariant
            crop_admissible(data@.len() as int, src_resolution, *crop),
            crop_in_bounds(src_resolution, *crop),
            x == crop_x(*crop),
            width == crop_width(*crop),
            y == crop.y,
            height == crop.height,
            width > 0,
            height > 0,
            ds == dst_stride,
            ss == src_stride,
            dst_stride == width * 2,
            src_stride == src_resolution.width * 2,
            x_byte_offset == x * 2,
            spec == crop_spec(data@, src_resolution, *crop),
            row <= height,
            out@.len() == row * ds,
            forall|k: int| 0 <= k < out@.len() ==> out@[k] == spec[k],
        decreases height - row,
    {
        proof {
            lemma_mul_inequality((y + row) as int, (y + height - 1) as int, ss);
            lemma_mul_inequality((row + 1) as int, height as int, ds);
            lemma_mul_is_distributive_add(ds, row as int, 1);
            lemma_mul_is_commutative(ds, row as int);
            lemma_mul_is_commutative(ds, (row + 1) as int);
            lemma_mul_is_commutative(ds, height as int);
            assert((y + row) * ss <= (y + height - 1) * ss);
            assert(crop_source_len(src_resolution, *crop) == (y + height - 1) * ss + (x + width) * 2);
            assert((y + row) * ss + x * 2 + ds <= data@.len());
            assert(((y as usize + row) as int) * (src_stride as int) <= data.len());
        }
        let src_start: usize = (y as usize + row) * src_stride + x_byte_offset;
        let mut j: usize = 0;
        while j < dst_stride
            invariant
                0 <= row < height,
                ds == dst_stride,
                ss == src_stride,
                spec == crop_spec(data@, src_resolution, *crop),
                spec.len() == ds * height,
                src_start == (y + row) * ss + x * 2,
                src_start + dst_stride <= data.len(),
                x == crop_x(*crop),
                y == crop.y,
                dst_stride == crop_width(*crop) * 2,
                src_stride == src_resolution.width * 2,
                (row + 1) * ds <= ds * height,
                (row + 1) * ds == row * ds + ds,
                j <= dst_stride,
                out@.len() == row * ds + j,
                forall|k: int| 0 <= k < out@.len() ==> out@[k] == spec[k],
            decreases dst_stride - j,
        {
            let b: u8 = data[src_start + j];
            proof {
                let k: int = row * ds + j;
                lemma_row_col(row as int, j as int, ds);
                assert(k < spec.len());
                assert(spec[k] == data@[(y + row) * ss + x * 2 + j]);
            }
            out.push(b);
            j += 1;
        }
        proof {
            lemma_mul_is_distributive_add(ds, row as int, 1);
        }
        row += 1;
    }
    proof {
        lemma_mul_is_commutative(ds, height as int);
    }
    assert(out@ =~= spec);
    Ok(out)
}


// ---------------------------------------------------------------------------
// Nearest-neighbour scale
// ---------------------------------------------------------------------------

/// The source coordinate that nearest-neighbour sampling maps destination
/// coordinate `i` to, for an axis of `n_src` source and `n_dst` destination
/// units: `i * n_src / n_dst`.
pub open spec fn nn_coord(i: int, n_src: int, n_dst: int) -> int {
    i * n_src / n_dst
}

/// Nearest-neighbour sampling maps a destination coordinate inside the
/// destination axis to one inside the source axis, monotonically.
pub proof fn lemma_nn_coord_bounds(i: int, j: int, n_src: int, n_dst: int)
    requires
        0 <= i <= j < n_dst,
        0 <= n_src,
    ensures
        0 <= nn_coord(i, n_src, n_dst) <= nn_coord(j, n_src, n_dst),
        n_src > 0 ==> nn_coord(j, n_src, n_dst) < n_src,
{
    lemma_mul_inequality(i, j, n_src);
    lemma_mul_nonnegative(i, n_src);
    lemma_div_pos_is_pos(i * n_src, n_dst);
    lemma_div_is_ordered(i * n_src, j * n_src, n_dst);
    if n_src > 0 {
        lemma_mul_strict_inequality(j, n_dst, n_src);
        lemma_mul_is_commutative(n_dst, n_src);
        lemma_multiply_divide_lt(j * n_src, n_dst, n_src);
    }
}

/// Source row that destination row `dy` samples.
pub open spec fn scale_src_row(dy: int, src: Resolution, dst: Resolution) -> int {
    nn_coord(dy, src.height as int, dst.height as int)
}

/// Source macro-pixel that destination macro-pixel `dxm` samples.
pub open spec fn scale_src_macro(dxm: int, src: Resolution, dst: Resolution) -> int {
    nn_coord(dxm, (src.width / 2) as int, (dst.width / 2) as int)
}

/// The scale's arithmetic stays within `usize`, and every source row it
/// reads is present: the rows that a nearest-neighbour scale samples must
/// lie in the data, and a source narrower than one macro-pixel cannot be
/// sampled.
pub open spec fn scale_admissible(data_len: int, src: Resolution, dst: Resolution) -> bool {
    &&& src.width * 2 <= usize::MAX
    &&& dst.width * 2 <= usize::MAX
    &&& dst.width * 2 * dst.height <= usize::MAX
    &&& dst.height > 0 ==> (scale_src_row(dst.height - 1, src, dst) + 1) * (src.width * 2)
        <= data_len
    &&& dst.height > 0 && dst.width / 2 > 0 ==> src.width / 2 > 0
}

/// Byte `i` of a scaled frame: within each destination row, whole
/// macro-pixels are copied from the sampled source row and macro-pixel; the
/// two bytes of a trailing half macro-pixel (odd width) stay zero.
pub open spec fn scale_byte(data: Seq<u8>, src: Resolution, dst: Resolution, i: int) -> u8 {
    let rb = dst.width * 2;
    let dy = i / rb;
    let m = i % rb;
    if m < (dst.width / 2) * 4 {
        data[scale_src_row(dy, src, dst) * (src.width * 2) + scale_src_macro(m / 4, src, dst) * 4
            + m % 4]
    } else {
        0
    }
}

/// The scaled UYVY frame: `dst.width * 2` bytes per row, `dst.height` rows.
pub open spec fn scale_spec(data: Seq<u8>, src: Resolution, dst: Resolution) -> Seq<u8> {
    Seq::new((dst.width * 2 * dst.height) as nat, |i: int| scale_byte(data, src, dst, i))
}

/// Nearest-neighbor scale UYVY data to target resolution.
///
/// Both source and destination widths must be even.
pub fn scale_uyvy_nearest(data: &[u8], src_resolution: Resolution, dst_resolution: Resolution) -> (r:
    Vec<u8>)
    requires
        scale_admissible(data@.len() as int, src_resolution, dst_resolution),
    ensures
        r@ == scale_spec(data@, src_resolution, dst_resolution),
{
    let ghost src = src_resolution;
    let ghost dst = dst_resolution;
    let src_w: usize = src_resolution.width as usize;
    let dst_w: usize = dst_resolution.width as usize;
    let dst_h: usize = dst_resolution.height as usize;

    // Work in 2-pixel UYVY macro-pixel units
    let src_macro_w: usize = src_w / 2;
    let dst_macro_w: usize = dst_w / 2;
    let src_stride: usize = src_w * 2;
    let row_bytes: usize = dst_w * 2;
    let ghost rb: int = row_bytes as int;
    let ghost spec = scale_spec(data@, src, dst);

    let mut out: Vec<u8> = Vec::new();
    let mut dy: usize = 0;
    while dy < dst_h
        invariant
            scale_admissible(data@.len() as int, src, dst),
            src == src_resolution,
            dst == dst_resolution,
            src_w == src.width,
            dst_w == dst.width,
            dst_h == dst.height,
            src_macro_w == src_w / 2,
            dst_macro_w == dst_w / 2,
            src_stride == src_w * 2,
            row_bytes == dst_w * 2,
            rb == row_bytes,
            spec == scale_spec(data@, src, dst),
            dy <= dst_h,
            out@.len() == dy * rb,
            forall|k: int| 0 <= k < out@.len() ==> out@[k] == spec[k],
        decreases dst_h - dy,
    {
        assert((dy as u64) * (src_resolution.height as u64) <= 0xffff_ffff_u64 * 0xffff_ffff_u64)
            by (nonlinear_arith)
            requires
                dy < dst_h,
                dst_h <= 0xffff_ffff_u64,
        ;
        let sy: u64 = dy as u64 * src_resolution.height as u64 / dst_resolution.height as u64;
        proof {
            lemma_nn_coord_bounds(dy as int, (dst_h - 1) as int, src.height as int, dst.height as int);
            lemma_mul_inequality((sy + 1) as int, scale_src_row(dst.height - 1, src, dst) + 1, src_stride as int);
            lemma_mul_inequality((dy + 1) as int, dst_h as int, rb);
            lemma_mul_is_distributive_add(rb, dy as int, 1);
            lemma_mul_is_commutative(rb, dy as int);
            lemma_mul_is_commutative(rb, (dy + 1) as int);
            lemma_mul_is_commutative(rb, dst_h as int);
            lemma_mul_is_distributive_add(src_stride as int, sy as int, 1);
            lemma_mul_is_commutative(src_stride as int, sy as int);
            lemma_mul_is_commutative(src_stride as int, (sy + 1) as int);
            assert(sy == scale_src_row(dy as int, src, dst));
            assert(sy <= scale_src_row(dst.height - 1, src, dst));
            assert((sy + 1) * (src_stride as int) <= data.len());
            assert((sy as int) * (src_stride as int) + src_stride <= data.len());
        }
        let row_start: usize = sy as usize * src_stride;
        let mut dxm: usize = 0;
        while dxm < dst_macro_w
            invariant
                scale_admissible(data@.len() as int, src, dst),
                src_w == src.width,
                dst_w == dst.width,
                dst_h == dst.height,
                src_macro_w == src_w / 2,
                dst_macro_w == dst_w / 2,
                src_stride == src_w * 2,
                rb == row_bytes,
                row_bytes == dst_w * 2,
                spec == scale_spec(data@, src, dst),
                spec.len() == rb * dst_h,
                dy < dst_h,
                sy == scale_src_row(dy as int, src, dst),
                row_start == sy * src_stride,
                row_start + src_stride <= data.len(),
                (dy + 1) * rb <= rb * dst_h,
                (dy + 1) * rb == dy * rb + rb,
                dxm <= dst_macro_w,
                out@.len() == dy * rb + dxm * 4,
                forall|k: int| 0 <= k < out@.len() ==> out@[k] == spec[k],
            decreases dst_macro_w - dxm,
        {
            assert((dxm as u64) * (src_macro_w as u64) <= 0xffff_ffff_u64 * 0xffff_ffff_u64)
                by (nonlinear_arith)
                requires
                    dxm <= 0xffff_ffff_u64,
                    src_macro_w <= 0xffff_ffff_u64,
            ;
            let sxm: u64 = dxm as u64 * src_macro_w as u64 / dst_macro_w as u64;
            proof {
                lemma_nn_coord_bounds(dxm as int, (dst_macro_w - 1) as int, src_macro_w as int, dst_macro_w as int);
                assert(sxm < src_macro_w);
            }
            let si: usize = row_start + sxm as usize * 4;
            let mut c: usize = 0;
            while c < 4
                invariant
                    src_w == src.width,
                    dst_w == dst.width,
                    src_stride == src_w * 2,
                    src_macro_w == src_w / 2,
                    dst_macro_w == dst_w / 2,
                    rb == row_bytes,
                    row_bytes == dst_w * 2,
                    spec == scale_spec(data@, src, dst),
                    spec.len() == rb * dst_h,
                    dy < dst_h,
                    dxm < dst_macro_w,
                    sy == scale_src_row(dy as int, src, dst),
                    sxm == scale_src_macro(dxm as int, src, dst),
                    si == row_start + sxm * 4,
                    sxm < src_macro_w,
                    row_start == sy * src_stride,
                    row_start + src_stride <= data.len(),
                    (dy + 1) * rb <= rb * dst_h,
                    (dy + 1) * rb == dy * rb + rb,
                    c <= 4,
                    out@.len() == dy * rb + dxm * 4 + c,
                    forall|k: int| 0 <= k < out@.len() ==> out@[k] == spec[k],
                decreases 4 - c,
            {
                let b: u8 = data[si + c];
                proof {
                    let m: int = dxm * 4 + c;
                    let k: int = dy * rb + m;
                    lemma_row_col(dy as int, m, rb);
                    lemma_row_col(dxm as int, c as int, 4);
                    assert(k < spec.len());
                    assert(spec[k] == scale_byte(data@, src, dst, k));
                }
                out.push(b);
                c += 1;
            }
            dxm += 1;
        }
        // A trailing half macro-pixel (odd destination width) stays zero.
        let mut pad: usize = dst_macro_w * 4;
        while pad < row_bytes
            invariant
                dst_w == dst.width,
                dst_macro_w == dst_w / 2,
                rb == row_bytes,
                row_bytes == dst_w * 2,
                spec == scale_spec(data@, src, dst),
                spec.len() == rb * dst_h,
                dy < dst_h,
                (dy + 1) * rb <= rb * dst_h,
                (dy + 1) * rb == dy * rb + rb,
                dst_macro_w * 4 <= pad <= row_bytes,
                out@.len() == dy * rb + pad,
                forall|k: int| 0 <= k < out@.len() ==> out@[k] == spec[k],
            decreases row_bytes - pad,
        {
            proof {
                let k: int = dy * rb + pad;
                lemma_row_col(dy as int, pad as int, rb);
                assert(k < spec.len());
                assert(spec[k] == scale_byte(data@, src, dst, k));
            }
            out.push(0u8);
            pad += 1;
        }
        dy += 1;
    }
    proof {
        lemma_mul_is_commutative(rb, dst_h as int);
    }
    assert(out@ =~= spec);
    out
}


// ---------------------------------------------------------------------------
// Flip
// ---------------------------------------------------------------------------

/// The flip's arithmetic stays within `usize`, and the data holds every
/// byte that the flip reads: with a horizontal flip, every whole
/// macro-pixel of every row; with a vertical flip alone, every row.
pub open spec fn flip_admissible(data_len: int, res: Resolution, horizontal: bool, vertical: bool) -> bool {
    &&& (horizontal || vertical) ==> res.width * 2 <= usize::MAX
    &&& horizontal && res.height > 0 && res.width / 2 > 0 ==> data_len >= (res.height - 1) * (
    res.width * 2) + (res.width / 2) * 4
    &&& !horizontal && vertical && res.height > 0 ==> data_len >= res.height * (res.width * 2)
}

/// Which byte of a source macro-pixel lands at position `c` of a
/// horizontally mirrored macro-pixel: U and V keep their places, Y0 and Y1
/// swap.
pub open spec fn mirrored_component(c: int) -> int {
    if c == 1 {
        3
    } else if c == 3 {
        1
    } else {
        c
    }
}

/// Byte `i` of a flipped frame (with at least one flip direction set).
/// Output row `r` comes from source row `h - 1 - r` under a vertical flip;
/// under a horizontal flip macro-pixel `x` comes from macro-pixel
/// `w / 2 - 1 - x` with its two luma samples swapped, and a trailing half
/// macro-pixel stays zero. Bytes past the last row stay zero.
pub open spec fn flip_byte(data: Seq<u8>, res: Resolution, horizontal: bool, vertical: bool, i: int) -> u8 {
    let stride = res.width * 2;
    let mw = res.width / 2;
    if stride == 0 || i >= res.height * stride {
        0
    } else {
        let orow = i / stride;
        let m = i % stride;
        let srow = if vertical {
            res.height - 1 - orow
        } else {
            orow
        };
        if horizontal {
            if m < mw * 4 {
                data[srow * stride + (mw - 1 - m / 4) * 4 + mirrored_component(m % 4)]
            } else {
                0
            }
        } else {
            data[srow * stride + m]
        }
    }
}

/// The flipped frame: the data unchanged when neither direction is set,
/// otherwise a buffer of the same length filled by `flip_byte`.
pub open spec fn flip_spec(data: Seq<u8>, res: Resolution, horizontal: bool, vertical: bool) -> Seq<u8> {
    if !horizontal && !vertical {
        data
    } else {
        Seq::new(data.len(), |i: int| flip_byte(data, res, horizontal, vertical, i))
    }
}

/// Within a horizontally flipped row, byte `c` of output macro-pixel `mx`
/// is the mirrored component of the opposite source macro-pixel.
proof fn lemma_flip_mirrored_byte(
    data: Seq<u8>,
    res: Resolution,
    horizontal: bool,
    vertical: bool,
    orow: int,
    mx: int,
    c: int,
)
    requires
        horizontal,
        0 <= orow < res.height,
        0 <= mx < res.width / 2,
        0 <= c < 4,
    ensures
        ({
            let st = res.width * 2;
            let srow = if vertical {
                res.height - 1 - orow
            } else {
                orow
            };
            flip_byte(data, res, horizontal, vertical, orow * st + mx * 4 + c) == data[srow * st + (
            res.width / 2 - 1 - mx) * 4 + mirrored_component(c)]
        }),
{
    let st = res.width * 2;
    let k = orow * st + mx * 4 + c;
    lemma_row_col(orow, mx * 4 + c, st);
    lemma_row_col(mx, c, 4);
    lemma_mul_inequality(orow + 1, res.height as int, st);
    lemma_mul_is_distributive_add_other_way(st, orow, 1);
    assert(k < res.height * st);
}

/// Flip UYVY data horizontally and/or vertically.
pub fn flip_uyvy(data: &[u8], resolution: Resolution, horizontal: bool, vertical: bool) -> (r: Vec<u8>)
    requires
        flip_admissible(data@.len() as int, resolution, horizontal, vertical),
    ensures
        r@ == flip_spec(data@, resolution, horizontal, vertical),
{
    if !horizontal && !vertical {
        return vstd::slice::slice_to_vec(data);
    }
    let ghost res = resolution;
    let ghost spec = flip_spec(data@, res, horizontal, vertical);
    let w: usize = resolution.width as usize;
    let h: usize = resolution.height as usize;
    let stride: usize = w * 2;
    let macro_w: usize = w / 2;  // Number of UYVY macro-pixels per row
    let len: usize = data.len();
    let ghost st: int = stride as int;

    let mut out: Vec<u8> = Vec::new();
    let mut orow: usize = 0;
    while orow < h
        invariant
            flip_admissible(data@.len() as int, res, horizontal, vertical),
            horizontal || vertical,
            res == resolution,
            w == res.width,
            h == res.height,
            stride == w * 2,
            st == stride,
            macro_w == w / 2,
            len == data@.len(),
            spec == flip_spec(data@, res, horizontal, vertical),
            spec.len() == len,
            orow <= h,
            out@.len() == if orow * st <= len { orow * st } else { len as int },
            forall|k: int| 0 <= k < out@.len() ==> out@[k] == spec[k],
        decreases h - orow,
    {
        let src_row: usize = if vertical { h - 1 - orow } else { orow };
        proof {
            lemma_mul_inequality(orow as int, (h - 1) as int, st);
            lemma_mul_inequality(src_row as int, (h - 1) as int, st);
            lemma_mul_inequality((orow + 1) as int, h as int, st);
            lemma_mul_is_distributive_add(st, orow as int, 1);
            lemma_mul_is_commutative(st, orow as int);
            lemma_mul_is_commutative(st, (orow + 1) as int);
            lemma_mul_is_distributive_add(st, src_row as int, 1);
            lemma_mul_is_commutative(st, src_row as int);
            lemma_mul_is_commutative(st, (src_row + 1) as int);
            lemma_mul_is_commutative(st, h as int);
        }
        let ghost row_base: int = orow * st;
        assert((orow + 1) * st == row_base + st) by (nonlinear_arith)
            requires
                row_base == orow * st,
        ;
        assert(src_row * st + st <= h * st) by (nonlinear_arith)
            requires
                src_row < h,
                st >= 0,
        ;
        if horizontal {
            if macro_w > 0 {
                assert(row_base <= len);
                assert(out@.len() == row_base);
            }
            let mut mx: usize = 0;
            while mx < macro_w
                invariant
                    horizontal,
                    w == res.width,
                    h == res.height,
                    stride == w * 2,
                    st == stride,
                    macro_w == w / 2,
                    macro_w * 4 <= stride,
                    len == data@.len(),
                    spec == flip_spec(data@, res, horizontal, vertical),
                    spec.len() == len,
                    orow < h,
                    src_row == if vertical { h - 1 - orow } else { orow as int },
                    src_row < h,
                    row_base == orow * st,
                    macro_w > 0 ==> row_base + macro_w * 4 <= len,
                    macro_w > 0 ==> src_row * st + macro_w * 4 <= len,
                    row_base + st <= h * st,
                    mx <= macro_w,
                    out@.len() == (if row_base <= len { row_base } else { len as int }) + mx * 4,
                    forall|k: int| 0 <= k < out@.len() ==> out@[k] == spec[k],
                decreases macro_w - mx,
            {
                let src_mx: usize = (macro_w - 1 - mx) * 4 + src_row * stride;
                let b0: u8 = data[src_mx];
                let b1: u8 = data[src_mx + 3];
                let b2: u8 = data[src_mx + 2];
                let b3: u8 = data[src_mx + 1];
                proof {
                    lemma_flip_mirrored_byte(data@, res, horizontal, vertical, orow as int, mx as int, 0);
                    lemma_flip_mirrored_byte(data@, res, horizontal, vertical, orow as int, mx as int, 1);
                    lemma_flip_mirrored_byte(data@, res, horizontal, vertical, orow as int, mx as int, 2);
                    lemma_flip_mirrored_byte(data@, res, horizontal, vertical, orow as int, mx as int, 3);
                }
                let ghost before = out@;
                out.push(b0);
                out.push(b1);
                out.push(b2);
                out.push(b3);
                proof {
                    assert(before.len() == row_base + mx * 4);
                    assert(out@[row_base + mx * 4] == spec[row_base + mx * 4]);
                    assert(out@[row_base + mx * 4 + 1] == spec[row_base + mx * 4 + 1]);
                    assert(out@[row_base + mx * 4 + 2] == spec[row_base + mx * 4 + 2]);
                    assert(out@[row_base + mx * 4 + 3] == spec[row_base + mx * 4 + 3]);
                    assert forall|k: int| 0 <= k < out@.len() implies out@[k] == spec[k] by {
                        if k < before.len() {
                            assert(out@[k] == before[k]);
                        }
                    }
                }
                mx += 1;
            }
            // A trailing half macro-pixel (odd width) stays zero.
            let mut p: usize = macro_w * 4;
            while p < stride && out.len() < len
                invariant
                    horizontal,
                    w == res.width,
                    h == res.height,
                    stride == w * 2,
                    st == stride,
                    macro_w == w / 2,
                    len == data@.len(),
                    spec == flip_spec(data@, res, horizontal, vertical),
                    spec.len() == len,
                    orow < h,
                    row_base == orow * st,
                    macro_w * 4 <= p,
                    p <= stride,
                    (orow + 1) * st == row_base + st,
                    out@.len() == if row_base + p <= len { row_base + p } else { len as int },
                    row_base + st <= h * st,
                    forall|k: int| 0 <= k < out@.len() ==> out@[k] == spec[k],
                decreases stride - p,
            {
                proof {
                    let k: int = out@.len() as int;
                    lemma_row_col(orow as int, p as int, st);
                    assert(flip_byte(data@, res, horizontal, vertical, k) == 0);
                }
                out.push(0u8);
                p += 1;
            }
            assert(out@.len() == if (orow + 1) * st <= len { (orow + 1) * st } else { len as int });
        } else {
            let src_start: usize = src_row * stride;
            let mut j: usize = 0;
            while j < stride
                invariant
                    !horizontal,
                    vertical,
                    w == res.width,
                    h == res.height,
                    stride == w * 2,
                    st == stride,
                    len == data@.len(),
                    spec == flip_spec(data@, res, horizontal, vertical),
                    spec.len() == len,
                    orow < h,
                    src_row == h - 1 - orow,
                    src_start == src_row * st,
                    src_start + st <= len,
                    row_base == orow * st,
                    row_base + st <= h * st,
                    h * st <= len,
                    j <= stride,
                    out@.len() == row_base + j,
                    forall|k: int| 0 <= k < out@.len() ==> out@[k] == spec[k],
                decreases stride - j,
            {
                let b: u8 = data[src_start + j];
                proof {
                    let k: int = row_base + j;
                    lemma_row_col(orow as int, j as int, st);
                    assert(flip_byte(data@, res, horizontal, vertical, k) == data@[src_start + j]);
                }
                out.push(b);
                j += 1;
            }
        }
        orow += 1;
    }
    // Bytes past the last row stay zero.
    while out.len() < len
        invariant
            horizontal || vertical,
            w == res.width,
            h == res.height,
            stride == w * 2,
            st == stride,
            len == data@.len(),
            spec == flip_spec(data@, res, horizontal, vertical),
            spec.len() == len,
            out@.len() >= h * st || out@.len() == len,
            out@.len() <= len,
            forall|k: int| 0 <= k < out@.len() ==> out@[k] == spec[k],
        decreases len - out@.len(),
    {
        proof {
            let k: int = out@.len() as int;
            assert(flip_byte(data@, res, horizontal, vertical, k) == 0);
        }
        out.push(0u8);
    }
    assert(out@ =~= spec);
    out
}


// ---------------------------------------------------------------------------
// Admissibility checks
// ---------------------------------------------------------------------------

/// The aligned left edge and width of a crop.
pub fn aligned_crop(c: &CropRegion) -> (r: (u64, u64))
    ensures
        r.0 == crop_x(*c),
        r.1 == crop_width(*c),
{
    let x: u64 = c.x as u64;
    let w: u64 = c.width as u64 + x % 2;
    (x - x % 2, w - w % 2)
}

/// Whether `crop_uyvy` can run on `data_len` bytes of `src` with crop `c`
/// (see `crop_admissible`).
pub fn crop_is_admissible(data_len: u128, src: Resolution, c: &CropRegion) -> (r: bool)
    ensures
        r == crop_admissible(data_len as int, src, *c),
{
    let (ax, aw) = aligned_crop(c);
    let ax: u128 = ax as u128;
    let aw: u128 = aw as u128;
    let sw: u128 = src.width as u128;
    let y: u128 = c.y as u128;
    let h: u128 = c.height as u128;
    if c.width as u128 + (c.x as u128) % 2 > u32::MAX as u128 {
        return false;
    }
    if ax + aw > u32::MAX as u128 {
        return false;
    }
    if ax + aw <= sw && y + h > u32::MAX as u128 {
        return false;
    }
    let in_bounds: bool = ax + aw <= sw && y + h <= src.height as u128;
    let nonempty: bool = aw > 0 && h > 0;
    if in_bounds && nonempty {
        if sw * 2 > usize::MAX as u128 {
            return false;
        }
        assert((y + h - 1) * (sw * 2) <= 0xffff_ffff_u128 * 0x1_ffff_fffe_u128) by (nonlinear_arith)
            requires
                y + h <= 0xffff_ffff_u128,
                h > 0,
                sw <= 0xffff_ffff_u128,
        ;
        data_len >= (y + h - 1) * (sw * 2) + (ax + aw) * 2
    } else {
        true
    }
}

/// Whether `scale_uyvy_nearest` can run on `data_len` bytes from `src` to
/// `dst` (see `scale_admissible`).
pub fn scale_is_admissible(data_len: u128, src: Resolution, dst: Resolution) -> (r: bool)
    ensures
        r == scale_admissible(data_len as int, src, dst),
{
    let sw: u128 = src.width as u128;
    let sh: u128 = src.height as u128;
    let dw: u128 = dst.width as u128;
    let dh: u128 = dst.height as u128;
    if sw * 2 > usize::MAX as u128 || dw * 2 > usize::MAX as u128 {
        return false;
    }
    assert(dw * 2 * dh <= 0x1_ffff_fffe_u128 * 0xffff_ffff_u128) by (nonlinear_arith)
        requires
            dw <= 0xffff_ffff_u128,
            dh <= 0xffff_ffff_u128,
    ;
    if dw * 2 * dh > usize::MAX as u128 {
        return false;
    }
    if dh > 0 {
        assert((dh - 1) * sh <= 0xffff_ffff_u128 * 0xffff_ffff_u128) by (nonlinear_arith)
            requires
                dh <= 0xffff_ffff_u128,
                sh <= 0xffff_ffff_u128,
                dh > 0,
        ;
        let sy: u128 = (dh - 1) * sh / dh;
        proof {
            lemma_nn_coord_bounds(dh - 1, dh - 1, sh as int, dh as int);
            if sh == 0 {
                lemma_mul_by_zero_is_zero((dh - 1) as int);
            }
        }
        assert(sy <= sh);
        assert((sy + 1) * (sw * 2) <= 0x1_0000_0000_u128 * 0x1_ffff_fffe_u128) by (nonlinear_arith)
            requires
                sy <= 0xffff_ffff_u128,
                sw <= 0xffff_ffff_u128,
        ;
        if (sy + 1) * (sw * 2) > data_len {
            return false;
        }
        if dw / 2 > 0 && sw / 2 == 0 {
            return false;
        }
    }
    true
}

/// Whether `flip_uyvy` can run on `data_len` bytes of `res` (see
/// `flip_admissible`).
pub fn flip_is_admissible(data_len: u128, res: Resolution, horizontal: bool, vertical: bool) -> (r: bool)
    ensures
        r == flip_admissible(data_len as int, res, horizontal, vertical),
{
    let w: u128 = res.width as u128;
    let h: u128 = res.height as u128;
    if (horizontal || vertical) && w * 2 > usize::MAX as u128 {
        return false;
    }
    assert(h * (w * 2) <= 0xffff_ffff_u128 * 0x1_ffff_fffe_u128) by (nonlinear_arith)
        requires
            w <= 0xffff_ffff_u128,
            h <= 0xffff_ffff_u128,
    ;
    if horizontal && h > 0 && w / 2 > 0 {
        assert((h - 1) * (w * 2) <= h * (w * 2)) by (nonlinear_arith)
            requires
                h > 0,
        ;
        if data_len < (h - 1) * (w * 2) + (w / 2) * 4 {
            return false;
        }
    }
    if !horizontal && vertical && h > 0 && data_len < h * (w * 2) {
        return false;
    }
    true
}

// ---------------------------------------------------------------------------
// Laws
// ---------------------------------------------------------------------------

/// Flipping twice in the same directions gives back the original frame,
/// for a frame of even width whose data is exactly `width * 2 * height`
/// bytes.
pub proof fn lemma_flip_involution(data: Seq<u8>, res: Resolution, horizontal: bool, vertical: bool)
    requires
        res.width % 2 == 0,
        data.len() == res.width * 2 * res.height,
    ensures
        flip_spec(flip_spec(data, res, horizontal, vertical), res, horizontal, vertical) == data,
{
    if !horizontal && !vertical {
        return ;
    }
    let st = res.width * 2;
    let mw = (res.width / 2) as int;
    let h = res.height as int;
    let f1 = flip_spec(data, res, horizontal, vertical);
    let f2 = flip_spec(f1, res, horizontal, vertical);
    lemma_mul_is_commutative(st, h);
    assert forall|i: int| 0 <= i < data.len() implies f2[i] == data[i] by {
        let orow = i / st;
        let m = i % st;
        lemma_fundamental_div_mod(i, st);
        lemma_mod_pos_bound(i, st);
        lemma_div_pos_is_pos(i, st);
        lemma_multiply_divide_lt(i, st, h);
        let srow = if vertical {
            h - 1 - orow
        } else {
            orow
        };
        lemma_mul_inequality(srow + 1, h, st);
        lemma_mul_is_distributive_add_other_way(st, srow, 1);
        if horizontal {
            let mx = m / 4;
            let c = m % 4;
            lemma_fundamental_div_mod(m, 4);
            lemma_mod_pos_bound(m, 4);
            lemma_div_pos_is_pos(m, 4);
            lemma_multiply_divide_lt(m, 4, mw);
            let smx = mw - 1 - mx;
            let sc = mirrored_component(c);
            let j = srow * st + smx * 4 + sc;
            lemma_row_col(smx, sc, 4);
            lemma_row_col(srow, smx * 4 + sc, st);
            assert(f2[i] == f1[j]);
            assert(f1[j] == data[orow * st + mx * 4 + c]);
        } else {
            let j = srow * st + m;
            lemma_row_col(srow, m, st);
            assert(f2[i] == f1[j]);
        }
    }
    assert(f2 =~= data);
}

/// Cropping the whole frame gives back the frame, for a frame of even
/// width whose data is exactly `width * 2 * height` bytes.
pub proof fn lemma_crop_full_frame(data: Seq<u8>, res: Resolution)
    requires
        res.width % 2 == 0,
        data.len() == res.width * 2 * res.height,
    ensures
        ({
            let c = CropRegion { x: 0, y: 0, width: res.width, height: res.height };
            &&& crop_in_bounds(res, c)
            &&& crop_spec(data, res, c) == data
        }),
{
    let c = CropRegion { x: 0, y: 0, width: res.width, height: res.height };
    let st = res.width * 2;
    let s = crop_spec(data, res, c);
    assert(crop_x(c) == 0);
    assert(crop_width(c) == res.width);
    assert forall|i: int| 0 <= i < s.len() implies s[i] == data[i] by {
        assert(st > 0) by (nonlinear_arith)
            requires
                i < st * res.height,
                0 <= i,
        ;
        lemma_fundamental_div_mod(i, st);
        lemma_mul_is_commutative(i / st, st);
    }
    assert(s =~= data);
}

/// Scaling a frame to its own resolution gives back the frame, for a frame
/// of even width whose data is exactly `width * 2 * height` bytes.
pub proof fn lemma_scale_same_size(data: Seq<u8>, res: Resolution)
    requires
        res.width % 2 == 0,
        data.len() == res.width * 2 * res.height,
    ensures
        scale_spec(data, res, res) == data,
{
    let st = res.width * 2;
    let mw = (res.width / 2) as int;
    let s = scale_spec(data, res, res);
    assert forall|i: int| 0 <= i < s.len() implies s[i] == data[i] by {
        assert(st > 0 && res.height > 0) by (nonlinear_arith)
            requires
                i < st * res.height,
                0 <= i,
                st >= 0,
        ;
        let dy = i / st;
        let m = i % st;
        lemma_fundamental_div_mod(i, st);
        lemma_mul_is_commutative(dy, st);
        lemma_mul_is_commutative(m / 4, 4);
        lemma_mod_pos_bound(i, st);
        lemma_div_pos_is_pos(i, st);
        lemma_mul_is_commutative(st, res.height as int);
        lemma_multiply_divide_lt(i, st, res.height as int);
        lemma_div_by_multiple(dy, res.height as int);
        lemma_fundamental_div_mod(m, 4);
        lemma_mod_pos_bound(m, 4);
        lemma_div_pos_is_pos(m, 4);
        lemma_multiply_divide_lt(m, 4, mw);
        lemma_div_by_multiple(m / 4, mw);
        assert(scale_src_row(dy, res, res) == dy);
        assert(scale_src_macro(m / 4, res, res) == m / 4);
    }
    assert(s =~= data);
}

/// Nearest-neighbour sampling of a scaled frame: destination macro-pixel
/// `dxm` of destination row `dy` is a copy of source macro-pixel
/// `dxm * (src.width / 2) / (dst.width / 2)` of source row
/// `dy * src.height / dst.height`; the horizontal position depends on the
/// widths only and the vertical one on the heights only.
pub proof fn lemma_scale_samples(data: Seq<u8>, src: Resolution, dst: Resolution, dy: int, dxm: int, k: int)
    requires
        0 <= dy < dst.height,
        0 <= dxm < dst.width / 2,
        0 <= k < 4,
    ensures
        dy * (dst.width * 2) + dxm * 4 + k < scale_spec(data, src, dst).len(),
        scale_spec(data, src, dst)[dy * (dst.width * 2) + dxm * 4 + k] == data[(dy * src.height
            / (dst.height as int)) * (src.width * 2) + (dxm * (src.width / 2) / ((dst.width / 2) as int))
            * 4 + k],
{
    let rb = dst.width * 2;
    let m = dxm * 4 + k;
    let i = dy * rb + m;
    assert(m < (dst.width / 2) * 4);
    assert(m < rb);
    lemma_row_col(dy, m, rb);
    lemma_row_col(dxm, k, 4);
    assert(i < rb * dst.height) by (nonlinear_arith)
        requires
            i == dy * rb + m,
            m < rb,
            rb >= 0,
            0 <= dy < dst.height,
    ;
    lemma_mul_is_commutative(rb, dst.height as int);
}

/// Halving the width at the same height keeps every second macro-pixel of
/// each row: destination macro-pixel `dxm` of row `dy` is source
/// macro-pixel `2 * dxm` of row `dy`.
pub proof fn lemma_scale_half_width(data: Seq<u8>, src: Resolution, dst: Resolution, dy: int, dxm: int, k: int)
    requires
        src.width == 2 * dst.width,
        dst.width % 2 == 0,
        src.height == dst.height,
        0 <= dy < dst.height,
        0 <= dxm < dst.width / 2,
        0 <= k < 4,
    ensures
        scale_spec(data, src, dst)[dy * (dst.width * 2) + dxm * 4 + k] == data[dy * (src.width * 2)
            + (2 * dxm) * 4 + k],
{
    lemma_scale_samples(data, src, dst, dy, dxm, k);
    let hw = (dst.width / 2) as int;
    assert(src.width / 2 == 2 * hw);
    assert(dxm * (2 * hw) == (2 * dxm) * hw) by (nonlinear_arith);
    lemma_div_by_multiple(2 * dxm, hw);
    lemma_div_by_multiple(dy, dst.height as int);
}

} // verus!
