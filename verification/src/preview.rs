//! Preview image production: nearest-neighbour RGB scaling, JPEG encoding
//! and UYVY → NV12 conversion.
use image::codecs::jpeg::JpegEncoder;
use image::{ExtendedColorType, ImageEncoder};
use vstd::prelude::*;
#[allow(unused_imports)]
use vstd::arithmetic::div_mod::*;
#[allow(unused_imports)]
use vstd::arithmetic::mul::*;

use crate::config::PreviewConfig;
use crate::error::Error;
use crate::transform::{lemma_nn_coord_bounds, lemma_row_col, nn_coord};

verus! {

// ---------------------------------------------------------------------------
// Nearest-neighbour RGB scale
// ---------------------------------------------------------------------------

/// Index of the first byte of the source pixel that destination pixel
/// `(dx, dy)` samples.
pub open spec fn nn_source_pixel(dx: int, dy: int, src_w: u32, src_h: u32, dst_w: u32, dst_h: u32) -> int {
    (nn_coord(dy, src_h as int, dst_h as int) * src_w + nn_coord(dx, src_w as int, dst_w as int)) * 3
}

/// The destination size fits in `u32`, and the source holds every pixel
/// the scale samples (the last one sampled is that of the bottom-right
/// destination pixel).
pub open spec fn nn_scale_admissible(src_len: int, src_w: u32, src_h: u32, dst_w: u32, dst_h: u32) -> bool {
    &&& dst_w * dst_h * 3 <= u32::MAX
    &&& dst_w > 0 && dst_h > 0 ==> nn_source_pixel(dst_w - 1, dst_h - 1, src_w, src_h, dst_w, dst_h)
        + 3 <= src_len
}

/// Whether `nearest_neighbor_scale` can run (see `nn_scale_admissible`).
pub fn nn_scale_is_admissible(src_len: u128, src_w: u32, src_h: u32, dst_w: u32, dst_h: u32) -> (r: bool)
    ensures
        r == nn_scale_admissible(src_len as int, src_w, src_h, dst_w, dst_h),
{
    let sw: u128 = src_w as u128;
    let sh: u128 = src_h as u128;
    let dw: u128 = dst_w as u128;
    let dh: u128 = dst_h as u128;
    assert(dw * dh * 3 <= 0xffff_ffff_u128 * 0xffff_ffff_u128 * 3) by (nonlinear_arith)
        requires
            dw <= 0xffff_ffff_u128,
            dh <= 0xffff_ffff_u128,
    ;
    if dw * dh * 3 > u32::MAX as u128 {
        return false;
    }
    if dw > 0 && dh > 0 {
        assert((dh - 1) * sh <= 0xffff_ffff_u128 * 0xffff_ffff_u128) by (nonlinear_arith)
            requires
                dh <= 0xffff_ffff_u128,
                sh <= 0xffff_ffff_u128,
                dh > 0,
        ;
        assert((dw - 1) * sw <= 0xffff_ffff_u128 * 0xffff_ffff_u128) by (nonlinear_arith)
            requires
                dw <= 0xffff_ffff_u128,
                sw <= 0xffff_ffff_u128,
                dw > 0,
        ;
        let sy: u128 = (dh - 1) * sh / dh;
        let sx: u128 = (dw - 1) * sw / dw;
        proof {
            lemma_nn_coord_bounds(dh - 1, dh - 1, sh as int, dh as int);
            lemma_nn_coord_bounds(dw - 1, dw - 1, sw as int, dw as int);
            if sh == 0 {
                lemma_mul_by_zero_is_zero((dh - 1) as int);
            }
            if sw == 0 {
                lemma_mul_by_zero_is_zero((dw - 1) as int);
            }
        }
        assert(sy * sw <= 0xffff_ffff_u128 * 0xffff_ffff_u128) by (nonlinear_arith)
            requires
                sy <= 0xffff_ffff_u128,
                sw <= 0xffff_ffff_u128,
        ;
        (sy * sw + sx) * 3 + 3 <= src_len
    } else {
        true
    }
}

/// Whether `uyvy_to_nv12` can run (see `nv12_admissible`).
pub fn nv12_is_admissible(data_len: u128, width: u32, height: u32) -> (r: bool)
    ensures
        r == nv12_admissible(data_len as int, width, height),
{
    let w: u128 = width as u128;
    let h: u128 = height as u128;
    assert(w * 2 * h <= 0x1_ffff_fffe_u128 * 0xffff_ffff_u128) by (nonlinear_arith)
        requires
            w <= 0xffff_ffff_u128,
            h <= 0xffff_ffff_u128,
    ;
    data_len >= w * 2 * h && w * 2 <= usize::MAX as u128 && (!(w > 0 && h > 0) || (w % 2 == 0 && h
        % 2 == 0))
}

/// The scaled RGB image: each destination pixel copies the three bytes of
/// the source pixel it samples.
pub open spec fn nn_scale_spec(src: Seq<u8>, src_w: u32, src_h: u32, dst_w: u32, dst_h: u32) -> Seq<u8> {
    Seq::new(
        (dst_w * dst_h * 3) as nat,
        |i: int|
            src[nn_source_pixel((i / 3) % (dst_w as int), (i / 3) / (dst_w as int), src_w, src_h, dst_w, dst_h) + i
                % 3],
    )
}

/// Nearest-neighbor scale RGB data.
pub fn nearest_neighbor_scale(src: &[u8], src_w: u32, src_h: u32, dst_w: u32, dst_h: u32) -> (r: Vec<u8>)
    requires
        nn_scale_admissible(src@.len() as int, src_w, src_h, dst_w, dst_h),
    ensures
        r@ == nn_scale_spec(src@, src_w, src_h, dst_w, dst_h),
{
    let ghost spec = nn_scale_spec(src@, src_w, src_h, dst_w, dst_h);
    let ghost dw: int = dst_w as int;
    let mut dst: Vec<u8> = Vec::new();
    let mut dy: u32 = 0;
    while dy < dst_h
        invariant
            nn_scale_admissible(src@.len() as int, src_w, src_h, dst_w, dst_h),
            spec == nn_scale_spec(src@, src_w, src_h, dst_w, dst_h),
            dw == dst_w,
            dy <= dst_h,
            dst@.len() == dy * dw * 3,
            forall|k: int| 0 <= k < dst@.len() ==> dst@[k] == spec[k],
        decreases dst_h - dy,
    {
        let mut dx: u32 = 0;
        while dx < dst_w
            invariant
                nn_scale_admissible(src@.len() as int, src_w, src_h, dst_w, dst_h),
                spec == nn_scale_spec(src@, src_w, src_h, dst_w, dst_h),
                dw == dst_w,
                dy < dst_h,
                dx <= dst_w,
                dst@.len() == (dy * dw + dx) * 3,
                forall|k: int| 0 <= k < dst@.len() ==> dst@[k] == spec[k],
            decreases dst_w - dx,
        {
            proof {
                lemma_nn_coord_bounds(dx as int, dw - 1, src_w as int, dw);
                lemma_nn_coord_bounds(dy as int, dst_h - 1, src_h as int, dst_h as int);
                let sy = nn_coord(dy as int, src_h as int, dst_h as int);
                let sy_max = nn_coord(dst_h - 1, src_h as int, dst_h as int);
                lemma_mul_inequality(sy, sy_max, src_w as int);
                lemma_mul_nonnegative(sy, src_w as int);
            }
            assert((dx as u64) * (src_w as u64) <= 0xffff_ffff_u64 * 0xffff_ffff_u64) by (nonlinear_arith)
                requires
                    dx <= 0xffff_ffff_u64,
                    src_w <= 0xffff_ffff_u64,
            ;
            assert((dy as u64) * (src_h as u64) <= 0xffff_ffff_u64 * 0xffff_ffff_u64) by (nonlinear_arith)
                requires
                    dy <= 0xffff_ffff_u64,
                    src_h <= 0xffff_ffff_u64,
            ;
            let sx64: u64 = dx as u64 * src_w as u64 / dst_w as u64;
            let sy64: u64 = dy as u64 * src_h as u64 / dst_h as u64;
            proof {
                let sy_max = nn_coord(dst_h - 1, src_h as int, dst_h as int);
                let sx_max = nn_coord(dw - 1, src_w as int, dw);
                assert(sx64 == nn_coord(dx as int, src_w as int, dw));
                assert(sy64 == nn_coord(dy as int, src_h as int, dst_h as int));
                assert(sx64 <= sx_max);
                assert(sy64 <= sy_max);
                if src_w == 0 {
                    lemma_mul_by_zero_is_zero(dx as int);
                }
                if src_h == 0 {
                    lemma_mul_by_zero_is_zero(dy as int);
                }
                assert(sx64 <= src_w);
                assert(sy64 <= src_h);
                lemma_mul_inequality(sy64 as int, sy_max, src_w as int);
                assert((sy64 * src_w + sx64) * 3 + 3 <= (sy_max * src_w + sx_max) * 3 + 3);
                assert((sy64 * src_w + sx64) * 3 + 3 <= src@.len());
            }
            let sx: usize = sx64 as usize;
            let sy: usize = sy64 as usize;
            assert((sy as int) * (src_w as int) + sx <= src.len());
            let si: usize = (sy * src_w as usize + sx) * 3;
            let ghost before = dst@;
            let mut c: usize = 0;
            while c < 3
                invariant
                    spec == nn_scale_spec(src@, src_w, src_h, dst_w, dst_h),
                    dw == dst_w,
                    dy < dst_h,
                    dx < dst_w,
                    si == nn_source_pixel(dx as int, dy as int, src_w, src_h, dst_w, dst_h),
                    si + 3 <= src.len(),
                    c <= 3,
                    dst@.len() == (dy * dw + dx) * 3 + c,
                    forall|k: int| 0 <= k < dst@.len() ==> dst@[k] == spec[k],
                decreases 3 - c,
            {
                proof {
                    let p: int = dy * dw + dx;
                    let k: int = p * 3 + c;
                    lemma_row_col(p, c as int, 3);
                    lemma_row_col(dy as int, dx as int, dw);
                    assert(p < dw * dst_h) by (nonlinear_arith)
                        requires
                            p == dy * dw + dx,
                            dx < dw,
                            dy < dst_h,
                    ;
                    assert(k < spec.len()) by (nonlinear_arith)
                        requires
                            k == p * 3 + c,
                            c < 3,
                            p < dw * dst_h,
                            spec.len() == dw * dst_h * 3,
                    ;
                }
                dst.push(src[si + c]);
                c += 1;
            }
            dx += 1;
        }
        assert((dy * dw + dw) * 3 == (dy + 1) * dw * 3) by (nonlinear_arith);
        dy += 1;
    }
    assert(dst_h * dw * 3 == dw * dst_h * 3) by (nonlinear_arith);
    assert(dst@ =~= spec);
    dst
}

/// Nearest-neighbour sampling of the preview: destination pixel `(dx, dy)`
/// is a copy of the three bytes of source pixel
/// `(dx * src_w / dst_w, dy * src_h / dst_h)`, with rows kept top to bottom
/// and columns left to right.
pub proof fn lemma_nn_scale_samples(
    src: Seq<u8>,
    src_w: u32,
    src_h: u32,
    dst_w: u32,
    dst_h: u32,
    dx: int,
    dy: int,
    c: int,
)
    requires
        0 <= dx < dst_w,
        0 <= dy < dst_h,
        0 <= c < 3,
    ensures
        (dy * dst_w + dx) * 3 + c < nn_scale_spec(src, src_w, src_h, dst_w, dst_h).len(),
        nn_scale_spec(src, src_w, src_h, dst_w, dst_h)[(dy * dst_w + dx) * 3 + c] == src[((dy * src_h
            / (dst_h as int)) * src_w + dx * src_w / (dst_w as int)) * 3 + c],
{
    let p = dy * dst_w + dx;
    lemma_row_col(dy, dx, dst_w as int);
    lemma_row_col(p, c, 3);
    assert(p < dst_w * dst_h) by (nonlinear_arith)
        requires
            p == dy * dst_w + dx,
            0 <= dx < dst_w,
            0 <= dy < dst_h,
    ;
}

/// Scaling an RGB image to its own size gives it back unchanged.
pub proof fn lemma_nn_scale_same_size(src: Seq<u8>, w: u32, h: u32)
    requires
        src.len() == w * h * 3,
    ensures
        nn_scale_spec(src, w, h, w, h) == src,
{
    let s = nn_scale_spec(src, w, h, w, h);
    assert forall|i: int| 0 <= i < s.len() implies s[i] == src[i] by {
        assert(w > 0 && h > 0) by (nonlinear_arith)
            requires
                0 <= i < w * h * 3,
        ;
        let p = i / 3;
        let dx = p % (w as int);
        let dy = p / (w as int);
        lemma_fundamental_div_mod(i, 3);
        lemma_mod_pos_bound(i, 3);
        lemma_div_pos_is_pos(i, 3);
        lemma_fundamental_div_mod(p, w as int);
        lemma_mod_pos_bound(p, w as int);
        lemma_div_pos_is_pos(p, w as int);
        lemma_mul_is_commutative(dy, w as int);
        lemma_mul_is_commutative(p, 3);
        assert(p < w * h) by (nonlinear_arith)
            requires
                0 <= i < w * h * 3,
                p == i / 3,
                i == 3 * p + i % 3,
                0 <= i % 3,
        ;
        assert(dy < h) by (nonlinear_arith)
            requires
                p == w * dy + dx,
                0 <= dx,
                p < w * h,
                w > 0,
        ;
        lemma_nn_scale_samples(src, w, h, w, h, dx, dy, i % 3);
        lemma_div_by_multiple(dy, h as int);
        lemma_div_by_multiple(dx, w as int);
        lemma_mul_is_commutative(dx, w as int);
    }
    assert(s =~= src);
}

// ---------------------------------------------------------------------------
// JPEG
// ---------------------------------------------------------------------------

/// What `image`'s baseline JPEG encoder produces for an 8-bit RGB buffer of
/// the given size at the given quality: the encoded bytes, or the text of
/// the error it reports.
pub uninterp spec fn jpeg_encoding(rgb: Seq<u8>, width: u32, height: u32, quality: u8) -> Result<
    Seq<u8>,
    Seq<char>,
>;

/// The outcome of an encoder call as plain values.
pub open spec fn jpeg_outcome(r: Result<Vec<u8>, String>) -> Result<Seq<u8>, Seq<char>> {
    match r {
        Ok(v) => Ok(v@),
        Err(m) => Err(m@),
    }
}

/// A JPEG stream framed by the SOI (`FF D8`) and EOI (`FF D9`) markers.
pub open spec fn jpeg_markers(b: Seq<u8>) -> bool {
    &&& b.len() >= 4
    &&& b[0] == 0xFF
    &&& b[1] == 0xD8
    &&& b[b.len() - 2] == 0xFF
    &&& b[b.len() - 1] == 0xD9
}

/// JPEG can hold images of 1 to 65535 pixels in each direction.
pub open spec fn jpeg_size_supported(width: u32, height: u32) -> bool {
    1 <= width <= 65535 && 1 <= height <= 65535
}

/// Encode an RGB8 buffer as JPEG with `image::codecs::jpeg::JpegEncoder`
/// (`new_with_quality`, then `ImageEncoder::write_image` into a `Vec`).
///
/// Claimed of the encoder, as its source shows: it panics unless the
/// buffer holds `width * height * 3` bytes (excluded here); it fails exactly
/// when a side is 0 or above 65535; writing into a `Vec` does not fail
/// otherwise; a successful encoding starts with the SOI marker `FF D8` and
/// ends with the EOI marker `FF D9`. The encoded bytes and the error text
/// are otherwise only named (`jpeg_encoding`), not described.
#[verifier::external_body]
fn encode_jpeg_rgb8(rgb: &[u8], width: u32, height: u32, quality: u8) -> (r: Result<Vec<u8>, String>)
    requires
        rgb@.len() == width * height * 3,
    ensures
        jpeg_outcome(r) == jpeg_encoding(rgb@, width, height, quality),
        r is Ok <==> jpeg_size_supported(width, height),
        r matches Ok(v) ==> jpeg_markers(v@),
{
    let mut buf: Vec<u8> = Vec::new();
    let encoder = JpegEncoder::new_with_quality(&mut buf, quality);
    match encoder.write_image(rgb, width, height, ExtendedColorType::Rgb8) {
        Ok(()) => Ok(buf),
        Err(e) => Err(e.to_string()),
    }
}

/// The preview result for an encoder outcome: the JPEG bytes, or a pipeline
/// error "JPEG encode error: " followed by the encoder's message.
pub fn preview_from_jpeg_result(r: Result<Vec<u8>, String>) -> (p: Result<Vec<u8>, Error>)
    ensures
        r matches Ok(v) ==> (p matches Ok(w) && w@ == v@),
        r matches Err(m) ==> (p matches Err(Error::Pipeline(e)) && e@ == "JPEG encode error: "@
            + m@),
{
    match r {
        Ok(v) => Ok(v),
        Err(m) => Err(Error::Pipeline(String::from_str("JPEG encode error: ").concat(m.as_str()))),
    }
}

/// Encode an RGB image as a JPEG preview: scale it to the preview size by
/// nearest-neighbour sampling, then encode at the preview's quality.
pub fn encode_rgb_preview(rgb: &[u8], src_w: u32, src_h: u32, config: &PreviewConfig) -> (r: Result<
    Vec<u8>,
    Error,
>)
    requires
        nn_scale_admissible(rgb@.len() as int, src_w, src_h, config.width, config.height),
    ensures
        r is Ok <==> jpeg_size_supported(config.width, config.height),
        ({
            let scaled = nn_scale_spec(rgb@, src_w, src_h, config.width, config.height);
            let enc = jpeg_encoding(scaled, config.width, config.height, config.jpeg_quality);
            &&& r matches Ok(v) ==> enc == Ok::<Seq<u8>, Seq<char>>(v@)
            &&& r matches Err(e) ==> (e matches Error::Pipeline(m) && enc matches Err(em) && m@
                == "JPEG encode error: "@ + em)
        }),
        r matches Ok(v) ==> v@.len() >= 4 && v@[0] == 0xFF && v@[1] == 0xD8,
{
    let scaled = nearest_neighbor_scale(rgb, src_w, src_h, config.width, config.height);
    let encoded = encode_jpeg_rgb8(scaled.as_slice(), config.width, config.height, config.jpeg_quality);
    preview_from_jpeg_result(encoded)
}

// ---------------------------------------------------------------------------
// UYVY → NV12
// ---------------------------------------------------------------------------

/// The conversion reads whole UYVY rows, so the data must hold every row;
/// a non-empty frame must have an even width and height (two pixels per
/// macro-pixel, two rows per chroma row); the NV12 buffer fits in `usize`.
pub open spec fn nv12_admissible(data_len: int, width: u32, height: u32) -> bool {
    &&& data_len >= width * 2 * height
    &&& width * 2 <= usize::MAX
    &&& width > 0 && height > 0 ==> width % 2 == 0 && height % 2 == 0
}

/// Byte `i` of the NV12 image. The luma plane (`width * height` bytes)
/// takes both luma samples of every macro-pixel: luma byte `i` is UYVY byte
/// `2 * i + 1`. The interleaved chroma plane (`width * (height / 2)` bytes)
/// takes U and V from every even source row: chroma row `r`, byte `x` is
/// byte `2 * x` of source row `2 * r`.
pub open spec fn nv12_byte(data: Seq<u8>, width: int, height: int, i: int) -> u8 {
    if i < width * height {
        data[2 * i + 1]
    } else {
        let j = i - width * height;
        data[(2 * (j / width)) * (width * 2) + 2 * (j % width)]
    }
}

/// The NV12 image of a UYVY frame.
pub open spec fn nv12_spec(data: Seq<u8>, width: u32, height: u32) -> Seq<u8> {
    Seq::new(
        (width * height + width * (height / 2)) as nat,
        |i: int| nv12_byte(data, width as int, height as int, i),
    )
}

/// Convert UYVY 4:2:2 pixel data to NV12 4:2:0.
///
/// NV12 layout: Y plane (width*height bytes), followed by interleaved UV plane
/// (width*height/2 bytes, subsampled vertically by 2).
pub fn uyvy_to_nv12(data: &[u8], width: u32, height: u32) -> (r: Vec<u8>)
    requires
        nv12_admissible(data@.len() as int, width, height),
    ensures
        r@ == nv12_spec(data@, width, height),
{
    let ghost spec = nv12_spec(data@, width, height);
    let ghost wi: int = width as int;
    let ghost hi: int = height as int;
    let w: usize = width as usize;
    let h: usize = height as usize;
    proof {
        lemma_mul_is_commutative(wi, hi);
        assert(wi * hi * 2 == wi * 2 * hi) by (nonlinear_arith);
    }
    assert(wi * hi <= data@.len()) by (nonlinear_arith)
        requires
            wi * 2 * hi <= data@.len(),
            wi >= 0,
            hi >= 0,
    ;
    assert((w as int) * (h as int) <= data.len());
    let y_size: usize = w * h;
    let mut nv12: Vec<u8> = Vec::new();
    // Y plane
    let mut i: usize = 0;
    while i < y_size
        invariant
            spec == nv12_spec(data@, width, height),
            wi == width,
            hi == height,
            y_size == wi * hi,
            wi * hi * 2 <= data.len(),
            spec.len() == wi * hi + wi * (hi / 2),
            i <= y_size,
            nv12@.len() == i,
            forall|k: int| 0 <= k < nv12@.len() ==> nv12@[k] == spec[k],
        decreases y_size - i,
    {
        assert(spec[i as int] == data@[2 * i + 1]);
        nv12.push(data[2 * i + 1]);
        i += 1;
    }
    // UV plane: chroma from every even source row
    let half_h: usize = h / 2;
    let mut r2: usize = 0;
    while r2 < half_h
        invariant
            nv12_admissible(data@.len() as int, width, height),
            spec == nv12_spec(data@, width, height),
            w == wi,
            h == hi,
            wi == width,
            hi == height,
            y_size == wi * hi,
            spec.len() == wi * hi + wi * (hi / 2),
            half_h == hi / 2,
            r2 <= half_h,
            nv12@.len() == y_size + r2 * wi,
            forall|k: int| 0 <= k < nv12@.len() ==> nv12@[k] == spec[k],
        decreases half_h - r2,
    {
        proof {
            assert((2 * r2 + 1) * (wi * 2) <= wi * 2 * hi) by (nonlinear_arith)
                requires
                    r2 < hi / 2,
                    wi >= 0,
                    hi >= 0,
            ;
            assert((r2 + 1) * wi <= wi * (hi / 2)) by (nonlinear_arith)
                requires
                    r2 < hi / 2,
                    wi >= 0,
            ;
            assert(2 * (r2 as int) * ((w as int) * 2) + (w as int) * 2 <= data.len()) by (nonlinear_arith)
                requires
                    (2 * r2 + 1) * (wi * 2) <= wi * 2 * hi,
                    wi * 2 * hi <= data.len(),
                    w == wi,
            ;
        }
        let row_start: usize = 2 * r2 * (w * 2);
        let mut x: usize = 0;
        while x < w
            invariant
                spec == nv12_spec(data@, width, height),
                w == wi,
                wi == width,
                hi == height,
                y_size == wi * hi,
                spec.len() == wi * hi + wi * (hi / 2),
                r2 < hi / 2,
                row_start == (2 * r2) * (wi * 2),
                row_start + wi * 2 <= data.len(),
                (r2 + 1) * wi <= wi * (hi / 2),
                x <= w,
                nv12@.len() == y_size + r2 * wi + x,
                forall|k: int| 0 <= k < nv12@.len() ==> nv12@[k] == spec[k],
            decreases w - x,
        {
            proof {
                let j: int = r2 * wi + x;
                lemma_row_col(r2 as int, x as int, wi);
                assert(j < wi * (hi / 2)) by (nonlinear_arith)
                    requires
                        j == r2 * wi + x,
                        x < wi,
                        (r2 + 1) * wi <= wi * (hi / 2),
                ;
                assert(nv12@.len() < spec.len());
            }
            nv12.push(data[row_start + 2 * x]);
            x += 1;
        }
        assert(y_size + r2 * wi + wi == y_size + (r2 + 1) * wi) by (nonlinear_arith);
        r2 += 1;
    }
    assert(nv12@.len() == spec.len()) by (nonlinear_arith)
        requires
            nv12@.len() == y_size + half_h * wi,
            half_h == hi / 2,
            y_size == wi * hi,
            spec.len() == wi * hi + wi * (hi / 2),
    ;
    assert(nv12@ =~= spec);
    nv12
}

} // verus!
