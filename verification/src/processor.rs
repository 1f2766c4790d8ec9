//! Per-output frame processing: crop, then scale, then flip.
use std::sync::Arc;
use vstd::prelude::*;

use crate::error::Error;
use crate::frame::{expected_size_spec, share_data, Frame};
use crate::transform::{
    aligned_crop, crop_admissible, crop_bounds_message, crop_in_bounds, crop_is_admissible, flip_is_admissible,
    lemma_scale_same_size, scale_is_admissible, crop_nonempty, crop_spec, crop_uyvy, crop_width, flip_admissible, flip_spec,
    flip_uyvy, scale_admissible, scale_spec, scale_uyvy_nearest,
};
use crate::types::{OutputTransform, PixelFormat, Resolution};

verus! {

/// Data and resolution after the crop stage: the cropped bytes at the
/// width `crop_uyvy` cuts (the crop aligned to pixel pairs), or the input
/// unchanged when no crop is set.
pub open spec fn cropped_stage(data: Seq<u8>, res: Resolution, t: OutputTransform) -> (Seq<u8>, Resolution) {
    match t.crop {
        Some(c) => (
            crop_spec(data, res, c),
            Resolution { width: crop_width(c) as u32, height: c.height },
        ),
        None => (data, res),
    }
}

/// Data after the scale stage, which runs only when the cropped resolution
/// differs from the output resolution.
pub open spec fn scaled_stage(data: Seq<u8>, res: Resolution, t: OutputTransform, out: Resolution) -> Seq<u8> {
    let (d1, r1) = cropped_stage(data, res, t);
    if r1 != out {
        scale_spec(d1, r1, out)
    } else {
        d1
    }
}

/// The processed frame data: crop, scale to the output resolution, flip.
pub open spec fn process_spec(data: Seq<u8>, res: Resolution, t: OutputTransform, out: Resolution) -> Seq<u8> {
    flip_spec(scaled_stage(data, res, t, out), out, t.flip.horizontal, t.flip.vertical)
}

/// The crop stage succeeds: no crop, or an aligned crop inside the source
/// with non-zero size.
pub open spec fn process_succeeds(res: Resolution, t: OutputTransform) -> bool {
    match t.crop {
        Some(c) => crop_in_bounds(res, c) && crop_nonempty(c),
        None => true,
    }
}

/// Each stage that runs is given data it can process without a panic.
pub open spec fn process_admissible(data: Seq<u8>, res: Resolution, t: OutputTransform, out: Resolution) -> bool {
    let (d1, r1) = cropped_stage(data, res, t);
    &&& t.crop matches Some(c) ==> crop_admissible(data.len() as int, res, c)
    &&& process_succeeds(res, t) ==> {
        &&& r1 != out ==> scale_admissible(d1.len() as int, r1, out)
        &&& flip_admissible(
            scaled_stage(data, res, t, out).len() as int,
            out,
            t.flip.horizontal,
            t.flip.vertical,
        )
    }
}

/// Whether `GpuProcessor::process` can run on this frame, transform and
/// output resolution (see `process_admissible`).
pub fn process_is_admissible(input: &Frame, transform: &OutputTransform, output_resolution: Resolution) -> (r:
    bool)
    ensures
        r == process_admissible(input.data@, input.resolution, *transform, output_resolution),
{
    let len: u128 = input.data.len() as u128;
    let res = input.resolution;
    // Data length and resolution after the crop stage.
    let (d1, r1): (u128, Resolution) = match &transform.crop {
        Some(c) => {
            if !crop_is_admissible(len, res, c) {
                return false;
            }
            let (ax, aw) = aligned_crop(c);
            if !(ax as u128 + aw as u128 <= res.width as u128 && c.y as u128 + c.height as u128
                <= res.height as u128 && aw > 0 && c.height > 0) {
                // The crop fails, so no later stage runs.
                return true;
            }
            assert((aw as u128) * 2 * (c.height as u128) <= 0x1_ffff_fffe_u128 * 0xffff_ffff_u128)
                by (nonlinear_arith)
                requires
                    aw <= 0xffff_ffff_u64,
                    c.height <= 0xffff_ffff_u32,
            ;
            ((aw as u128) * 2 * (c.height as u128), Resolution { width: aw as u32, height: c.height })
        },
        None => (len, res),
    };
    let out = output_resolution;
    let d2: u128 = if r1 != out {
        if !scale_is_admissible(d1, r1, out) {
            return false;
        }
        assert((out.width as u128) * 2 * (out.height as u128) <= 0x1_ffff_fffe_u128 * 0xffff_ffff_u128)
            by (nonlinear_arith)
            requires
                out.width <= 0xffff_ffff_u32,
                out.height <= 0xffff_ffff_u32,
        ;
        (out.width as u128) * 2 * (out.height as u128)
    } else {
        d1
    };
    flip_is_admissible(d2, out, transform.flip.horizontal, transform.flip.vertical)
}

/// Whether CUDA processing is available. This build carries no CUDA
/// support, so frames are always processed on the CPU.
pub fn is_cuda_available() -> (r: bool)
    ensures
        !r,
{
    false
}

/// Frame processor for per-output transformation (CPU implementation).
pub struct GpuProcessor {}

impl GpuProcessor {
    /// A processor using the CPU transforms.
    pub fn new() -> (p: Self) {
        GpuProcessor {  }
    }

    /// Apply crop → scale → flip transform to a frame.
    ///
    /// Only UYVY pixel format is supported. The output frame has the
    /// specified `output_resolution` and the same pixel format.
    pub fn process(&self, input: &Frame, transform: &OutputTransform, output_resolution: Resolution) -> (r:
        Result<Frame, Error>)
        requires
            input.format == PixelFormat::Uyvy,
            process_admissible(input.data@, input.resolution, *transform, output_resolution),
        ensures
            r is Ok <==> process_succeeds(input.resolution, *transform),
            r matches Ok(f) ==> {
                &&& f.data@ == process_spec(
                    input.data@,
                    input.resolution,
                    *transform,
                    output_resolution,
                )
                &&& f.resolution == output_resolution
                &&& f.format == input.format
                &&& f.timestamp_ns == input.timestamp_ns
                &&& f.sequence == input.sequence
                &&& input.data@.len() == expected_size_spec(input.resolution, PixelFormat::Uyvy)
                    ==> f.data@.len() == expected_size_spec(output_resolution, PixelFormat::Uyvy)
            },
            transform.crop matches Some(c) ==> {
                &&& !crop_in_bounds(input.resolution, c) ==> (r matches Err(Error::Gpu(m)) && m@
                    == crop_bounds_message(input.resolution, c))
                &&& crop_in_bounds(input.resolution, c) && !crop_nonempty(c) ==> (r matches Err(
                    Error::Gpu(m),
                ) && m@ == "crop region has zero dimension"@)
            },
    {
        self.process_cpu(input, transform, output_resolution)
    }

    fn process_cpu(&self, input: &Frame, transform: &OutputTransform, output_resolution: Resolution) -> (r:
        Result<Frame, Error>)
        requires
            process_admissible(input.data@, input.resolution, *transform, output_resolution),
        ensures
            r is Ok <==> process_succeeds(input.resolution, *transform),
            r matches Ok(f) ==> {
                &&& f.data@ == process_spec(
                    input.data@,
                    input.resolution,
                    *transform,
                    output_resolution,
                )
                &&& f.resolution == output_resolution
                &&& f.format == input.format
                &&& f.timestamp_ns == input.timestamp_ns
                &&& f.sequence == input.sequence
                &&& input.data@.len() == expected_size_spec(input.resolution, PixelFormat::Uyvy)
                    ==> f.data@.len() == expected_size_spec(output_resolution, PixelFormat::Uyvy)
            },
            transform.crop matches Some(c) ==> {
                &&& !crop_in_bounds(input.resolution, c) ==> (r matches Err(Error::Gpu(m)) && m@
                    == crop_bounds_message(input.resolution, c))
                &&& crop_in_bounds(input.resolution, c) && !crop_nonempty(c) ==> (r matches Err(
                    Error::Gpu(m),
                ) && m@ == "crop region has zero dimension"@)
            },
    {
        let ghost stage1 = cropped_stage(input.data@, input.resolution, *transform);
        // `None` while the data is still the input's own buffer.
        let mut owned: Option<Vec<u8>> = None;
        let mut current_res: Resolution = input.resolution;

        // 1. Crop
        if let Some(crop) = &transform.crop {
            let cropped = crop_uyvy(input.data.as_slice(), current_res, crop);
            match cropped {
                Ok(v) => {
                    owned = Some(v);
                },
                Err(e) => {
                    return Err(e);
                },
            }
            let (_, aw) = aligned_crop(crop);
            current_res = Resolution { width: aw as u32, height: crop.height };
        }
        assert(current_res == stage1.1);
        assert(match owned {
            Some(v) => v@ == stage1.0,
            None => input.data@ == stage1.0,
        });

        // 2. Scale (only if resolution differs)
        if current_res != output_resolution {
            let scaled = match &owned {
                Some(v) => scale_uyvy_nearest(v.as_slice(), current_res, output_resolution),
                None => scale_uyvy_nearest(input.data.as_slice(), current_res, output_resolution),
            };
            owned = Some(scaled);
            current_res = output_resolution;
        }
        let ghost stage2 = scaled_stage(input.data@, input.resolution, *transform, output_resolution);
        assert(match owned {
            Some(v) => v@ == stage2,
            None => input.data@ == stage2,
        });

        // 3. Flip
        if transform.flip.horizontal || transform.flip.vertical {
            let flipped = match &owned {
                Some(v) => flip_uyvy(
                    v.as_slice(),
                    current_res,
                    transform.flip.horizontal,
                    transform.flip.vertical,
                ),
                None => flip_uyvy(
                    input.data.as_slice(),
                    current_res,
                    transform.flip.horizontal,
                    transform.flip.vertical,
                ),
            };
            owned = Some(flipped);
        }

        proof {
            if input.data@.len() == expected_size_spec(input.resolution, PixelFormat::Uyvy) {
                lemma_process_len(input.data@, input.resolution, *transform, output_resolution);
            }
        }
        let out_data: Arc<Vec<u8>> = match owned {
            None => share_data(&input.data),  // zero copy
            Some(v) => Arc::new(v),
        };

        Ok(
            Frame {
                data: out_data,
                resolution: current_res,
                format: input.format,
                timestamp_ns: input.timestamp_ns,
                sequence: input.sequence,
            },
        )
    }
}

/// A processed frame has the size of its output resolution: when the input
/// data has the size of the input resolution (and a crop's pair-aligned
/// width fits in `u32`), the crop, scale and flip stages give
/// `width * height * 2` bytes of the output resolution.
pub proof fn lemma_process_len(data: Seq<u8>, res: Resolution, t: OutputTransform, out: Resolution)
    requires
        data.len() == expected_size_spec(res, PixelFormat::Uyvy),
        t.crop matches Some(c) ==> c.width + c.x % 2 <= u32::MAX,
    ensures
        process_spec(data, res, t, out).len() == expected_size_spec(out, PixelFormat::Uyvy),
{
    let (d1, r1) = cropped_stage(data, res, t);
    if let Some(c) = t.crop {
        assert(crop_width(c) * 2 * c.height == crop_width(c) * c.height * 2) by (nonlinear_arith);
        assert(d1.len() == r1.width * r1.height * 2);
    }
    assert(d1.len() == r1.width * r1.height * 2);
    assert(out.width * 2 * out.height == out.width * out.height * 2) by (nonlinear_arith);
}

/// Processing a frame with the default transform (no crop, no flip) at its
/// own resolution leaves the data unchanged.
pub proof fn lemma_process_identity(data: Seq<u8>, res: Resolution)
    ensures
        ({
            let t = OutputTransform {
                crop: None,
                flip: crate::types::FlipOptions { horizontal: false, vertical: false },
            };
            &&& process_succeeds(res, t)
            &&& process_spec(data, res, t, res) == data
        }),
{
}

/// Processing is crop, then scale to the output resolution, then flip: the
/// scale stage that `process` skips when the cropped frame already has the
/// output resolution would change nothing. This holds for a frame of even
/// width whose data is exactly `width * 2 * height` bytes, with a crop (if
/// any) whose pair-aligned width fits in `u32`.
pub proof fn lemma_process_is_flip_scale_crop(data: Seq<u8>, res: Resolution, t: OutputTransform, out: Resolution)
    requires
        res.width % 2 == 0,
        data.len() == res.width * 2 * res.height,
        t.crop matches Some(c) ==> c.width + c.x % 2 <= u32::MAX,
    ensures
        ({
            let (d1, r1) = cropped_stage(data, res, t);
            process_spec(data, res, t, out) == flip_spec(
                scale_spec(d1, r1, out),
                out,
                t.flip.horizontal,
                t.flip.vertical,
            )
        }),
{
    let (d1, r1) = cropped_stage(data, res, t);
    if r1 == out {
        match t.crop {
            Some(c) => {
                assert(crop_width(c) == r1.width);
                lemma_scale_same_size(d1, r1);
            },
            None => {
                lemma_scale_same_size(d1, r1);
            },
        }
    }
}

impl Default for GpuProcessor {
    fn default() -> (p: Self) {
        Self::new()
    }
}

} // verus!
