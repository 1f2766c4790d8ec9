//! Video frames and their expected buffer sizes.
use std::sync::Arc;
use vstd::prelude::*;

use crate::types::{PixelFormat, Resolution};

verus! {

/// A video frame with CPU-side pixel data.
#[derive(Debug, Clone)]
pub struct Frame {
    /// Pixel data in the specified format.
    pub data: Arc<Vec<u8>>,
    /// Frame resolution.
    pub resolution: Resolution,
    /// Pixel format.
    pub format: PixelFormat,
    /// Monotonic timestamp in nanoseconds.
    pub timestamp_ns: u64,
    /// Frame sequence number from the source.
    pub sequence: u64,
}

/// Bytes per row of a v210 frame: every started group of 48 pixels takes
/// 128 bytes.
pub open spec fn v210_row_bytes(width: int) -> int {
    ((width + 47) / 48) * 128
}

/// Byte size of a frame: 2 bytes per pixel for UYVY, 4 for BGRA, and whole
/// 48-pixel groups of 128 bytes per row for v210.
pub open spec fn expected_size_spec(resolution: Resolution, format: PixelFormat) -> int {
    match format {
        PixelFormat::Uyvy => resolution.width * resolution.height * 2,
        PixelFormat::Bgra => resolution.width * resolution.height * 4,
        PixelFormat::V210 => v210_row_bytes(resolution.width as int) * resolution.height,
    }
}

/// Another handle on the same shared pixel buffer.
///
/// Calls `Arc::clone`, which (as std documents) makes a new pointer to the
/// same allocation, so the contents seen through it are those of `data`.
#[verifier::external_body]
pub(crate) fn share_data(data: &Arc<Vec<u8>>) -> (r: Arc<Vec<u8>>)
    ensures
        r@ == data@,
{
    Arc::clone(data)
}

impl Frame {
    /// Expected byte size for the given resolution and format.
    pub fn expected_size(resolution: Resolution, format: PixelFormat) -> (r: usize)
        requires
            resolution.width * resolution.height <= usize::MAX,
            format == PixelFormat::V210 ==> v210_row_bytes(resolution.width as int) <= usize::MAX,
            expected_size_spec(resolution, format) <= usize::MAX,
        ensures
            r == expected_size_spec(resolution, format),
    {
        let pixels: usize = resolution.width as usize * resolution.height as usize;
        match format {
            PixelFormat::Uyvy => pixels * 2,
            PixelFormat::Bgra => pixels * 4,
            PixelFormat::V210 => {
                // v210: 128 bytes per 48 pixels (6 pixels per 16 bytes)
                let groups: u64 = (resolution.width as u64 + 47) / 48;
                let bytes_per_row: usize = groups as usize * 128;
                bytes_per_row * resolution.height as usize
            },
        }
    }
}

} // verus!
