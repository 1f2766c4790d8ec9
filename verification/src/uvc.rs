//! USB Video Class camera descriptions and the YUYV → UYVY byte reordering
//! that turns camera frames into the library's UYVY layout.
use vstd::prelude::*;

verus! {

/// Information about an available UVC device.
#[derive(Debug, Clone)]
pub struct UvcDevice {
    /// Numeric index of the device.
    pub index: u32,
    /// Human-readable device name.
    pub name: String,
    /// Device path/identifier for use in `InputSource::Uvc { device_path }`.
    pub path: String,
}

/// A UVC camera capture in a given size and rate.
pub struct UvcInput {
    pub device_path: String,
    pub width: u32,
    pub height: u32,
    pub fps: u32,
}

impl UvcInput {
    /// Describe a capture from the camera at `device_path`.
    pub fn new(device_path: &str, width: u32, height: u32, fps: u32) -> (r: Self)
        ensures
            r.device_path@ == device_path@,
            r.width == width,
            r.height == height,
            r.fps == fps,
    {
        Self { device_path: String::from_str(device_path), width, height, fps }
    }
}

/// Enumerate available UVC devices. This build has no camera driver
/// support, so there are none.
pub fn enumerate_devices() -> (r: Vec<UvcDevice>)
    ensures
        r@.len() == 0,
{
    Vec::new()
}

/// Byte `i` of a converted buffer: within every whole four-byte group the
/// two byte pairs are swapped (`Y0 U Y1 V` becomes `U Y0 V Y1`); bytes of a
/// trailing partial group are zero.
pub open spec fn swapped_pair_byte(data: Seq<u8>, i: int) -> u8 {
    if i < (data.len() / 4) * 4 {
        if i % 2 == 0 {
            data[i + 1]
        } else {
            data[i - 1]
        }
    } else {
        0
    }
}

/// The UYVY buffer for a YUYV buffer: same length, pairs swapped.
pub open spec fn yuyv_to_uyvy_spec(data: Seq<u8>) -> Seq<u8> {
    Seq::new(data.len(), |i: int| swapped_pair_byte(data, i))
}

/// Convert YUYV (YUY2) to UYVY by swapping byte pairs.
///
/// YUYV: Y0 U0 Y1 V0
/// UYVY: U0 Y0 V0 Y1
pub fn yuyv_to_uyvy(data: &[u8]) -> (r: Vec<u8>)
    ensures
        r@ == yuyv_to_uyvy_spec(data@),
{
    let ghost spec = yuyv_to_uyvy_spec(data@);
    let len: usize = data.len();
    let whole: usize = len / 4 * 4;
    let mut out: Vec<u8> = Vec::new();
    let mut i: usize = 0;
    while i < whole
        invariant
            len == data@.len(),
            whole == (len / 4) * 4,
            whole <= len,
            i % 4 == 0,
            whole % 4 == 0,
            i <= whole,
            spec == yuyv_to_uyvy_spec(data@),
            out@.len() == i,
            forall|k: int| 0 <= k < out@.len() ==> out@[k] == spec[k],
        decreases whole - i,
    {
        let ghost before = out@;
        proof {
            assert(i + 4 <= whole) by (nonlinear_arith)
                requires
                    i % 4 == 0,
                    whole % 4 == 0,
                    i < whole,
            ;
            assert(i % 2 == 0 && (i + 1) % 2 == 1 && (i + 2) % 2 == 0 && (i + 3) % 2 == 1);
            assert(spec[i as int] == data@[i + 1]);
            assert(spec[i + 1] == data@[i as int]);
            assert(spec[i + 2] == data@[i + 3]);
            assert(spec[i + 3] == data@[i + 2]);
        }
        out.push(data[i + 1]);  // U
        out.push(data[i]);  // Y0
        out.push(data[i + 3]);  // V
        out.push(data[i + 2]);  // Y1
        proof {
            assert forall|k: int| 0 <= k < out@.len() implies out@[k] == spec[k] by {
                if k < before.len() {
                    assert(out@[k] == before[k]);
                }
            }
        }
        i += 4;
    }
    while i < len
        invariant
            len == data@.len(),
            whole == (len / 4) * 4,
            whole <= i <= len,
            spec == yuyv_to_uyvy_spec(data@),
            out@.len() == i,
            forall|k: int| 0 <= k < out@.len() ==> out@[k] == spec[k],
        decreases len - i,
    {
        out.push(0u8);
        i += 1;
    }
    assert(out@ =~= spec);
    out
}

/// Swapping the byte pairs twice gives back the buffer, when it consists of
/// whole four-byte groups.
pub proof fn lemma_yuyv_to_uyvy_involution(data: Seq<u8>)
    requires
        data.len() % 4 == 0,
    ensures
        yuyv_to_uyvy_spec(yuyv_to_uyvy_spec(data)) == data,
{
    let once = yuyv_to_uyvy_spec(data);
    let twice = yuyv_to_uyvy_spec(once);
    assert forall|i: int| 0 <= i < data.len() implies twice[i] == data[i] by {
        if i % 2 == 0 {
            assert(twice[i] == once[i + 1]);
        } else {
            assert(twice[i] == once[i - 1]);
        }
    }
    assert(twice =~= data);
}

} // verus!
