//! DeckLink device descriptions, driver traits and the conversion of the
//! SDK's device list into the library's device records.
use vstd::prelude::*;

use crate::error::Error;
use crate::frame::Frame;
use crate::types::{DeviceStatus, DisplayMode, PixelFormat};

verus! {

/// Information about a DeckLink device.
#[derive(Debug, Clone)]
pub struct DeckLinkDevice {
    pub index: u32,
    pub name: String,
    pub model_name: String,
    pub has_input: bool,
    pub has_output: bool,
    pub status: DeviceStatus,
}

/// A device as the DeckLink SDK bridge reports it.
#[derive(Debug, Clone)]
pub struct BridgeDeviceInfo {
    pub index: u32,
    pub name: String,
    pub model_name: String,
    pub has_input: bool,
    pub has_output: bool,
}

/// Trait for video input sources.
pub trait VideoInput {
    /// Start capturing frames.
    fn start(&mut self) -> Result<(), Error>;

    /// Stop capturing.
    fn stop(&mut self) -> Result<(), Error>;

    /// Whether the source is currently capturing.
    fn is_capturing(&self) -> bool;
}

/// Trait for video output destinations.
pub trait VideoOutput {
    /// Start output.
    fn start(&mut self) -> Result<(), Error>;

    /// Stop output.
    fn stop(&mut self) -> Result<(), Error>;

    /// Schedule a frame for output.
    fn send_frame(&mut self, frame: &Frame) -> Result<(), Error>;
}

/// A DeckLink capture device in a given mode and format.
pub struct DeckLinkInput {
    pub device_index: u32,
    pub display_mode: DisplayMode,
    pub pixel_format: PixelFormat,
}

impl DeckLinkInput {
    /// Describe a capture on device `device_index`.
    pub fn new(device_index: u32, display_mode: DisplayMode, pixel_format: PixelFormat) -> (r: Self)
        ensures
            r.device_index == device_index,
            r.display_mode == display_mode,
            r.pixel_format == pixel_format,
    {
        Self { device_index, display_mode, pixel_format }
    }
}

/// Enumerate available DeckLink devices. This build has no DeckLink driver
/// support, so there are none.
pub fn enumerate_devices() -> (r: Vec<DeckLinkDevice>)
    ensures
        r@.len() == 0,
{
    Vec::new()
}

/// The device record for one bridge entry: same identity and capabilities,
/// status `Available`.
pub open spec fn device_from_bridge(b: BridgeDeviceInfo, d: DeckLinkDevice) -> bool {
    &&& d.index == b.index
    &&& d.name@ == b.name@
    &&& d.model_name@ == b.model_name@
    &&& d.has_input == b.has_input
    &&& d.has_output == b.has_output
    &&& d.status == DeviceStatus::Available
}

/// Turn the SDK bridge's device list into device records, one per entry, in
/// order, each reported as available.
pub fn enumerate_devices_ffi(bridge_devices: Vec<BridgeDeviceInfo>) -> (r: Vec<DeckLinkDevice>)
    ensures
        r@.len() == bridge_devices@.len(),
        forall|i: int| 0 <= i < r@.len() ==> device_from_bridge(bridge_devices@[i], #[trigger] r@[i]),
{
    let mut out: Vec<DeckLinkDevice> = Vec::new();
    let mut i: usize = 0;
    while i < bridge_devices.len()
        invariant
            i <= bridge_devices@.len(),
            out@.len() == i,
            forall|k: int| 0 <= k < i ==> device_from_bridge(bridge_devices@[k], #[trigger] out@[k]),
        decreases bridge_devices@.len() - i,
    {
        let d = &bridge_devices[i];
        out.push(
            DeckLinkDevice {
                index: d.index,
                name: d.name.clone(),
                model_name: d.model_name.clone(),
                has_input: d.has_input,
                has_output: d.has_output,
                status: DeviceStatus::Available,
            },
        );
        i += 1;
    }
    out
}

} // verus!
