//! Application configuration and its validation.
use vstd::prelude::*;

use crate::error::Error;
use crate::types::{DisplayMode, OutputTransform, PixelFormat};

verus! {

/// Input source selection.
#[derive(Debug, Clone)]
pub enum InputSource {
    /// Built-in colour-bar test pattern.
    Mock {
        /// Frame width in pixels.
        width: u32,
        /// Frame height in pixels.
        height: u32,
        /// Frames per second.
        fps: u32,
    },
    /// DeckLink input device.
    DeckLink {
        /// Device index (0-based).
        device_index: u32,
        /// Display mode to capture.
        display_mode: DisplayMode,
        /// Pixel format.
        pixel_format: PixelFormat,
    },
    /// UVC (USB camera) input.
    Uvc {
        /// Device path or identifier.
        device_path: String,
    },
}

/// Configuration for a single output.
#[derive(Debug)]
pub struct OutputConfig {
    /// Unique output identifier.
    pub id: String,
    /// Human-readable name.
    pub name: String,
    /// DeckLink device index for this output.
    pub device_index: u32,
    /// Output display mode.
    pub display_mode: DisplayMode,
    /// Output pixel format.
    pub pixel_format: PixelFormat,
    /// Transform pipeline: crop → scale → flip.
    pub transform: OutputTransform,
    /// Whether this output is enabled.
    pub enabled: bool,
}

impl Clone for OutputConfig {
    /// A field-by-field copy.
    fn clone(&self) -> (r: Self)
        ensures
            r == *self,
    {
        OutputConfig {
            id: self.id.clone(),
            name: self.name.clone(),
            device_index: self.device_index,
            display_mode: self.display_mode,
            pixel_format: self.pixel_format,
            transform: self.transform,
            enabled: self.enabled,
        }
    }
}

/// Default for `OutputConfig::enabled`.
pub fn default_true() -> (r: bool)
    ensures
        r,
{
    true
}

/// Preview configuration.
#[derive(Debug)]
pub struct PreviewConfig {
    /// Preview width.
    pub width: u32,
    /// Preview height.
    pub height: u32,
    /// Preview frame rate.
    pub fps: u32,
    /// JPEG quality (1-100).
    pub jpeg_quality: u8,
}

impl Clone for PreviewConfig {
    /// A field-by-field copy.
    fn clone(&self) -> (r: Self)
        ensures
            r == *self,
    {
        PreviewConfig {
            width: self.width,
            height: self.height,
            fps: self.fps,
            jpeg_quality: self.jpeg_quality,
        }
    }
}

/// Default preview width.
pub fn default_preview_width() -> (r: u32)
    ensures
        r == 640,
{
    640
}

/// Default preview height.
pub fn default_preview_height() -> (r: u32)
    ensures
        r == 360,
{
    360
}

/// Default preview frame rate.
pub fn default_preview_fps() -> (r: u32)
    ensures
        r == 10,
{
    10
}

/// Default JPEG quality of preview images.
pub fn default_jpeg_quality() -> (r: u8)
    ensures
        r == 75,
{
    75
}

impl Default for PreviewConfig {
    /// 640x360 at 10 fps, JPEG quality 75.
    fn default() -> (r: Self)
        ensures
            r.width == 640,
            r.height == 360,
            r.fps == 10,
            r.jpeg_quality == 75,
    {
        PreviewConfig {
            width: default_preview_width(),
            height: default_preview_height(),
            fps: default_preview_fps(),
            jpeg_quality: default_jpeg_quality(),
        }
    }
}

/// Web server configuration.
#[derive(Debug, Clone)]
pub struct WebConfig {
    /// Listen address.
    pub bind_address: String,
    /// Listen port.
    pub port: u16,
}

/// Default listen address: all interfaces.
pub fn default_bind_address() -> (r: String)
    ensures
        r@ == "0.0.0.0"@,
{
    String::from_str("0.0.0.0")
}

/// Default listen port.
pub fn default_port() -> (r: u16)
    ensures
        r == 8080,
{
    8080
}

impl Default for WebConfig {
    /// Listen on 0.0.0.0:8080.
    fn default() -> (r: Self)
        ensures
            r.bind_address@ == "0.0.0.0"@,
            r.port == 8080,
    {
        WebConfig { bind_address: default_bind_address(), port: default_port() }
    }
}

/// Top-level application configuration.
#[derive(Debug, Clone)]
pub struct Config {
    /// Input source.
    pub input: InputSource,
    /// Output configurations.
    pub outputs: Vec<OutputConfig>,
    /// Preview settings.
    pub preview: PreviewConfig,
    /// Web server settings.
    pub web: WebConfig,
}

/// Output `j` reuses the id of an earlier output.
pub open spec fn repeats_earlier_id(outputs: Seq<OutputConfig>, j: int) -> bool {
    exists|i: int| 0 <= i < j && outputs[i].id@ == #[trigger] outputs[j].id@
}

/// The first `n` outputs have pairwise distinct ids.
pub open spec fn ids_distinct_upto(outputs: Seq<OutputConfig>, n: int) -> bool {
    forall|i: int, j: int| 0 <= i < j < n ==> outputs[i].id@ != outputs[j].id@
}

/// Output `j` is the first whose id repeats an earlier one.
pub open spec fn is_first_duplicate(outputs: Seq<OutputConfig>, j: int) -> bool {
    &&& 0 <= j < outputs.len()
    &&& ids_distinct_upto(outputs, j)
    &&& repeats_earlier_id(outputs, j)
}

/// The output crops to an empty region.
pub open spec fn has_zero_crop(o: OutputConfig) -> bool {
    o.transform.crop matches Some(c) && (c.width == 0 || c.height == 0)
}

/// Output `k` is the first with an empty crop region.
pub open spec fn is_first_zero_crop(outputs: Seq<OutputConfig>, k: int) -> bool {
    &&& 0 <= k < outputs.len()
    &&& has_zero_crop(outputs[k])
    &&& forall|i: int| 0 <= i < k ==> !has_zero_crop(#[trigger] outputs[i])
}

/// A list of outputs is valid when it is not empty, the ids are distinct
/// and no crop region is empty.
pub open spec fn outputs_valid(outputs: Seq<OutputConfig>) -> bool {
    &&& outputs.len() > 0
    &&& ids_distinct_upto(outputs, outputs.len() as int)
    &&& forall|k: int| 0 <= k < outputs.len() ==> !has_zero_crop(#[trigger] outputs[k])
}

/// A configuration is valid when its outputs are: at least one, with
/// distinct ids and no empty crop region.
pub open spec fn config_valid(c: Config) -> bool {
    outputs_valid(c.outputs@)
}

/// The abstract value of a configuration.
pub struct ConfigView {
    pub input: InputSource,
    pub outputs: Seq<OutputConfig>,
    pub preview: PreviewConfig,
    pub web: WebConfig,
}

impl View for Config {
    type V = ConfigView;

    open spec fn view(&self) -> ConfigView {
        ConfigView { input: self.input, outputs: self.outputs@, preview: self.preview, web: self.web }
    }
}

/// The message for a repeated output id.
pub open spec fn duplicate_id_message(id: Seq<char>) -> Seq<char> {
    "duplicate output id: "@ + id
}

/// The message for an empty crop region.
pub open spec fn zero_crop_message(id: Seq<char>) -> Seq<char> {
    "output '"@ + id + "': crop region must have non-zero dimensions"@
}

/// The message of the error a configuration with these outputs is
/// rejected with: the first failed check, in the order of `validate`.
pub open spec fn validation_message(outputs: Seq<OutputConfig>) -> Seq<char> {
    if outputs.len() == 0 {
        "at least one output is required"@
    } else if !ids_distinct_upto(outputs, outputs.len() as int) {
        duplicate_id_message(outputs[choose|j: int| is_first_duplicate(outputs, j)].id@)
    } else {
        zero_crop_message(outputs[choose|k: int| is_first_zero_crop(outputs, k)].id@)
    }
}

/// At most one output is the first to repeat an earlier id.
proof fn lemma_first_duplicate_unique(outputs: Seq<OutputConfig>, a: int, b: int)
    requires
        is_first_duplicate(outputs, a),
        is_first_duplicate(outputs, b),
    ensures
        a == b,
{
    if a < b {
        let i = choose|i: int| 0 <= i < a && outputs[i].id@ == #[trigger] outputs[a].id@;
        assert(outputs[i].id@ != outputs[a].id@);
    } else if b < a {
        let i = choose|i: int| 0 <= i < b && outputs[i].id@ == #[trigger] outputs[b].id@;
        assert(outputs[i].id@ != outputs[b].id@);
    }
}

/// At most one output is the first with an empty crop region.
proof fn lemma_first_zero_crop_unique(outputs: Seq<OutputConfig>, a: int, b: int)
    requires
        is_first_zero_crop(outputs, a),
        is_first_zero_crop(outputs, b),
    ensures
        a == b,
{
    if a < b {
        assert(!has_zero_crop(outputs[a]));
    } else if b < a {
        assert(!has_zero_crop(outputs[b]));
    }
}

impl Config {
    /// Validate the configuration.
    ///
    /// Checks, in this order, that there is at least one output, that no
    /// output id repeats an earlier one, and that no crop region is empty;
    /// the first failed check is reported.
    pub fn validate(&self) -> (r: Result<(), Error>)
        ensures
            r is Ok <==> config_valid(*self),
            self.outputs@.len() == 0 ==> (r matches Err(Error::Config(m)) && m@
                == "at least one output is required"@),
            self.outputs@.len() > 0 && !ids_distinct_upto(self.outputs@, self.outputs@.len() as int)
                ==> (r matches Err(Error::Config(m)) && exists|j: int|
                is_first_duplicate(self.outputs@, j) && m@ == duplicate_id_message(
                    self.outputs@[j].id@,
                )),
            self.outputs@.len() > 0 && ids_distinct_upto(self.outputs@, self.outputs@.len() as int)
                && !config_valid(*self) ==> (r matches Err(Error::Config(m)) && exists|k: int|
                is_first_zero_crop(self.outputs@, k) && m@ == zero_crop_message(
                    self.outputs@[k].id@,
                )),
            r matches Err(e) ==> (e matches Error::Config(m) && m@ == validation_message(self.outputs@)),
    {
        let n: usize = self.outputs.len();
        if n == 0 {
            return Err(Error::Config(String::from_str("at least one output is required")));
        }
        // Check for duplicate output IDs
        let mut j: usize = 0;
        while j < n
            invariant
                n == self.outputs@.len(),
                j <= n,
                ids_distinct_upto(self.outputs@, j as int),
            decreases n - j,
        {
            let mut i: usize = 0;
            while i < j
                invariant
                    n == self.outputs@.len(),
                    i <= j < n,
                    ids_distinct_upto(self.outputs@, j as int),
                    forall|k: int| 0 <= k < i ==> self.outputs@[k].id@ != self.outputs@[j as int].id@,
                decreases j - i,
            {
                if self.outputs[i].id == self.outputs[j].id {
                    let msg = String::from_str("duplicate output id: ").concat(
                        self.outputs[j].id.as_str(),
                    );
                    assert(is_first_duplicate(self.outputs@, j as int));
                    assert(!ids_distinct_upto(self.outputs@, self.outputs@.len() as int));
                    proof {
                        let c = choose|c: int| is_first_duplicate(self.outputs@, c);
                        lemma_first_duplicate_unique(self.outputs@, c, j as int);
                    }
                    return Err(Error::Config(msg));
                }
                i += 1;
            }
            j += 1;
        }
        // Validate crop regions
        let mut k: usize = 0;
        while k < n
            invariant
                n == self.outputs@.len(),
                n > 0,
                k <= n,
                ids_distinct_upto(self.outputs@, n as int),
                forall|i: int| 0 <= i < k ==> !has_zero_crop(#[trigger] self.outputs@[i]),
            decreases n - k,
        {
            if let Some(crop) = &self.outputs[k].transform.crop {
                if crop.width == 0 || crop.height == 0 {
                    let msg = String::from_str("output '").concat(self.outputs[k].id.as_str()).concat(
                        "': crop region must have non-zero dimensions",
                    );
                    assert(is_first_zero_crop(self.outputs@, k as int));
                    proof {
                        let c = choose|c: int| is_first_zero_crop(self.outputs@, c);
                        lemma_first_zero_crop_unique(self.outputs@, c, k as int);
                    }
                    return Err(Error::Config(msg));
                }
            }
            k += 1;
        }
        Ok(())
    }
}

} // verus!
