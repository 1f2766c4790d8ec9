//! Shared video types: pixel formats, resolutions, frame rates, display
//! modes and the per-output transform description.
use vstd::prelude::*;

verus! {

/// Pixel format for video frames.
#[derive(Debug, Clone, Copy, PartialEq, Eq, Structural)]
pub enum PixelFormat {
    /// 8-bit UYVY (4:2:2), DeckLink native.
    Uyvy,
    /// 8-bit BGRA (4:4:4:4).
    Bgra,
    /// 10-bit YUV (4:2:2), DeckLink v210.
    V210,
}

/// Video resolution in pixels.
#[derive(Debug, Clone, Copy, PartialEq, Eq, Structural)]
pub struct Resolution {
    pub width: u32,
    pub height: u32,
}

/// Frame rate as a rational number (e.g. 30000/1001 for 29.97 fps).
#[derive(Debug, Clone, Copy, PartialEq, Eq, Structural)]
pub struct FrameRate {
    pub num: u32,
    pub den: u32,
}

/// A known DeckLink display mode.
#[derive(Debug, Clone, Copy, PartialEq, Eq, Structural)]
pub enum DisplayMode {
    Hd1080i50,
    Hd1080i5994,
    Hd1080p24,
    Hd1080p25,
    Hd1080p2997,
    Hd1080p30,
    Hd1080p50,
    Hd1080p5994,
    Hd1080p60,
    Hd720p50,
    Hd720p5994,
    Hd720p60,
    Uhd2160p24,
    Uhd2160p25,
    Uhd2160p2997,
    Uhd2160p30,
    Uhd2160p50,
    Uhd2160p5994,
    Uhd2160p60,
}

/// The raster size of a display mode: every 1080 mode is 1920x1080, every
/// 720 mode is 1280x720 and every 2160 mode is 3840x2160.
pub open spec fn mode_resolution(mode: DisplayMode) -> Resolution {
    match mode {
        DisplayMode::Hd1080i50 | DisplayMode::Hd1080i5994 | DisplayMode::Hd1080p24
        | DisplayMode::Hd1080p25 | DisplayMode::Hd1080p2997 | DisplayMode::Hd1080p30
        | DisplayMode::Hd1080p50 | DisplayMode::Hd1080p5994 | DisplayMode::Hd1080p60 => Resolution {
            width: 1920,
            height: 1080,
        },
        DisplayMode::Hd720p50 | DisplayMode::Hd720p5994 | DisplayMode::Hd720p60 => Resolution {
            width: 1280,
            height: 720,
        },
        DisplayMode::Uhd2160p24 | DisplayMode::Uhd2160p25 | DisplayMode::Uhd2160p2997
        | DisplayMode::Uhd2160p30 | DisplayMode::Uhd2160p50 | DisplayMode::Uhd2160p5994
        | DisplayMode::Uhd2160p60 => Resolution { width: 3840, height: 2160 },
    }
}

/// The frame rate of a display mode as a fraction (interlaced modes count
/// frames, so 1080i50 runs at 25 frames per second).
pub open spec fn mode_frame_rate(mode: DisplayMode) -> FrameRate {
    match mode {
        DisplayMode::Hd1080p24 | DisplayMode::Uhd2160p24 => FrameRate { num: 24000, den: 1000 },
        DisplayMode::Hd1080p25 | DisplayMode::Hd1080i50 | DisplayMode::Uhd2160p25 => FrameRate {
            num: 25000,
            den: 1000,
        },
        DisplayMode::Hd1080p2997 | DisplayMode::Hd1080i5994 | DisplayMode::Uhd2160p2997 => FrameRate {
            num: 30000,
            den: 1001,
        },
        DisplayMode::Hd1080p30 | DisplayMode::Uhd2160p30 => FrameRate { num: 30000, den: 1000 },
        DisplayMode::Hd720p50 | DisplayMode::Hd1080p50 | DisplayMode::Uhd2160p50 => FrameRate {
            num: 50000,
            den: 1000,
        },
        DisplayMode::Hd720p5994 | DisplayMode::Hd1080p5994 | DisplayMode::Uhd2160p5994 => FrameRate {
            num: 60000,
            den: 1001,
        },
        DisplayMode::Hd720p60 | DisplayMode::Hd1080p60 | DisplayMode::Uhd2160p60 => FrameRate {
            num: 60000,
            den: 1000,
        },
    }
}

impl DisplayMode {
    /// Raster size of this display mode.
    pub fn resolution(&self) -> (r: Resolution)
        ensures
            r == mode_resolution(*self),
    {
        match self {
            DisplayMode::Hd1080i50 | DisplayMode::Hd1080i5994 | DisplayMode::Hd1080p24
            | DisplayMode::Hd1080p25 | DisplayMode::Hd1080p2997 | DisplayMode::Hd1080p30
            | DisplayMode::Hd1080p50 | DisplayMode::Hd1080p5994 | DisplayMode::Hd1080p60 => {
                Resolution { width: 1920, height: 1080 }
            },
            DisplayMode::Hd720p50 | DisplayMode::Hd720p5994 | DisplayMode::Hd720p60 => {
                Resolution { width: 1280, height: 720 }
            },
            DisplayMode::Uhd2160p24 | DisplayMode::Uhd2160p25 | DisplayMode::Uhd2160p2997
            | DisplayMode::Uhd2160p30 | DisplayMode::Uhd2160p50 | DisplayMode::Uhd2160p5994
            | DisplayMode::Uhd2160p60 => Resolution { width: 3840, height: 2160 },
        }
    }

    /// Frame rate of this display mode.
    pub fn frame_rate(&self) -> (r: FrameRate)
        ensures
            r == mode_frame_rate(*self),
    {
        match self {
            DisplayMode::Hd1080p24 | DisplayMode::Uhd2160p24 => FrameRate { num: 24000, den: 1000 },
            DisplayMode::Hd1080p25 | DisplayMode::Hd1080i50 | DisplayMode::Uhd2160p25 => {
                FrameRate { num: 25000, den: 1000 }
            },
            DisplayMode::Hd1080p2997 | DisplayMode::Hd1080i5994 | DisplayMode::Uhd2160p2997 => {
                FrameRate { num: 30000, den: 1001 }
            },
            DisplayMode::Hd1080p30 | DisplayMode::Uhd2160p30 => FrameRate { num: 30000, den: 1000 },
            DisplayMode::Hd720p50 | DisplayMode::Hd1080p50 | DisplayMode::Uhd2160p50 => {
                FrameRate { num: 50000, den: 1000 }
            },
            DisplayMode::Hd720p5994 | DisplayMode::Hd1080p5994 | DisplayMode::Uhd2160p5994 => {
                FrameRate { num: 60000, den: 1001 }
            },
            DisplayMode::Hd720p60 | DisplayMode::Hd1080p60 | DisplayMode::Uhd2160p60 => {
                FrameRate { num: 60000, den: 1000 }
            },
        }
    }
}

/// Horizontal/vertical flip options.
#[derive(Debug, Clone, Copy, PartialEq, Eq, Structural)]
pub struct FlipOptions {
    pub horizontal: bool,
    pub vertical: bool,
}

impl Default for FlipOptions {
    /// No flip in either direction.
    fn default() -> (r: Self)
        ensures
            !r.horizontal && !r.vertical,
    {
        FlipOptions { horizontal: false, vertical: false }
    }
}

/// Crop region in pixel coordinates, relative to the input frame.
#[derive(Debug, Clone, Copy, PartialEq, Eq, Structural)]
pub struct CropRegion {
    pub x: u32,
    pub y: u32,
    pub width: u32,
    pub height: u32,
}

/// Per-output transform configuration: crop, then scale, then flip.
#[derive(Debug, Clone, Copy, PartialEq, Eq, Structural)]
pub struct OutputTransform {
    /// Crop region from the input frame. `None` means the full frame.
    pub crop: Option<CropRegion>,
    /// Flip applied after scaling.
    pub flip: FlipOptions,
}

impl Default for OutputTransform {
    /// Full frame, no flip.
    fn default() -> (r: Self)
        ensures
            r.crop is None,
            !r.flip.horizontal && !r.flip.vertical,
    {
        OutputTransform { crop: None, flip: FlipOptions { horizontal: false, vertical: false } }
    }
}

/// Device status for capture and playout devices.
#[derive(Debug, Clone, Copy, PartialEq, Eq, Structural)]
pub enum DeviceStatus {
    Available,
    InUse,
    Disconnected,
}

/// Lifecycle state of the processing pipeline.
#[derive(Debug, Clone, Copy, PartialEq, Eq, Structural)]
pub enum PipelineState {
    Stopped,
    Starting,
    Running,
    Stopping,
    Error,
}

} // verus!
