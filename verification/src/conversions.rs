//! Conversions between the library's display modes / pixel formats and the
//! four-character codes used by the DeckLink SDK (BMDDisplayMode and
//! BMDPixelFormat).
use vstd::prelude::*;

use crate::types::{mode_frame_rate, mode_resolution, DisplayMode, PixelFormat};

verus! {

/// The BMDDisplayMode code of each display mode.
pub open spec fn bmd_code_of_mode(mode: DisplayMode) -> u32 {
    match mode {
        DisplayMode::Hd720p50 => 0x68703530,
        DisplayMode::Hd720p5994 => 0x68703539,
        DisplayMode::Hd720p60 => 0x68703630,
        DisplayMode::Hd1080i50 => 0x48693530,
        DisplayMode::Hd1080i5994 => 0x48693539,
        DisplayMode::Hd1080p24 => 0x32347073,
        DisplayMode::Hd1080p25 => 0x48703235,
        DisplayMode::Hd1080p2997 => 0x48703239,
        DisplayMode::Hd1080p30 => 0x48703330,
        DisplayMode::Hd1080p50 => 0x48703530,
        DisplayMode::Hd1080p5994 => 0x48703539,
        DisplayMode::Hd1080p60 => 0x48703630,
        DisplayMode::Uhd2160p24 => 0x346B3234,
        DisplayMode::Uhd2160p25 => 0x346B3235,
        DisplayMode::Uhd2160p2997 => 0x346B3239,
        DisplayMode::Uhd2160p30 => 0x346B3330,
        DisplayMode::Uhd2160p50 => 0x346B3530,
        DisplayMode::Uhd2160p5994 => 0x346B3539,
        DisplayMode::Uhd2160p60 => 0x346B3630,
    }
}

/// The display mode that a BMDDisplayMode code stands for, if any: the mode
/// whose code it is.
pub open spec fn mode_of_bmd_code(bmd: u32) -> Option<DisplayMode> {
    if exists|m: DisplayMode| bmd_code_of_mode(m) == bmd {
        Some(choose|m: DisplayMode| bmd_code_of_mode(m) == bmd)
    } else {
        None
    }
}

/// The BMDPixelFormat code of each pixel format.
pub open spec fn bmd_code_of_format(fmt: PixelFormat) -> u32 {
    match fmt {
        PixelFormat::Uyvy => 0x32767579,
        PixelFormat::Bgra => 0x42475241,
        PixelFormat::V210 => 0x76323130,
    }
}

/// The pixel format that a BMDPixelFormat code stands for, if any.
pub open spec fn format_of_bmd_code(bmd: u32) -> Option<PixelFormat> {
    if exists|f: PixelFormat| bmd_code_of_format(f) == bmd {
        Some(choose|f: PixelFormat| bmd_code_of_format(f) == bmd)
    } else {
        None
    }
}

/// Distinct display modes have distinct codes.
pub proof fn lemma_bmd_code_of_mode_injective(a: DisplayMode, b: DisplayMode)
    ensures
        bmd_code_of_mode(a) == bmd_code_of_mode(b) ==> a == b,
{
}

/// Distinct pixel formats have distinct codes.
pub proof fn lemma_bmd_code_of_format_injective(a: PixelFormat, b: PixelFormat)
    ensures
        bmd_code_of_format(a) == bmd_code_of_format(b) ==> a == b,
{
}

/// The big-endian code of two characters.
pub open spec fn two_char_code(a: char, b: char) -> int {
    (a as int) * 256 + (b as int)
}

/// The two decimal digits of `n` as characters, as a two-character code.
pub open spec fn two_digit_code(n: int) -> int {
    ('0' as int + n / 10) * 256 + ('0' as int + n % 10)
}

/// Each display mode's BMDDisplayMode code is the SDK's four-character
/// name of the mode. The name of 1080p24 is "24ps". Every other name is a
/// raster prefix followed by two digits.
///
/// - The prefix is "hp" for the 720 modes, "4k" for the 2160 modes, and
///   "Hp" for a progressive or "Hi" for an interlaced 1080 mode.
/// - The digits are those of the whole number of frames per second, or of
///   fields (twice the frames) for an interlaced mode: 59.94 gives "59".
pub proof fn lemma_bmd_code_names_mode(m: DisplayMode)
    ensures
        ({
            let code = bmd_code_of_mode(m) as int;
            let prefix = code / 65536;
            let digits = code % 65536;
            let res = mode_resolution(m);
            let fr = mode_frame_rate(m);
            let interlaced = prefix == two_char_code('H', 'i');
            let rate = if interlaced {
                2 * (fr.num as int) / (fr.den as int)
            } else {
                (fr.num as int) / (fr.den as int)
            };
            if m == DisplayMode::Hd1080p24 {
                &&& prefix == two_char_code('2', '4')
                &&& digits == two_char_code('p', 's')
                &&& rate == 24
            } else {
                &&& res.height == 720 ==> prefix == two_char_code('h', 'p')
                &&& res.height == 1080 ==> (prefix == two_char_code('H', 'p') || interlaced)
                &&& res.height == 2160 ==> prefix == two_char_code('4', 'k')
                &&& digits == two_digit_code(rate)
            }
        }),
{
    match m {
        _ => {},
    }
}

/// Each pixel format's BMDPixelFormat code is the SDK's four-character
/// name of the format: "2vuy" for UYVY, "BGRA" for BGRA, "v210" for v210.
pub proof fn lemma_bmd_code_names_format(f: PixelFormat)
    ensures
        ({
            let code = bmd_code_of_format(f) as int;
            let name = match f {
                PixelFormat::Uyvy => ('2', 'v', 'u', 'y'),
                PixelFormat::Bgra => ('B', 'G', 'R', 'A'),
                PixelFormat::V210 => ('v', '2', '1', '0'),
            };
            &&& code / 65536 == two_char_code(name.0, name.1)
            &&& code % 65536 == two_char_code(name.2, name.3)
        }),
{
}

/// Convert a `DisplayMode` to the corresponding BMDDisplayMode constant.
pub fn display_mode_to_bmd(mode: DisplayMode) -> (r: u32)
    ensures
        r == bmd_code_of_mode(mode),
{
    match mode {
        DisplayMode::Hd720p50 => 0x68703530,  // 'hp50'
        DisplayMode::Hd720p5994 => 0x68703539,  // 'hp59'
        DisplayMode::Hd720p60 => 0x68703630,  // 'hp60'
        DisplayMode::Hd1080i50 => 0x48693530,  // 'Hi50'
        DisplayMode::Hd1080i5994 => 0x48693539,  // 'Hi59'
        DisplayMode::Hd1080p24 => 0x32347073,  // '24ps'
        DisplayMode::Hd1080p25 => 0x48703235,  // 'Hp25'
        DisplayMode::Hd1080p2997 => 0x48703239,  // 'Hp29'
        DisplayMode::Hd1080p30 => 0x48703330,  // 'Hp30'
        DisplayMode::Hd1080p50 => 0x48703530,  // 'Hp50'
        DisplayMode::Hd1080p5994 => 0x48703539,  // 'Hp59'
        DisplayMode::Hd1080p60 => 0x48703630,  // 'Hp60'
        DisplayMode::Uhd2160p24 => 0x346B3234,  // '4k24'
        DisplayMode::Uhd2160p25 => 0x346B3235,  // '4k25'
        DisplayMode::Uhd2160p2997 => 0x346B3239,  // '4k29'
        DisplayMode::Uhd2160p30 => 0x346B3330,  // '4k30'
        DisplayMode::Uhd2160p50 => 0x346B3530,  // '4k50'
        DisplayMode::Uhd2160p5994 => 0x346B3539,  // '4k59'
        DisplayMode::Uhd2160p60 => 0x346B3630,  // '4k60'
    }
}

/// Convert a BMDDisplayMode constant to the corresponding `DisplayMode`.
/// Returns `None` for unknown modes.
pub fn bmd_to_display_mode(bmd: u32) -> (r: Option<DisplayMode>)
    ensures
        r == mode_of_bmd_code(bmd),
        r matches Some(m) ==> bmd_code_of_mode(m) == bmd,
        r is None <==> forall|m: DisplayMode| bmd_code_of_mode(m) != bmd,
{
    let r = match bmd {
        0x68703530 => Some(DisplayMode::Hd720p50),
        0x68703539 => Some(DisplayMode::Hd720p5994),
        0x68703630 => Some(DisplayMode::Hd720p60),
        0x48693530 => Some(DisplayMode::Hd1080i50),
        0x48693539 => Some(DisplayMode::Hd1080i5994),
        0x32347073 => Some(DisplayMode::Hd1080p24),
        0x48703235 => Some(DisplayMode::Hd1080p25),
        0x48703239 => Some(DisplayMode::Hd1080p2997),
        0x48703330 => Some(DisplayMode::Hd1080p30),
        0x48703530 => Some(DisplayMode::Hd1080p50),
        0x48703539 => Some(DisplayMode::Hd1080p5994),
        0x48703630 => Some(DisplayMode::Hd1080p60),
        0x346B3234 => Some(DisplayMode::Uhd2160p24),
        0x346B3235 => Some(DisplayMode::Uhd2160p25),
        0x346B3239 => Some(DisplayMode::Uhd2160p2997),
        0x346B3330 => Some(DisplayMode::Uhd2160p30),
        0x346B3530 => Some(DisplayMode::Uhd2160p50),
        0x346B3539 => Some(DisplayMode::Uhd2160p5994),
        0x346B3630 => Some(DisplayMode::Uhd2160p60),
        _ => None,
    };
    proof {
        match r {
            Some(m) => {
                assert(bmd_code_of_mode(m) == bmd);
                let c = choose|c: DisplayMode| bmd_code_of_mode(c) == bmd;
                lemma_bmd_code_of_mode_injective(c, m);
            },
            None => {
                assert forall|m: DisplayMode| bmd_code_of_mode(m) != bmd by {
                    match m {
                        _ => {},
                    }
                }
            },
        }
    }
    r
}

/// Convert a `PixelFormat` to the corresponding BMDPixelFormat constant.
pub fn pixel_format_to_bmd(fmt: PixelFormat) -> (r: u32)
    ensures
        r == bmd_code_of_format(fmt),
{
    match fmt {
        PixelFormat::Uyvy => 0x32767579,  // '2vuy'
        PixelFormat::Bgra => 0x42475241,  // 'BGRA'
        PixelFormat::V210 => 0x76323130,  // 'v210'
    }
}

/// Convert a BMDPixelFormat constant to the corresponding `PixelFormat`.
/// Returns `None` for unknown formats.
pub fn bmd_to_pixel_format(bmd: u32) -> (r: Option<PixelFormat>)
    ensures
        r == format_of_bmd_code(bmd),
        r matches Some(f) ==> bmd_code_of_format(f) == bmd,
        r is None <==> forall|f: PixelFormat| bmd_code_of_format(f) != bmd,
{
    let r = match bmd {
        0x32767579 => Some(PixelFormat::Uyvy),
        0x42475241 => Some(PixelFormat::Bgra),
        0x76323130 => Some(PixelFormat::V210),
        _ => None,
    };
    proof {
        match r {
            Some(f) => {
                assert(bmd_code_of_format(f) == bmd);
                let c = choose|c: PixelFormat| bmd_code_of_format(c) == bmd;
                lemma_bmd_code_of_format_injective(c, f);
            },
            None => {
                assert forall|f: PixelFormat| bmd_code_of_format(f) != bmd by {
                    match f {
                        _ => {},
                    }
                }
            },
        }
    }
    r
}

/// Converting a display mode to its code and back gives the mode again.
pub proof fn lemma_display_mode_roundtrip(mode: DisplayMode)
    ensures
        mode_of_bmd_code(bmd_code_of_mode(mode)) == Some(mode),
{
    let c = choose|c: DisplayMode| bmd_code_of_mode(c) == bmd_code_of_mode(mode);
    lemma_bmd_code_of_mode_injective(c, mode);
}

/// A code that converts to a display mode is that mode's code.
pub proof fn lemma_bmd_display_mode_roundtrip(bmd: u32)
    ensures
        mode_of_bmd_code(bmd) matches Some(m) ==> bmd_code_of_mode(m) == bmd,
{
}

/// Converting a pixel format to its code and back gives the format again.
pub proof fn lemma_pixel_format_roundtrip(fmt: PixelFormat)
    ensures
        format_of_bmd_code(bmd_code_of_format(fmt)) == Some(fmt),
{
    let c = choose|c: PixelFormat| bmd_code_of_format(c) == bmd_code_of_format(fmt);
    lemma_bmd_code_of_format_injective(c, fmt);
}

/// A code that converts to a pixel format is that format's code.
pub proof fn lemma_bmd_pixel_format_roundtrip(bmd: u32)
    ensures
        format_of_bmd_code(bmd) matches Some(f) ==> bmd_code_of_format(f) == bmd,
{
}

} // verus!
