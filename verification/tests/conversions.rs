use momo::conversions::{
    bmd_to_display_mode, bmd_to_pixel_format, display_mode_to_bmd, pixel_format_to_bmd,
};
use momo::types::{DisplayMode, PixelFormat};

fn all_modes() -> [DisplayMode; 19] {
    [
        DisplayMode::Hd720p50,
        DisplayMode::Hd720p5994,
        DisplayMode::Hd720p60,
        DisplayMode::Hd1080i50,
        DisplayMode::Hd1080i5994,
        DisplayMode::Hd1080p24,
        DisplayMode::Hd1080p25,
        DisplayMode::Hd1080p2997,
        DisplayMode::Hd1080p30,
        DisplayMode::Hd1080p50,
        DisplayMode::Hd1080p5994,
        DisplayMode::Hd1080p60,
        DisplayMode::Uhd2160p24,
        DisplayMode::Uhd2160p25,
        DisplayMode::Uhd2160p2997,
        DisplayMode::Uhd2160p30,
        DisplayMode::Uhd2160p50,
        DisplayMode::Uhd2160p5994,
        DisplayMode::Uhd2160p60,
    ]
}

#[test]
fn display_mode_roundtrip() {
    for mode in all_modes() {
        let bmd = display_mode_to_bmd(mode);
        let back = bmd_to_display_mode(bmd).expect("roundtrip failed");
        assert_eq!(mode, back, "roundtrip failed for {:?} (0x{:08X})", mode, bmd);
    }
}

#[test]
fn pixel_format_roundtrip() {
    for fmt in [PixelFormat::Uyvy, PixelFormat::Bgra, PixelFormat::V210] {
        let bmd = pixel_format_to_bmd(fmt);
        let back = bmd_to_pixel_format(bmd).expect("roundtrip failed");
        assert_eq!(fmt, back);
    }
}

#[test]
fn unknown_bmd_display_mode() {
    assert_eq!(bmd_to_display_mode(0xDEADBEEF), None);
}

#[test]
fn unknown_bmd_pixel_format() {
    assert_eq!(bmd_to_pixel_format(0xDEADBEEF), None);
}

#[test]
fn known_bmd_constants() {
    assert_eq!(pixel_format_to_bmd(PixelFormat::Uyvy), 0x32767579);
    assert_eq!(pixel_format_to_bmd(PixelFormat::Bgra), 0x42475241);
    assert_eq!(pixel_format_to_bmd(PixelFormat::V210), 0x76323130);
}

#[test]
fn known_bmd_display_mode_constants() {
    assert_eq!(display_mode_to_bmd(DisplayMode::Hd1080p5994), 0x48703539);
    assert_eq!(display_mode_to_bmd(DisplayMode::Hd1080p24), 0x32347073);
    assert_eq!(display_mode_to_bmd(DisplayMode::Uhd2160p60), 0x346B3630);
    assert_eq!(bmd_to_display_mode(0x68703530), Some(DisplayMode::Hd720p50));
}

#[test]
fn display_mode_codes_are_distinct() {
    let modes = all_modes();
    for (i, a) in modes.iter().enumerate() {
        for b in modes.iter().skip(i + 1) {
            assert_ne!(display_mode_to_bmd(*a), display_mode_to_bmd(*b));
        }
    }
}

#[test]
fn mode_resolutions_and_rates() {
    let r = DisplayMode::Hd1080i50.resolution();
    assert_eq!((r.width, r.height), (1920, 1080));
    let r = DisplayMode::Hd720p5994.resolution();
    assert_eq!((r.width, r.height), (1280, 720));
    let r = DisplayMode::Uhd2160p24.resolution();
    assert_eq!((r.width, r.height), (3840, 2160));
    let f = DisplayMode::Hd1080i5994.frame_rate();
    assert_eq!((f.num, f.den), (30000, 1001));
    let f = DisplayMode::Hd1080i50.frame_rate();
    assert_eq!((f.num, f.den), (25000, 1000));
    let f = DisplayMode::Uhd2160p5994.frame_rate();
    assert_eq!((f.num, f.den), (60000, 1001));
}
