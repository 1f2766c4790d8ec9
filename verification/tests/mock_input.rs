use momo::frame::Frame;
use momo::mock_input::{generate_color_bars, MockInput};
use momo::types::{PixelFormat, Resolution};

#[test]
fn color_bar_frame_size() {
    let data = generate_color_bars(1920, 1080);
    assert_eq!(data.len(), 1920 * 1080 * 2);
}

#[test]
fn color_bar_frame_small() {
    let data = generate_color_bars(320, 240);
    assert_eq!(data.len(), 320 * 240 * 2);
}

#[test]
fn color_bar_values() {
    // 16 pixels wide: bars are 2 pixels (one macro-pixel) each
    let data = generate_color_bars(16, 2);
    assert_eq!(&data[0..4], &[128, 235, 128, 235]); // white
    assert_eq!(&data[4..8], &[16, 210, 146, 210]); // yellow
    assert_eq!(&data[28..32], &[128, 16, 128, 16]); // black
    assert_eq!(&data[32..36], &[128, 235, 128, 235]); // second row starts white again
}

#[test]
fn color_bar_last_bar_extends_to_the_edge() {
    // 20 pixels: bars are 2 pixels wide, pixels 14..20 all belong to the last (black) bar
    let data = generate_color_bars(20, 1);
    for x in (14..20).step_by(2) {
        assert_eq!(&data[x * 2..x * 2 + 4], &[128, 16, 128, 16]);
    }
}

#[test]
fn color_bar_size_matches_expected_frame_size() {
    let data = generate_color_bars(64, 8);
    assert_eq!(
        data.len(),
        Frame::expected_size(Resolution { width: 64, height: 8 }, PixelFormat::Uyvy)
    );
}

#[test]
fn empty_color_bars() {
    assert!(generate_color_bars(0, 10).is_empty());
    assert!(generate_color_bars(10, 0).is_empty());
}

#[test]
fn mock_input_keeps_its_settings() {
    let m = MockInput::new(320, 240, 10);
    assert_eq!((m.width(), m.height(), m.fps()), (320, 240, 10));
}

#[test]
fn expected_sizes() {
    let res = Resolution { width: 1920, height: 1080 };
    assert_eq!(Frame::expected_size(res, PixelFormat::Uyvy), 1920 * 1080 * 2);
    assert_eq!(Frame::expected_size(res, PixelFormat::Bgra), 1920 * 1080 * 4);
    // 1920 / 48 = 40 groups of 128 bytes per row
    assert_eq!(Frame::expected_size(res, PixelFormat::V210), 40 * 128 * 1080);
    // 1280 pixels need 27 started groups
    let res = Resolution { width: 1280, height: 720 };
    assert_eq!(Frame::expected_size(res, PixelFormat::V210), 27 * 128 * 720);
}
