use std::sync::Arc;

use momo::frame::Frame;
use momo::mock_input::color_bars_is_admissible;
use momo::preview::{nn_scale_is_admissible, nv12_is_admissible};
use momo::processor::process_is_admissible;
use momo::transform::{aligned_crop, crop_is_admissible, flip_is_admissible, scale_is_admissible};
use momo::types::{CropRegion, FlipOptions, OutputTransform, PixelFormat, Resolution};

fn res(width: u32, height: u32) -> Resolution {
    Resolution { width, height }
}

fn frame_with_len(w: u32, h: u32, len: usize) -> Frame {
    Frame {
        data: Arc::new(vec![0u8; len]),
        resolution: res(w, h),
        format: PixelFormat::Uyvy,
        timestamp_ns: 0,
        sequence: 0,
    }
}

#[test]
fn aligned_crop_rounds_to_pixel_pairs() {
    assert_eq!(aligned_crop(&CropRegion { x: 3, y: 0, width: 4, height: 1 }), (2, 4));
    assert_eq!(aligned_crop(&CropRegion { x: 2, y: 0, width: 5, height: 1 }), (2, 4));
    assert_eq!(aligned_crop(&CropRegion { x: 1, y: 0, width: 1, height: 1 }), (0, 2));
}

#[test]
fn crop_admissible_needs_enough_data() {
    let crop = CropRegion { x: 2, y: 1, width: 4, height: 2 };
    // The last byte read is at (1 + 2 - 1) * 16 + (2 + 4) * 2 = 44.
    assert!(crop_is_admissible(64, res(8, 4), &crop));
    assert!(crop_is_admissible(44, res(8, 4), &crop));
    assert!(!crop_is_admissible(43, res(8, 4), &crop));
}

#[test]
fn crop_out_of_bounds_is_admissible_because_it_fails_cleanly() {
    let crop = CropRegion { x: 6, y: 0, width: 4, height: 1 };
    assert!(crop_is_admissible(0, res(8, 4), &crop));
}

#[test]
fn crop_width_overflowing_u32_is_not_admissible() {
    let crop = CropRegion { x: 1, y: 0, width: u32::MAX, height: 1 };
    assert!(!crop_is_admissible(u128::MAX, res(8, 4), &crop));
}

#[test]
fn scale_admissible_cases() {
    assert!(scale_is_admissible(16, res(4, 2), res(2, 1)));
    assert!(!scale_is_admissible(4, res(4, 2), res(2, 1)));
    // A source narrower than one pixel pair cannot feed a wider output.
    assert!(!scale_is_admissible(2, res(1, 1), res(2, 1)));
    // An empty output needs nothing from the source.
    assert!(scale_is_admissible(0, res(4, 2), res(4, 0)));
}

#[test]
fn flip_admissible_cases() {
    assert!(flip_is_admissible(16, res(4, 2), true, false));
    assert!(!flip_is_admissible(15, res(4, 2), true, false));
    assert!(!flip_is_admissible(15, res(4, 2), false, true));
    assert!(flip_is_admissible(16, res(4, 2), false, true));
    assert!(flip_is_admissible(0, res(4, 2), false, false));
}

#[test]
fn nn_scale_admissible_cases() {
    // The bottom-right output pixel samples source pixel (2, 2): bytes 30..33.
    assert!(nn_scale_is_admissible(48, 4, 4, 2, 2));
    assert!(nn_scale_is_admissible(33, 4, 4, 2, 2));
    assert!(!nn_scale_is_admissible(32, 4, 4, 2, 2));
    // The output must fit in u32 bytes.
    assert!(!nn_scale_is_admissible(u128::MAX, 4, 4, 65536, 65536));
}

#[test]
fn nv12_admissible_cases() {
    assert!(nv12_is_admissible(16, 4, 2));
    assert!(!nv12_is_admissible(15, 4, 2));
    assert!(!nv12_is_admissible(16, 3, 2));
    assert!(!nv12_is_admissible(16, 4, 1));
    assert!(nv12_is_admissible(0, 0, 0));
}

#[test]
fn color_bars_admissible_cases() {
    assert!(color_bars_is_admissible(16, 4));
    assert!(color_bars_is_admissible(8, 1));
    assert!(!color_bars_is_admissible(6, 2));
    assert!(!color_bars_is_admissible(9, 2));
    assert!(color_bars_is_admissible(0, 0));
    assert!(!color_bars_is_admissible(65536, 65536));
}

#[test]
fn process_admissible_cases() {
    let full = frame_with_len(8, 4, 64);
    let t = OutputTransform::default();
    assert!(process_is_admissible(&full, &t, res(8, 4)));
    assert!(process_is_admissible(&full, &t, res(4, 2)));

    let short = frame_with_len(8, 4, 10);
    assert!(!process_is_admissible(&short, &t, res(4, 2)));

    // A crop outside the frame fails before anything reads the data.
    let outside = OutputTransform {
        crop: Some(CropRegion { x: 8, y: 0, width: 4, height: 4 }),
        flip: FlipOptions::default(),
    };
    assert!(process_is_admissible(&short, &outside, res(4, 2)));

    let flipped = OutputTransform {
        crop: None,
        flip: FlipOptions { horizontal: true, vertical: true },
    };
    assert!(process_is_admissible(&full, &flipped, res(8, 4)));
    assert!(!process_is_admissible(&frame_with_len(8, 4, 63), &flipped, res(8, 4)));
}
