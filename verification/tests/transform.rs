use momo::error::Error;
use momo::transform::{crop_uyvy, flip_uyvy, scale_uyvy_nearest};
use momo::types::{CropRegion, Resolution};

fn make_uyvy_frame(w: u32, h: u32) -> Vec<u8> {
    // Fill with identifiable pattern: each macro-pixel gets unique values
    let macro_w = w as usize / 2;
    let mut data = vec![0u8; w as usize * 2 * h as usize];
    for row in 0..h as usize {
        for mx in 0..macro_w {
            let offset = row * w as usize * 2 + mx * 4;
            let val = ((row * macro_w + mx) & 0xFF) as u8;
            data[offset] = val; // U
            data[offset + 1] = val + 1; // Y0
            data[offset + 2] = val + 2; // V
            data[offset + 3] = val + 3; // Y1
        }
    }
    data
}

#[test]
fn crop_uyvy_basic() {
    let w = 8u32;
    let h = 4u32;
    let data = make_uyvy_frame(w, h);
    let res = Resolution { width: w, height: h };
    let crop = CropRegion { x: 2, y: 1, width: 4, height: 2 };

    let cropped = crop_uyvy(&data, res, &crop).unwrap();
    // 4 pixels wide × 2 rows = 4*2*2 = 16 bytes
    assert_eq!(cropped.len(), 16);
}

#[test]
fn crop_uyvy_full_frame() {
    let w = 8u32;
    let h = 4u32;
    let data = make_uyvy_frame(w, h);
    let res = Resolution { width: w, height: h };
    let crop = CropRegion { x: 0, y: 0, width: w, height: h };

    let cropped = crop_uyvy(&data, res, &crop).unwrap();
    assert_eq!(cropped, data);
}

#[test]
fn crop_uyvy_out_of_bounds() {
    let w = 8u32;
    let h = 4u32;
    let data = make_uyvy_frame(w, h);
    let res = Resolution { width: w, height: h };
    let crop = CropRegion { x: 6, y: 0, width: 4, height: 4 };

    assert!(crop_uyvy(&data, res, &crop).is_err());
}

#[test]
fn crop_uyvy_bytes_and_alignment() {
    // 8x4 frame; crop at odd x=3 width 2 aligns to x=2, width 2 (3 -> 2, 2+1 -> 2)
    let data = make_uyvy_frame(8, 4);
    let res = Resolution { width: 8, height: 4 };
    let crop = CropRegion { x: 3, y: 1, width: 2, height: 2 };
    let cropped = crop_uyvy(&data, res, &crop).unwrap();
    // rows 1 and 2, macro-pixel 1 (bytes 4..8 of each row)
    let mut expected = Vec::new();
    expected.extend_from_slice(&data[16 + 4..16 + 8]);
    expected.extend_from_slice(&data[32 + 4..32 + 8]);
    assert_eq!(cropped, expected);
}

#[test]
fn crop_uyvy_error_messages() {
    let data = make_uyvy_frame(8, 4);
    let res = Resolution { width: 8, height: 4 };
    match crop_uyvy(&data, res, &CropRegion { x: 6, y: 0, width: 4, height: 4 }) {
        Err(Error::Gpu(m)) => assert_eq!(m, "crop region (6,0 4x4) exceeds source 8x4"),
        other => panic!("unexpected {:?}", other),
    }
    match crop_uyvy(&data, res, &CropRegion { x: 0, y: 0, width: 1, height: 2 }) {
        Err(Error::Gpu(m)) => assert_eq!(m, "crop region has zero dimension"),
        other => panic!("unexpected {:?}", other),
    }
    match crop_uyvy(&data, res, &CropRegion { x: 0, y: 2, width: 4, height: 0 }) {
        Err(Error::Gpu(m)) => assert_eq!(m, "crop region has zero dimension"),
        other => panic!("unexpected {:?}", other),
    }
}

#[test]
fn scale_uyvy_nearest_half() {
    let w = 8u32;
    let h = 4u32;
    let data = make_uyvy_frame(w, h);
    let src_res = Resolution { width: w, height: h };
    let dst_res = Resolution { width: 4, height: 2 };

    let scaled = scale_uyvy_nearest(&data, src_res, dst_res);
    assert_eq!(scaled.len(), 4 * 2 * 2); // 4 pixels × 2 rows × 2 bytes/pixel
}

#[test]
fn scale_uyvy_nearest_half_values() {
    let data = make_uyvy_frame(8, 4);
    let scaled = scale_uyvy_nearest(
        &data,
        Resolution { width: 8, height: 4 },
        Resolution { width: 4, height: 2 },
    );
    // destination row 0 samples source row 0, macro-pixels 0 and 2;
    // destination row 1 samples source row 2, macro-pixels 0 and 2.
    let mut expected = Vec::new();
    expected.extend_from_slice(&data[0..4]);
    expected.extend_from_slice(&data[8..12]);
    expected.extend_from_slice(&data[32..36]);
    expected.extend_from_slice(&data[40..44]);
    assert_eq!(scaled, expected);
}

#[test]
fn scale_uyvy_nearest_odd_width_pads_zero() {
    let data = make_uyvy_frame(4, 1);
    let scaled = scale_uyvy_nearest(
        &data,
        Resolution { width: 4, height: 1 },
        Resolution { width: 3, height: 1 },
    );
    assert_eq!(scaled.len(), 6);
    assert_eq!(&scaled[0..4], &data[0..4]);
    assert_eq!(&scaled[4..6], &[0, 0]);
}

#[test]
fn scale_uyvy_nearest_same_size() {
    let w = 4u32;
    let h = 2u32;
    let data = make_uyvy_frame(w, h);
    let res = Resolution { width: w, height: h };

    let scaled = scale_uyvy_nearest(&data, res, res);
    assert_eq!(scaled, data);
}

#[test]
fn flip_uyvy_noop() {
    let w = 4u32;
    let h = 2u32;
    let data = make_uyvy_frame(w, h);
    let res = Resolution { width: w, height: h };

    let result = flip_uyvy(&data, res, false, false);
    assert_eq!(result, data);
}

#[test]
fn flip_uyvy_vertical() {
    let w = 4u32;
    let h = 2u32;
    let data = make_uyvy_frame(w, h);
    let res = Resolution { width: w, height: h };
    let stride = w as usize * 2;

    let flipped = flip_uyvy(&data, res, false, true);
    // First row of flipped should be last row of source
    assert_eq!(&flipped[..stride], &data[stride..]);
    assert_eq!(&flipped[stride..], &data[..stride]);
}

#[test]
fn flip_uyvy_horizontal() {
    // 4 pixels (2 macro-pixels), 1 row
    let data: Vec<u8> = vec![
        10, 11, 12, 13, // macro-pixel 0: U=10, Y0=11, V=12, Y1=13
        20, 21, 22, 23, // macro-pixel 1: U=20, Y0=21, V=22, Y1=23
    ];
    let res = Resolution { width: 4, height: 1 };

    let flipped = flip_uyvy(&data, res, true, false);
    // macro-pixel 1 → position 0, with Y0/Y1 swapped
    assert_eq!(flipped[0], 20); // U from macro 1
    assert_eq!(flipped[1], 23); // Y1 from macro 1 → Y0
    assert_eq!(flipped[2], 22); // V from macro 1
    assert_eq!(flipped[3], 21); // Y0 from macro 1 → Y1
    // macro-pixel 0 → position 1, with Y0/Y1 swapped
    assert_eq!(flipped[4], 10); // U from macro 0
    assert_eq!(flipped[5], 13); // Y1 from macro 0 → Y0
    assert_eq!(flipped[6], 12); // V from macro 0
    assert_eq!(flipped[7], 11); // Y0 from macro 0 → Y1
}

#[test]
fn flip_uyvy_both_directions() {
    let data: Vec<u8> = vec![1, 2, 3, 4, 5, 6, 7, 8, 9, 10, 11, 12, 13, 14, 15, 16];
    let res = Resolution { width: 4, height: 2 };
    let flipped = flip_uyvy(&data, res, true, true);
    assert_eq!(flipped, vec![13, 16, 15, 14, 9, 12, 11, 10, 5, 8, 7, 6, 1, 4, 3, 2]);
}

#[test]
fn flip_uyvy_odd_width_and_trailing_bytes() {
    // width 3: one macro-pixel plus a half macro-pixel per row, which stays zero
    let data: Vec<u8> = vec![1, 2, 3, 4, 5, 6, 7, 8];
    let res = Resolution { width: 3, height: 1 };
    let flipped = flip_uyvy(&data, res, true, false);
    assert_eq!(flipped, vec![1, 4, 3, 2, 0, 0, 0, 0]);
}

#[test]
fn flip_twice_gives_back_the_frame() {
    let data = make_uyvy_frame(8, 3);
    let res = Resolution { width: 8, height: 3 };
    for (h, v) in [(true, false), (false, true), (true, true)] {
        let once = flip_uyvy(&data, res, h, v);
        assert_ne!(once, data);
        let twice = flip_uyvy(&once, res, h, v);
        assert_eq!(twice, data);
    }
}

#[test]
fn process_crop_scale_flip() {
    // Integration: crop 4x2 from 8x4, scale to 4x2, flip vertical
    let w = 8u32;
    let h = 4u32;
    let data = make_uyvy_frame(w, h);
    let src_res = Resolution { width: w, height: h };

    let crop = CropRegion { x: 0, y: 0, width: 4, height: 4 };
    let cropped = crop_uyvy(&data, src_res, &crop).unwrap();
    let crop_res = Resolution { width: 4, height: 4 };

    let dst_res = Resolution { width: 4, height: 2 };
    let scaled = scale_uyvy_nearest(&cropped, crop_res, dst_res);

    let flipped = flip_uyvy(&scaled, dst_res, false, true);
    assert_eq!(flipped.len(), 4 * 2 * 2);
}
