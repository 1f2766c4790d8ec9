use momo::config::PreviewConfig;
use momo::error::Error;
use momo::preview::{encode_rgb_preview, nearest_neighbor_scale, preview_from_jpeg_result, uyvy_to_nv12};

#[test]
fn preview_uyvy_to_nv12_basic() {
    let data = vec![
        128, 200, 128, 210, // row 0: U=128, Y0=200, V=128, Y1=210
        100, 150, 200, 160, // row 1: U=100, Y0=150, V=200, Y1=160
    ];
    let nv12 = uyvy_to_nv12(&data, 2, 2);
    assert_eq!(nv12.len(), 6);
    assert_eq!(nv12[0], 200); // Y0 row 0
    assert_eq!(nv12[1], 210); // Y1 row 0
    assert_eq!(nv12[2], 150); // Y0 row 1
    assert_eq!(nv12[3], 160); // Y1 row 1
    assert_eq!(nv12[4], 128); // U from row 0
    assert_eq!(nv12[5], 128); // V from row 0
}

#[test]
fn nearest_neighbor_scale_halves() {
    // 4x2 RGB → 2x1
    let src = vec![
        255, 0, 0, 0, 255, 0, 0, 0, 255, 255, 255, 0, // row 0
        0, 0, 0, 0, 0, 0, 0, 0, 0, 0, 0, 0, // row 1
    ];
    let dst = nearest_neighbor_scale(&src, 4, 2, 2, 1);
    assert_eq!(dst.len(), 6);
    assert_eq!(&dst[0..3], &[255, 0, 0]); // sampled from (0,0)
    assert_eq!(&dst[3..6], &[0, 0, 255]); // sampled from (2,0)
}

#[test]
fn nearest_neighbor_scale_up() {
    // 1x1 → 2x2 repeats the pixel
    let dst = nearest_neighbor_scale(&[1, 2, 3], 1, 1, 2, 2);
    assert_eq!(dst, vec![1, 2, 3, 1, 2, 3, 1, 2, 3, 1, 2, 3]);
}

#[test]
fn nv12_chroma_from_even_rows() {
    // 4x2: chroma takes U/V from row 0 only
    let data = vec![
        1, 2, 3, 4, 5, 6, 7, 8, // row 0
        9, 10, 11, 12, 13, 14, 15, 16, // row 1
    ];
    let nv12 = uyvy_to_nv12(&data, 4, 2);
    assert_eq!(nv12, vec![2, 4, 6, 8, 10, 12, 14, 16, 1, 3, 5, 7]);
}

#[test]
fn encode_rgb_preview_produces_jpeg() {
    let rgb = vec![128u8; 32 * 24 * 3];
    let config = PreviewConfig { width: 16, height: 12, fps: 10, jpeg_quality: 75 };
    let jpeg = encode_rgb_preview(&rgb, 32, 24, &config).unwrap();
    // JPEG magic bytes
    assert!(jpeg.len() > 2);
    assert_eq!(jpeg[0], 0xFF);
    assert_eq!(jpeg[1], 0xD8);
    assert_eq!(jpeg[jpeg.len() - 2], 0xFF);
    assert_eq!(jpeg[jpeg.len() - 1], 0xD9);
}

#[test]
fn encode_rgb_preview_rejects_empty_size() {
    let rgb = vec![0u8; 3];
    let config = PreviewConfig { width: 0, height: 12, fps: 10, jpeg_quality: 75 };
    match encode_rgb_preview(&rgb, 1, 1, &config) {
        Err(Error::Pipeline(m)) => assert!(m.starts_with("JPEG encode error: ")),
        other => panic!("unexpected {:?}", other),
    }
}

#[test]
fn jpeg_result_mapping() {
    match preview_from_jpeg_result(Err("bad size".to_string())) {
        Err(Error::Pipeline(m)) => assert_eq!(m, "JPEG encode error: bad size"),
        other => panic!("unexpected {:?}", other),
    }
    assert_eq!(preview_from_jpeg_result(Ok(vec![1, 2, 3])).unwrap(), vec![1, 2, 3]);
}
