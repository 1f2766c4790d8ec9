use momo::webrtc::{is_webrtc_available, uyvy_to_nv12};

#[test]
fn convert_uyvy_to_nv12_basic() {
    let data = vec![
        128, 200, 128, 210, // row 0: U=128, Y0=200, V=128, Y1=210
        100, 150, 200, 160, // row 1: U=100, Y0=150, V=200, Y1=160
    ];
    let nv12 = uyvy_to_nv12(&data, 2, 2);
    assert_eq!(nv12.len(), 6);
    assert_eq!(nv12[0], 200);
    assert_eq!(nv12[1], 210);
    assert_eq!(nv12[2], 150);
    assert_eq!(nv12[3], 160);
    assert_eq!(nv12[4], 128);
    assert_eq!(nv12[5], 128);
}

#[test]
fn uyvy_to_nv12_4x4() {
    let w = 4u32;
    let h = 4u32;
    let data = vec![128u8; (w * h * 2) as usize];
    let nv12 = uyvy_to_nv12(&data, w, h);
    let expected_size = (w * h + w * h / 2) as usize;
    assert_eq!(nv12.len(), expected_size);
    for &y in &nv12[..(w * h) as usize] {
        assert_eq!(y, 128);
    }
}

#[test]
fn webrtc_not_available_in_this_build() {
    assert!(!is_webrtc_available());
}
