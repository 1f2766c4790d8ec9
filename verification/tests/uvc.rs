use momo::uvc::{enumerate_devices, yuyv_to_uyvy, UvcInput};

#[test]
fn yuyv_to_uyvy_basic() {
    // YUYV: Y0=100, U=50, Y1=110, V=60
    let yuyv = vec![100, 50, 110, 60];
    let uyvy = yuyv_to_uyvy(&yuyv);
    // UYVY: U=50, Y0=100, V=60, Y1=110
    assert_eq!(uyvy, vec![50, 100, 60, 110]);
}

#[test]
fn yuyv_to_uyvy_multiple_macropixels() {
    let yuyv = vec![
        100, 50, 110, 60, // macro-pixel 0
        200, 150, 210, 160, // macro-pixel 1
    ];
    let uyvy = yuyv_to_uyvy(&yuyv);
    assert_eq!(
        uyvy,
        vec![
            50, 100, 60, 110, // macro-pixel 0 swapped
            150, 200, 160, 210, // macro-pixel 1 swapped
        ]
    );
}

#[test]
fn yuyv_to_uyvy_partial_group_is_zero() {
    assert_eq!(yuyv_to_uyvy(&[1, 2, 3, 4, 5, 6]), vec![2, 1, 4, 3, 0, 0]);
}

#[test]
fn yuyv_to_uyvy_twice_is_identity() {
    let data: Vec<u8> = (0u8..32).collect();
    assert_eq!(yuyv_to_uyvy(&yuyv_to_uyvy(&data)), data);
}

#[test]
fn uvc_input_and_devices() {
    let input = UvcInput::new("/dev/video0", 1920, 1080, 30);
    assert_eq!(input.device_path, "/dev/video0");
    assert_eq!((input.width, input.height, input.fps), (1920, 1080, 30));
    assert!(enumerate_devices().is_empty());
}
