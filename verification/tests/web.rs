use momo::decklink::{enumerate_devices_ffi, BridgeDeviceInfo, DeckLinkDevice, DeckLinkInput};
use momo::error::Error;
use momo::text::u64_to_decimal;
use momo::types::{DeviceStatus, DisplayMode, PixelFormat};
use momo::uvc::UvcDevice;
use momo::web::{collect_device_infos, device_status_name, mjpeg_part_header, ws_command_action, AppError, WsAction};

#[test]
fn app_error_status_codes() {
    assert_eq!(AppError(Error::Config("x".into())).status_code(), 400);
    assert_eq!(AppError(Error::DeviceNotFound("x".into())).status_code(), 404);
    assert_eq!(AppError(Error::Pipeline("x".into())).status_code(), 409);
    assert_eq!(AppError(Error::Gpu("x".into())).status_code(), 500);
    assert_eq!(AppError(Error::Pipeline("pipeline is not running".into())).message(), "Pipeline error: pipeline is not running");
}

#[test]
fn ws_commands() {
    assert_eq!(ws_command_action("start"), WsAction::Start);
    assert_eq!(ws_command_action("stop"), WsAction::Stop);
    assert_eq!(ws_command_action("restart"), WsAction::Ignore);
    assert_eq!(ws_command_action(""), WsAction::Ignore);
}

#[test]
fn mjpeg_headers() {
    assert_eq!(
        mjpeg_part_header(1234),
        "--frame\r\nContent-Type: image/jpeg\r\nContent-Length: 1234\r\n\r\n"
    );
    assert_eq!(u64_to_decimal(0), "0");
    assert_eq!(u64_to_decimal(10), "10");
    assert_eq!(u64_to_decimal(u64::MAX), u64::MAX.to_string());
}

#[test]
fn device_listing() {
    let decklink = vec![DeckLinkDevice {
        index: 0,
        name: "DeckLink Duo".into(),
        model_name: "Duo 2".into(),
        has_input: true,
        has_output: true,
        status: DeviceStatus::InUse,
    }];
    let uvc = vec![UvcDevice { index: 3, name: "Cam".into(), path: "/dev/video3".into() }];
    let infos = collect_device_infos(&decklink, &uvc);
    assert_eq!(infos.len(), 2);
    assert_eq!(infos[0].device_type, "DeckLink");
    assert_eq!(infos[0].status, "InUse");
    assert_eq!(infos[0].model_name, "Duo 2");
    assert_eq!(infos[1].device_type, "Uvc");
    assert_eq!(infos[1].index, 3);
    assert_eq!(infos[1].model_name, "Cam");
    assert!(infos[1].has_input && !infos[1].has_output);
    assert_eq!(infos[1].status, "Available");
    assert_eq!(device_status_name(DeviceStatus::Disconnected), "Disconnected");
}

#[test]
fn bridge_devices_become_available_devices() {
    let bridge = vec![
        BridgeDeviceInfo { index: 0, name: "A".into(), model_name: "M".into(), has_input: true, has_output: false },
        BridgeDeviceInfo { index: 1, name: "B".into(), model_name: "N".into(), has_input: false, has_output: true },
    ];
    let devices = enumerate_devices_ffi(bridge);
    assert_eq!(devices.len(), 2);
    assert_eq!(devices[1].name, "B");
    assert!(devices[1].has_output);
    assert!(devices.iter().all(|d| d.status == DeviceStatus::Available));
    assert!(momo::decklink::enumerate_devices().is_empty());
    let input = DeckLinkInput::new(2, DisplayMode::Hd720p60, PixelFormat::V210);
    assert_eq!(input.device_index, 2);
    assert_eq!(input.display_mode, DisplayMode::Hd720p60);
}
