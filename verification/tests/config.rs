use momo::config::{
    default_bind_address, default_jpeg_quality, default_port, default_preview_fps,
    default_preview_height, default_preview_width, default_true, Config, InputSource,
    OutputConfig, PreviewConfig, WebConfig,
};
use momo::error::Error;
use momo::types::{CropRegion, DisplayMode, OutputTransform, PixelFormat};

fn decklink_input() -> InputSource {
    InputSource::DeckLink {
        device_index: 0,
        display_mode: DisplayMode::Hd1080p5994,
        pixel_format: PixelFormat::Uyvy,
    }
}

/// An output as written in a configuration file with only the required keys.
fn output(id: &str, name: &str, device_index: u32) -> OutputConfig {
    OutputConfig {
        id: id.into(),
        name: name.into(),
        device_index,
        display_mode: DisplayMode::Hd1080p5994,
        pixel_format: PixelFormat::Uyvy,
        transform: OutputTransform::default(),
        enabled: default_true(),
    }
}

fn config_with(outputs: Vec<OutputConfig>) -> Config {
    Config {
        input: decklink_input(),
        outputs,
        preview: PreviewConfig::default(),
        web: WebConfig::default(),
    }
}

#[test]
fn config_rejects_empty_outputs() {
    let err = config_with(vec![]).validate().unwrap_err();
    assert!(err.to_string().contains("at least one output"));
}

#[test]
fn config_rejects_duplicate_ids() {
    let err = config_with(vec![output("a", "A", 1), output("a", "B", 2)]).validate().unwrap_err();
    assert!(err.to_string().contains("duplicate output id"));
}

#[test]
fn config_rejects_zero_crop() {
    let mut a = output("a", "A", 1);
    a.transform.crop = Some(CropRegion { x: 0, y: 0, width: 0, height: 100 });
    let err = config_with(vec![a]).validate().unwrap_err();
    assert!(err.to_string().contains("non-zero dimensions"));
}

#[test]
fn config_defaults_applied() {
    let config = config_with(vec![output("a", "A", 1)]);
    config.validate().expect("parse");
    assert!(config.outputs[0].enabled);
    assert!(config.outputs[0].transform.crop.is_none());
    assert!(!config.outputs[0].transform.flip.horizontal);
    assert_eq!(config.preview.fps, 10);
    assert_eq!(config.web.bind_address, "0.0.0.0");
}

#[test]
fn input_source_uvc_roundtrip() {
    let config = Config {
        input: InputSource::Uvc { device_path: "/dev/video0".into() },
        outputs: vec![output("a", "A", 1)],
        preview: PreviewConfig::default(),
        web: WebConfig::default(),
    };
    config.validate().expect("parse");
    match &config.input {
        InputSource::Uvc { device_path } => assert_eq!(device_path, "/dev/video0"),
        _ => panic!("expected UVC input"),
    }
}

#[test]
fn validation_messages_are_exact() {
    match config_with(vec![]).validate() {
        Err(Error::Config(m)) => assert_eq!(m, "at least one output is required"),
        other => panic!("unexpected {:?}", other),
    }
    // the first output whose id repeats an earlier one is reported
    let outs = vec![output("x", "X", 1), output("y", "Y", 2), output("y", "Y2", 3), output("x", "X2", 4)];
    match config_with(outs).validate() {
        Err(Error::Config(m)) => assert_eq!(m, "duplicate output id: y"),
        other => panic!("unexpected {:?}", other),
    }
    let mut b = output("b", "B", 2);
    b.transform.crop = Some(CropRegion { x: 0, y: 0, width: 10, height: 0 });
    match config_with(vec![output("a", "A", 1), b]).validate() {
        Err(e) => assert_eq!(
            e.to_string(),
            "Config error: output 'b': crop region must have non-zero dimensions"
        ),
        Ok(()) => panic!("expected an error"),
    }
}

#[test]
fn duplicate_ids_are_reported_before_empty_crops() {
    let mut a = output("a", "A", 1);
    a.transform.crop = Some(CropRegion { x: 0, y: 0, width: 0, height: 0 });
    let err = config_with(vec![a, output("a", "B", 2)]).validate().unwrap_err();
    assert!(err.to_string().contains("duplicate output id: a"));
}

#[test]
fn default_values() {
    assert!(default_true());
    assert_eq!(default_preview_width(), 640);
    assert_eq!(default_preview_height(), 360);
    assert_eq!(default_preview_fps(), 10);
    assert_eq!(default_jpeg_quality(), 75);
    assert_eq!(default_bind_address(), "0.0.0.0");
    assert_eq!(default_port(), 8080);
    let p = PreviewConfig::default();
    assert_eq!((p.width, p.height, p.fps, p.jpeg_quality), (640, 360, 10, 75));
    let w = WebConfig::default();
    assert_eq!((w.bind_address.as_str(), w.port), ("0.0.0.0", 8080));
}

#[test]
fn error_display_prefixes() {
    assert_eq!(Error::DeckLink("x".into()).to_string(), "DeckLink error: x");
    assert_eq!(Error::Uvc("x".into()).to_string(), "UVC error: x");
    assert_eq!(Error::Gpu("x".into()).to_string(), "GPU error: x");
    assert_eq!(Error::Pipeline("x".into()).to_string(), "Pipeline error: x");
    assert_eq!(Error::DeviceNotFound("x".into()).to_string(), "Device not found: x");
    assert_eq!(Error::DeviceDisconnected("x".into()).to_string(), "Device disconnected: x");
}
