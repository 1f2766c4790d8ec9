use momo::config::{Config, InputSource, OutputConfig, PreviewConfig, WebConfig};
use momo::error::Error;
use momo::input::InputDriver;
use momo::pipeline::{Pipeline, PipelineEvent};
use momo::types::{DisplayMode, FlipOptions, OutputTransform, PipelineState, PixelFormat};

fn mock_config() -> Config {
    Config {
        input: InputSource::Mock { width: 320, height: 240, fps: 10 },
        outputs: vec![OutputConfig {
            id: "out1".into(),
            name: "Output 1".into(),
            device_index: 0,
            display_mode: DisplayMode::Hd1080p5994,
            pixel_format: PixelFormat::Uyvy,
            transform: OutputTransform::default(),
            enabled: true,
        }],
        preview: PreviewConfig::default(),
        web: WebConfig::default(),
    }
}

fn state_changes(events: &[PipelineEvent]) -> Vec<PipelineState> {
    events
        .iter()
        .filter_map(|e| match e {
            PipelineEvent::StateChanged { state } => Some(*state),
            _ => None,
        })
        .collect()
}

#[test]
fn initial_state_is_stopped() {
    let pipeline = Pipeline::new();
    assert_eq!(pipeline.state(), PipelineState::Stopped);
    assert!(pipeline.config().is_none());
}

#[test]
fn set_config() {
    let mut pipeline = Pipeline::new();

    pipeline.set_config(mock_config()).unwrap();
    assert!(pipeline.config().is_some());

    let events = pipeline.take_events();
    assert!(matches!(events[0], PipelineEvent::ConfigChanged));
}

#[test]
fn pipeline_update_output_transform() {
    let mut pipeline = Pipeline::new();
    pipeline.set_config(mock_config()).unwrap();

    let transform = OutputTransform {
        crop: None,
        flip: FlipOptions { horizontal: true, vertical: false },
    };
    pipeline.update_output("out1", transform).unwrap();

    let output = &pipeline.config().unwrap().outputs[0];
    assert!(output.transform.flip.horizontal);
}

#[test]
fn update_output_not_found() {
    let mut pipeline = Pipeline::new();
    pipeline.set_config(mock_config()).unwrap();

    let result = pipeline.update_output("nonexistent", OutputTransform::default());
    assert!(result.is_err());
}

#[test]
fn start_without_config_fails() {
    let mut pipeline = Pipeline::new();
    assert!(pipeline.start().is_err());
}

#[test]
fn stop_when_stopped_fails() {
    let mut pipeline = Pipeline::new();
    assert!(pipeline.stop().is_err());
}

#[test]
fn start_stop_lifecycle_decisions() {
    let mut pipeline = Pipeline::new();
    pipeline.set_config(mock_config()).unwrap();
    pipeline.take_events();

    let plan = pipeline.start().unwrap();
    assert_eq!(pipeline.state(), PipelineState::Running);
    assert_eq!(plan.outputs.len(), 1);
    assert_eq!(plan.preview.fps, 10);
    match plan.driver {
        InputDriver::Mock(m) => assert_eq!((m.width(), m.height(), m.fps()), (320, 240, 10)),
    }
    assert!(pipeline.has_output_preview("out1"));
    assert!(!pipeline.has_output_preview("nonexistent"));

    // starting again is refused
    match pipeline.start() {
        Err(Error::Pipeline(m)) => assert_eq!(m, "pipeline is not stopped"),
        _ => panic!("expected a pipeline error"),
    }

    pipeline.stop().unwrap();
    assert_eq!(pipeline.state(), PipelineState::Stopped);
    assert!(!pipeline.has_output_preview("out1"));
    assert_eq!(
        state_changes(&pipeline.take_events()),
        vec![
            PipelineState::Starting,
            PipelineState::Running,
            PipelineState::Stopping,
            PipelineState::Stopped
        ]
    );
}

#[test]
fn start_with_hardware_input_stays_starting() {
    let mut config = mock_config();
    config.input = InputSource::Uvc { device_path: "/dev/video0".into() };
    let mut pipeline = Pipeline::new();
    pipeline.set_config(config).unwrap();
    match pipeline.start() {
        Err(Error::Pipeline(m)) => {
            assert_eq!(m, "unsupported input source (hardware not available)")
        }
        _ => panic!("expected a pipeline error"),
    }
    assert_eq!(pipeline.state(), PipelineState::Starting);
    assert!(pipeline.stop().is_err());
}

#[test]
fn disabled_outputs_get_no_preview() {
    let mut config = mock_config();
    let mut second = config.outputs[0].clone();
    second.id = "out2".into();
    second.enabled = false;
    config.outputs.push(second);
    let mut pipeline = Pipeline::new();
    pipeline.set_config(config).unwrap();
    let plan = pipeline.start().unwrap();
    assert_eq!(plan.outputs.len(), 1);
    assert_eq!(plan.outputs[0].id, "out1");
    assert!(pipeline.has_output_preview("out1"));
    assert!(!pipeline.has_output_preview("out2"));
}

#[test]
fn update_output_while_running_hands_back_enabled_outputs() {
    let mut pipeline = Pipeline::new();
    pipeline.set_config(mock_config()).unwrap();
    assert!(pipeline.update_output("out1", OutputTransform::default()).unwrap().is_none());
    pipeline.start().unwrap();
    let transform = OutputTransform {
        crop: None,
        flip: FlipOptions { horizontal: false, vertical: true },
    };
    let pushed = pipeline.update_output("out1", transform).unwrap().unwrap();
    assert_eq!(pushed.len(), 1);
    assert!(pushed[0].transform.flip.vertical);
}

#[test]
fn error_kinds_of_requests() {
    let mut pipeline = Pipeline::new();
    match pipeline.start() {
        Err(Error::Config(m)) => assert_eq!(m, "no configuration set"),
        _ => panic!("expected a config error"),
    }
    match pipeline.update_output("out1", OutputTransform::default()) {
        Err(Error::Config(m)) => assert_eq!(m, "no configuration set"),
        _ => panic!("expected a config error"),
    }
    match pipeline.stop() {
        Err(Error::Pipeline(m)) => assert_eq!(m, "pipeline is not running"),
        _ => panic!("expected a pipeline error"),
    }
    match pipeline.save_target() {
        Err(Error::Config(m)) => assert_eq!(m, "no configuration to save"),
        _ => panic!("expected a config error"),
    }
    pipeline.set_config(mock_config()).unwrap();
    match pipeline.save_target() {
        Err(Error::Config(m)) => assert_eq!(m, "no config path set"),
        _ => panic!("expected a config error"),
    }
    match pipeline.update_output("nope", OutputTransform::default()) {
        Err(Error::DeviceNotFound(m)) => assert_eq!(m, "output 'nope' not found"),
        _ => panic!("expected a not-found error"),
    }
    pipeline.set_config_path("config.json".into());
    let (config, path) = pipeline.save_target().unwrap();
    assert_eq!(config.outputs.len(), 1);
    assert_eq!(path, "config.json");
}

#[test]
fn invalid_config_is_not_installed() {
    let mut pipeline = Pipeline::new();
    let mut config = mock_config();
    config.outputs.clear();
    assert!(pipeline.set_config(config.clone()).is_err());
    assert!(pipeline.config().is_none());
    assert!(pipeline.load_config(config, "x.json".into()).is_err());
    assert!(pipeline.config_path().is_none());
    assert!(pipeline.take_events().is_empty());
    assert!(pipeline.outputs().is_empty());
}

#[test]
fn load_config_sets_path() {
    let mut pipeline = Pipeline::new();
    pipeline.load_config(mock_config(), "a.json".into()).unwrap();
    assert_eq!(pipeline.config_path().unwrap(), "a.json");
    assert_eq!(pipeline.outputs().len(), 1);
    assert!(matches!(pipeline.take_events()[..], [PipelineEvent::ConfigChanged]));
}

#[test]
fn set_config_reports_validation_error() {
    let mut pipeline = Pipeline::new();
    pipeline.set_config(mock_config()).unwrap();
    pipeline.take_events();
    let mut config = mock_config();
    let dup = config.outputs[0].clone();
    config.outputs.push(dup);
    match pipeline.set_config(config.clone()) {
        Err(Error::Config(m)) => assert_eq!(m, "duplicate output id: out1"),
        _ => panic!("expected a config error"),
    }
    match pipeline.load_config(config, "b.json".into()) {
        Err(Error::Config(m)) => assert_eq!(m, "duplicate output id: out1"),
        _ => panic!("expected a config error"),
    }
    assert_eq!(pipeline.outputs().len(), 1);
    assert_eq!(pipeline.state(), PipelineState::Stopped);
    assert!(pipeline.take_events().is_empty());
}

#[test]
fn default_pipeline_is_stopped_and_empty() {
    let mut pipeline = Pipeline::default();
    assert_eq!(pipeline.state(), PipelineState::Stopped);
    assert!(pipeline.config().is_none());
    assert!(pipeline.config_path().is_none());
    assert!(!pipeline.has_output_preview("out1"));
    assert!(pipeline.take_events().is_empty());
}

#[test]
fn previews_follow_last_successful_start() {
    let mut pipeline = Pipeline::new();
    pipeline.set_config(mock_config()).unwrap();
    assert!(!pipeline.has_output_preview("out1"));
    pipeline.start().unwrap();
    assert!(pipeline.has_output_preview("out1"));
    assert!(!pipeline.has_output_preview("nonexistent"));

    // A new configuration while running does not change the previews.
    let mut config = mock_config();
    config.outputs[0].id = "other".into();
    pipeline.set_config(config).unwrap();
    assert!(pipeline.has_output_preview("out1"));
    assert!(!pipeline.has_output_preview("other"));

    pipeline.stop().unwrap();
    assert!(!pipeline.has_output_preview("out1"));

    // The next start uses the configuration then in force.
    pipeline.start().unwrap();
    assert!(pipeline.has_output_preview("other"));
    assert!(!pipeline.has_output_preview("out1"));
}
