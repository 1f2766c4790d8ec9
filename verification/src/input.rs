//! Selection of the input driver from the configured input source.
use vstd::prelude::*;

use crate::config::InputSource;
use crate::error::Error;
use crate::mock_input::MockInput;

verus! {

/// The driver that produces input frames. This build has no capture
/// hardware support, so the colour-bar source is the only driver.
pub enum InputDriver {
    Mock(MockInput),
}

/// The message for an input source that this build cannot drive.
pub open spec fn unsupported_input_message() -> Seq<char> {
    "unsupported input source (hardware not available)"@
}

impl InputDriver {
    /// The driver for an input source: a colour-bar source of the configured
    /// size and rate for `Mock`, and an error for the hardware sources.
    pub fn from_config(input: &InputSource) -> (r: Result<Self, Error>)
        ensures
            match *input {
                InputSource::Mock { width, height, fps } => r matches Ok(InputDriver::Mock(m))
                    && m.spec_width() == width && m.spec_height() == height && m.spec_fps() == fps,
                _ => r matches Err(Error::Pipeline(msg)) && msg@ == unsupported_input_message(),
            },
    {
        match input {
            InputSource::Mock { width, height, fps } => {
                Ok(InputDriver::Mock(MockInput::new(*width, *height, *fps)))
            },
            _ => Err(
                Error::Pipeline(
                    String::from_str("unsupported input source (hardware not available)"),
                ),
            ),
        }
    }
}

} // verus!
