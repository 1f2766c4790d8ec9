//! MOMO: a live video splitter/router. This library holds the verified core:
//! the frame transforms (crop, scale, flip), pixel-format conversions,
//! configuration validation, device-mode conversions and the pipeline's
//! lifecycle state machine.
pub mod types;
pub mod error;
pub mod conversions;
pub mod text;
pub mod transform;

pub mod frame;
pub mod processor;
pub mod config;
pub mod mock_input;
pub mod input;
pub mod decklink;
pub mod uvc;
pub mod preview;
pub mod webrtc;
pub mod web;
pub mod pipeline;
