//! Decisions of the HTTP/WebSocket front end: which status an error maps
//! to, how devices are listed, which WebSocket commands act on the
//! pipeline and how MJPEG parts are framed.
use vstd::prelude::*;

use crate::decklink::DeckLinkDevice;
use crate::error::{error_detail, error_prefix, Error};
use crate::text::{decimal, u64_to_decimal};
use crate::types::{DeviceStatus, PipelineState};
use crate::uvc::UvcDevice;

verus! {

/// An error as the web API reports it.
pub struct AppError(pub Error);

/// The HTTP status for an error: configuration problems are the client's
/// (400), unknown devices or outputs are not found (404), pipeline state
/// conflicts are 409, anything else is an internal error (500).
pub open spec fn error_status(e: Error) -> u16 {
    match e {
        Error::Config(_) => 400,
        Error::DeviceNotFound(_) => 404,
        Error::Pipeline(_) => 409,
        _ => 500,
    }
}

impl AppError {
    /// The HTTP status code of the response.
    pub fn status_code(&self) -> (r: u16)
        ensures
            r == error_status(self.0),
    {
        match &self.0 {
            Error::Config(_) => 400,
            Error::DeviceNotFound(_) => 404,
            Error::Pipeline(_) => 409,
            _ => 500,
        }
    }

    /// The message of the response's `error` field: the error's displayed
    /// form.
    pub fn message(&self) -> (r: String)
        ensures
            r@ == error_prefix(self.0) + error_detail(self.0),
    {
        self.0.to_string()
    }
}

/// Body of a request to load a configuration file.
#[derive(Debug, Clone)]
pub struct LoadRequest {
    pub path: String,
}

/// One entry of the device list.
#[derive(Debug, Clone)]
pub struct DeviceInfo {
    pub device_type: String,
    pub index: u32,
    pub name: String,
    pub model_name: String,
    pub has_input: bool,
    pub has_output: bool,
    pub status: String,
}

/// Body of the status response.
#[derive(Debug, Clone, Copy)]
pub struct StatusResponse {
    pub state: PipelineState,
}

/// The name of a device status as the API shows it.
pub open spec fn status_name(s: DeviceStatus) -> Seq<char> {
    match s {
        DeviceStatus::Available => "Available"@,
        DeviceStatus::InUse => "InUse"@,
        DeviceStatus::Disconnected => "Disconnected"@,
    }
}

/// The name of a device status as the API shows it.
pub fn device_status_name(s: DeviceStatus) -> (r: String)
    ensures
        r@ == status_name(s),
{
    match s {
        DeviceStatus::Available => String::from_str("Available"),
        DeviceStatus::InUse => String::from_str("InUse"),
        DeviceStatus::Disconnected => String::from_str("Disconnected"),
    }
}

/// The list entry for a DeckLink device.
pub open spec fn decklink_info(d: DeckLinkDevice, info: DeviceInfo) -> bool {
    &&& info.device_type@ == "DeckLink"@
    &&& info.index == d.index
    &&& info.name@ == d.name@
    &&& info.model_name@ == d.model_name@
    &&& info.has_input == d.has_input
    &&& info.has_output == d.has_output
    &&& info.status@ == status_name(d.status)
}

/// The list entry for a UVC camera: an available input whose model is its
/// name.
pub open spec fn uvc_info(d: UvcDevice, info: DeviceInfo) -> bool {
    &&& info.device_type@ == "Uvc"@
    &&& info.index == d.index
    &&& info.name@ == d.name@
    &&& info.model_name@ == d.name@
    &&& info.has_input
    &&& !info.has_output
    &&& info.status@ == "Available"@
}

/// The device list: the DeckLink devices, then the UVC cameras, in order.
pub fn collect_device_infos(decklink: &Vec<DeckLinkDevice>, uvc: &Vec<UvcDevice>) -> (r: Vec<DeviceInfo>)
    ensures
        r@.len() == decklink@.len() + uvc@.len(),
        forall|i: int| 0 <= i < decklink@.len() ==> decklink_info(decklink@[i], #[trigger] r@[i]),
        forall|i: int|
            0 <= i < uvc@.len() ==> uvc_info(uvc@[i], #[trigger] r@[decklink@.len() + i]),
{
    let mut infos: Vec<DeviceInfo> = Vec::new();
    let mut i: usize = 0;
    while i < decklink.len()
        invariant
            i <= decklink@.len(),
            infos@.len() == i,
            forall|k: int| 0 <= k < i ==> decklink_info(decklink@[k], #[trigger] infos@[k]),
        decreases decklink@.len() - i,
    {
        let d = &decklink[i];
        infos.push(
            DeviceInfo {
                device_type: String::from_str("DeckLink"),
                index: d.index,
                name: d.name.clone(),
                model_name: d.model_name.clone(),
                has_input: d.has_input,
                has_output: d.has_output,
                status: device_status_name(d.status),
            },
        );
        i += 1;
    }
    let n: usize = decklink.len();
    let mut j: usize = 0;
    while j < uvc.len()
        invariant
            n == decklink@.len(),
            j <= uvc@.len(),
            infos@.len() == n + j,
            forall|k: int| 0 <= k < n ==> decklink_info(decklink@[k], #[trigger] infos@[k]),
            forall|k: int| 0 <= k < j ==> uvc_info(uvc@[k], #[trigger] infos@[n + k]),
        decreases uvc@.len() - j,
    {
        let d = &uvc[j];
        infos.push(
            DeviceInfo {
                device_type: String::from_str("Uvc"),
                index: d.index,
                name: d.name.clone(),
                model_name: d.name.clone(),
                has_input: true,
                has_output: false,
                status: String::from_str("Available"),
            },
        );
        j += 1;
    }
    infos
}

/// What a command received on the status WebSocket asks of the pipeline.
#[derive(Debug, Clone, Copy, PartialEq, Eq, Structural)]
pub enum WsAction {
    Start,
    Stop,
    /// Unknown commands are ignored.
    Ignore,
}

/// The action for a WebSocket command: "start" and "stop" act on the
/// pipeline, anything else is ignored.
pub fn ws_command_action(command: &str) -> (r: WsAction)
    ensures
        command@ == "stop"@ ==> r == WsAction::Stop,
        command@ == "start"@ ==> r == WsAction::Start,
        command@ != "stop"@ && command@ != "start"@ ==> r == WsAction::Ignore,
{
    proof {
        reveal_strlit("stop");
        reveal_strlit("start");
        assert("stop"@.len() != "start"@.len());
    }
    let c = String::from_str(command);
    let stop = String::from_str("stop");
    let start = String::from_str("start");
    if c == stop {
        WsAction::Stop
    } else if c == start {
        WsAction::Start
    } else {
        WsAction::Ignore
    }
}

/// The header of one part of a multipart MJPEG stream carrying a JPEG
/// image of `len` bytes.
pub open spec fn mjpeg_part_header_spec(len: nat) -> Seq<char> {
    "--frame\r\nContent-Type: image/jpeg\r\nContent-Length: "@ + decimal(len) + "\r\n\r\n"@
}

/// The header of one part of a multipart MJPEG stream carrying a JPEG
/// image of `len` bytes.
pub fn mjpeg_part_header(len: u64) -> (r: String)
    ensures
        r@ == mjpeg_part_header_spec(len as nat),
{
    String::from_str("--frame\r\nContent-Type: image/jpeg\r\nContent-Length: ").concat(
        u64_to_decimal(len).as_str(),
    ).concat("\r\n\r\n")
}

} // verus!
