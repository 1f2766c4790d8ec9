//! WebRTC preview support: signalling messages, encoded packets and the
//! colour conversion that feeds the encoder.
use vstd::prelude::*;

pub use crate::preview::uyvy_to_nv12;

verus! {

/// Messages sent from client to server over the signalling WebSocket.
#[derive(Debug, Clone)]
pub enum ClientMessage {
    Answer { sdp: String },
    IceCandidate { candidate: String, sdp_mid: Option<String>, sdp_m_line_index: Option<u16> },
    SubscribeTrack { stream_id: String },
    UnsubscribeTrack { stream_id: String },
}

/// Messages sent from server to client over the signalling WebSocket.
#[derive(Debug, Clone)]
pub enum ServerMessage {
    Offer { sdp: String },
    IceCandidate { candidate: String, sdp_mid: Option<String>, sdp_m_line_index: Option<u16> },
    TrackAdded { stream_id: String, mid: String },
    TrackRemoved { stream_id: String },
    Error { message: String },
}

/// An encoded video packet ready for WebRTC transmission.
pub struct EncodedPacket {
    pub data: Vec<u8>,
    pub is_keyframe: bool,
}

/// Whether WebRTC preview streaming is available. This build has no H.264
/// encoder or WebRTC stack, so it is not.
pub fn is_webrtc_available() -> (r: bool)
    ensures
        !r,
{
    false
}

} // verus!
