use vstd::prelude::*;

verus! {

/// Settings of the capturing side: where the server is and how to capture
/// and encode.
pub struct AppConfig {
    pub server_ip: String,
    pub server_port: u16,
    pub camera_index: usize,
    pub camera_resolution_width: u32,
    pub camera_resolution_height: u32,
    pub camera_framerate: u32,
    pub encoder_bitrate_kbps: u32,
}

impl Default for AppConfig {
    fn default() -> (r: Self)
        ensures
            r.server_ip@ == "127.0.0.1"@,
            r.server_port == 8080,
            r.camera_index == 0,
            r.camera_resolution_width == 640,
            r.camera_resolution_height == 480,
            r.camera_framerate == 30,
            r.encoder_bitrate_kbps == 500,
    {
        AppConfig {
            server_ip: String::from_str("127.0.0.1"),
            server_port: 8080,
            camera_index: 0,
            camera_resolution_width: 640,
            camera_resolution_height: 480,
            camera_framerate: 30,
            encoder_bitrate_kbps: 500,
        }
    }
}

impl AppConfig {
    /// The pause between two captured frames, in whole milliseconds.
    pub fn frame_interval_ms(&self) -> (r: u64)
        requires
            self.camera_framerate > 0,
        ensures
            r == 1000int / (self.camera_framerate as int),
    {
        1000u64 / (self.camera_framerate as u64)
    }
}

/// The status of one camera as the control surface reports it.
pub struct CameraStatus {
    pub camera_id: String,
    pub is_streaming: bool,
}

/// A per-camera tunable: the target bitrate handed to the encoder.
pub struct CameraConfig {
    pub bitrate: u32,
}

/// An offer for one camera's session.
pub struct OfferRequest {
    pub camera_id: String,
    pub offer: String,
}

/// The answer to an accepted offer.
pub struct OfferResponse {
    pub answer: String,
}

/// A session description.
pub struct Offer {
    pub sdp: String,
}

} // verus!
