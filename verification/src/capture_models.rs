use vstd::prelude::*;

verus! {

#[derive(Debug, Clone, Copy, PartialEq, Eq, Structural)]
pub enum CaptureSourceKind {
    Display,
    Window,
}

#[derive(Debug, Clone, Copy, PartialEq, Eq, Structural)]
pub enum PermissionStatus {
    Granted,
    Denied,
    NotDetermined,
    Restricted,
    Unsupported,
}

#[derive(Debug, Clone, Copy, PartialEq, Eq, Structural)]
pub enum CaptureStatus {
    Idle,
    Starting,
    Capturing,
    Publishing,
    Paused,
    Stopping,
    Stopped,
    Failed,
}

#[derive(Debug, Clone, Copy, PartialEq, Eq, Structural)]
pub enum PixelFormat {
    Bgra,
    Rgba,
    Nv12,
}

/// What the capture backend of this platform can do.
#[derive(Debug)]
pub struct Capabilities {
    pub platform: String,
    pub supports_display_capture: bool,
    pub supports_window_capture: bool,
    pub supports_thumbnails: bool,
    pub supports_cursor_capture: bool,
    pub supports_webrtc: bool,
}

/// Which sources a listing returns.
#[derive(Debug)]
pub struct ListSourcesOptions {
    pub kinds: Vec<CaptureSourceKind>,
    pub include_thumbnails: bool,
    pub include_current_app: bool,
    pub include_system_ui: bool,
    pub debug_raw_sources: bool,
}

impl Default for ListSourcesOptions {
    /// Displays and windows, and nothing else.
    fn default() -> (r: Self)
        ensures
            r.kinds@ == seq![CaptureSourceKind::Display, CaptureSourceKind::Window],
            !r.include_thumbnails,
            !r.include_current_app,
            !r.include_system_ui,
            !r.debug_raw_sources,
    {
        ListSourcesOptions {
            kinds: vec![CaptureSourceKind::Display, CaptureSourceKind::Window],
            include_thumbnails: false,
            include_current_app: false,
            include_system_ui: false,
            debug_raw_sources: false,
        }
    }
}

#[derive(Debug, Clone, Copy, PartialEq, Eq, Structural)]
pub enum PublisherKind {
    WebRtcLoopback,
    Agora,
}

#[derive(Debug)]
pub struct AgoraPublisherOptions {
    pub app_id: String,
    pub channel: String,
    pub uid: Option<u32>,
    pub token: Option<String>,
}

#[derive(Debug)]
pub struct PublisherOptions {
    pub kind: PublisherKind,
    pub agora: Option<AgoraPublisherOptions>,
}

/// What a caller asks of a capture. Absent values take the defaults that the `effective_*`
/// methods state.
#[derive(Debug)]
pub struct StartCaptureOptions {
    pub source_id: String,
    pub source_kind: CaptureSourceKind,
    pub fps: Option<u32>,
    pub width: Option<u32>,
    pub height: Option<u32>,
    pub capture_cursor: Option<bool>,
    pub publisher: Option<PublisherOptions>,
}

/// The frame rate asked for, 30 when absent, held within 1..=60.
pub open spec fn effective_fps_spec(fps: Option<u32>) -> u32 {
    let v = match fps {
        Some(v) => v,
        None => 30u32,
    };
    if v < 1 {
        1
    } else if v > 60 {
        60
    } else {
        v
    }
}

/// A video dimension as encoders take it: at least 2, rounded down to an even number.
pub open spec fn even_dimension_spec(value: u32) -> u32 {
    let m = if value < 2 {
        2u32
    } else {
        value
    };
    (m - m % 2) as u32
}

/// The width or height asked for, or `default` when absent, made even.
pub open spec fn effective_dimension_spec(value: Option<u32>, default: u32) -> u32 {
    match value {
        Some(v) => even_dimension_spec(v),
        None => even_dimension_spec(default),
    }
}

fn even_video_dimension(value: u32) -> (r: u32)
    ensures
        r == even_dimension_spec(value),
{
    let m = if value < 2 {
        2u32
    } else {
        value
    };
    let r = m & !1u32;
    assert(m & !1u32 == m - m % 2) by (bit_vector);
    r
}

impl StartCaptureOptions {
    pub fn effective_fps(&self) -> (r: u32)
        ensures
            r == effective_fps_spec(self.fps),
            1 <= r <= 60,
    {
        let v = match self.fps {
            Some(v) => v,
            None => 30,
        };
        if v < 1 {
            1
        } else if v > 60 {
            60
        } else {
            v
        }
    }

    /// Whether the cursor is captured: yes unless the caller said no.
    pub fn effective_capture_cursor(&self) -> (r: bool)
        ensures
            r == match self.capture_cursor {
                Some(b) => b,
                None => true,
            },
    {
        match self.capture_cursor {
            Some(b) => b,
            None => true,
        }
    }

    /// The video size: 1280 by 720 where absent, each made even and at least 2.
    pub fn effective_video_size(&self) -> (r: (u32, u32))
        ensures
            r.0 == effective_dimension_spec(self.width, 1280),
            r.1 == effective_dimension_spec(self.height, 720),
            r.0 % 2 == 0 && r.0 >= 2,
            r.1 % 2 == 0 && r.1 >= 2,
    {
        let w = match self.width {
            Some(w) => w,
            None => 1280,
        };
        let h = match self.height {
            Some(h) => h,
            None => 720,
        };
        (even_video_dimension(w), even_video_dimension(h))
    }

    /// The same options with the effective video size written in.
    pub fn with_effective_video_size(self) -> (r: Self)
        ensures
            r.width == Some(effective_dimension_spec(self.width, 1280)),
            r.height == Some(effective_dimension_spec(self.height, 720)),
            r.source_id == self.source_id,
            r.source_kind == self.source_kind,
            r.fps == self.fps,
            r.capture_cursor == self.capture_cursor,
            r.publisher == self.publisher,
    {
        let (width, height) = self.effective_video_size();
        let mut this = self;
        this.width = Some(width);
        this.height = Some(height);
        this
    }

    /// The publisher asked for, the WebRTC loopback where none was.
    pub fn effective_publisher_kind(&self) -> (r: PublisherKind)
        ensures
            r == match self.publisher {
                Some(p) => p.kind,
                None => PublisherKind::WebRtcLoopback,
            },
    {
        match &self.publisher {
            Some(p) => p.kind,
            None => PublisherKind::WebRtcLoopback,
        }
    }
}

#[derive(Debug)]
pub struct WebRtcOffer {
    pub sdp: String,
    pub sdp_type: String,
}

#[derive(Debug)]
pub struct WebRtcAnswer {
    pub sdp: String,
    pub sdp_type: String,
}

#[derive(Debug)]
pub struct WebRtcIceCandidate {
    pub candidate: String,
    pub sdp_mid: Option<String>,
    pub sdp_mline_index: Option<u16>,
}

#[derive(Debug, Clone, Copy, PartialEq, Eq, Structural)]
pub enum CaptureErrorCode {
    PermissionDenied,
    PermissionNotDetermined,
    UnsupportedPlatform,
    SourceNotFound,
    SourceUnavailable,
    CaptureStartFailed,
    CaptureRuntimeFailed,
    PublisherUnsupported,
    WebRtcNegotiationFailed,
    WebRtcTrackFailed,
    InvalidSession,
    InvalidAnnotation,
    AnnotationInvalidOptions,
    AnnotationUnavailable,
    Internal,
}

/// An error as the plugin reports it. `details` holds named text values.
#[derive(Debug)]
pub struct CaptureErrorPayload {
    pub code: CaptureErrorCode,
    pub message: String,
    pub recoverable: bool,
    pub details: Option<Vec<(String, String)>>,
}

impl Clone for CaptureErrorPayload {
    fn clone(&self) -> (r: Self)
        ensures
            r.code == self.code,
            r.message@ == self.message@,
            r.recoverable == self.recoverable,
            r.details is Some <==> self.details is Some,
    {
        let details = match &self.details {
            Some(d) => Some(d.clone()),
            None => None,
        };
        CaptureErrorPayload {
            code: self.code,
            message: self.message.clone(),
            recoverable: self.recoverable,
            details,
        }
    }
}

/// An error of the capture plugin.
#[derive(Debug)]
pub enum Error {
    Structured { payload: CaptureErrorPayload },
}

impl Error {
    pub fn new(code: CaptureErrorCode, message: String, recoverable: bool) -> (e: Self)
        ensures
            e->payload.code == code,
            e->payload.message@ == message@,
            e->payload.recoverable == recoverable,
            e->payload.details is None,
    {
        Error::Structured { payload: CaptureErrorPayload { code, message, recoverable, details: None } }
    }

    /// The error's payload.
    pub fn payload(&self) -> (p: CaptureErrorPayload)
        ensures
            p.code == self->payload.code,
            p.message@ == self->payload.message@,
            p.recoverable == self->payload.recoverable,
            p.details is Some <==> self->payload.details is Some,
    {
        match self {
            Error::Structured { payload } => payload.clone(),
        }
    }
}

} // verus!
