use vstd::prelude::*;

use crate::capture_models::{
    CaptureErrorCode, CaptureErrorPayload, CaptureSourceKind, Error as CaptureError, ListSourcesOptions,
    PixelFormat,
};
use crate::text::{chars_of, string_of};

verus! {

/// The capture backend used where the platform has none of its own.
#[derive(Debug, Default)]
pub struct DummyCaptureBackend;

/// The ScreenCaptureKit backend.
#[derive(Debug, Default)]
pub struct MacOsCaptureBackend;

/// The Windows Graphics Capture backend.
#[derive(Debug, Default)]
pub struct WindowsCaptureBackend;

/// The error of a platform without a capture backend.
pub fn unsupported_backend_error() -> (e: CaptureError)
    ensures
        e->payload.code == CaptureErrorCode::UnsupportedPlatform,
        !e->payload.recoverable,
        e->payload.message@ == "Screen capture is not implemented on this platform"@,
{
    CaptureError::new(
        CaptureErrorCode::UnsupportedPlatform,
        "Screen capture is not implemented on this platform".to_string(),
        false,
    )
}

/// A process id that is not `current_pid`: the next one, or the previous one at the top of the
/// range.
pub fn non_current_pid(current_pid: u32) -> (pid: u32)
    ensures
        pid != current_pid,
        pid == (if current_pid == u32::MAX {
            current_pid - 1
        } else {
            current_pid + 1
        }),
{
    if current_pid == u32::MAX {
        current_pid - 1
    } else {
        current_pid + 1
    }
}

/// A source that the dummy backend lists: everything of a capture source but its scale
/// factor, which is 1 for both.
#[derive(Debug)]
pub struct DummySource {
    pub id: String,
    pub kind: CaptureSourceKind,
    pub name: String,
    pub title: Option<String>,
    pub app_name: Option<String>,
    pub pid: Option<u32>,
    pub width: u32,
    pub height: u32,
    pub is_primary: bool,
}

/// The dummy display: 1280 by 720, primary, of no process.
pub open spec fn is_dummy_display(s: DummySource) -> bool {
    &&& s.id@ == "dummy-display-1"@
    &&& s.kind == CaptureSourceKind::Display
    &&& s.name@ == "Dummy Display"@
    &&& s.title matches Some(t) && t@ == "Dummy Display"@
    &&& s.app_name is None
    &&& s.pid is None
    &&& s.width == 1280 && s.height == 720
    &&& s.is_primary
}

/// The dummy window: 800 by 600, of the test host application and a process that is not
/// `current_pid`.
pub open spec fn is_dummy_window(s: DummySource, current_pid: u32) -> bool {
    &&& s.id@ == "dummy-window-1"@
    &&& s.kind == CaptureSourceKind::Window
    &&& s.name@ == "Dummy Window"@
    &&& s.title matches Some(t) && t@ == "Dummy Window"@
    &&& s.app_name matches Some(a) && a@ == "Screen Capture Test Host"@
    &&& s.pid == Some(if current_pid == u32::MAX { (current_pid - 1) as u32 } else { (current_pid + 1) as u32 })
    &&& s.width == 800 && s.height == 600
    &&& !s.is_primary
}

fn has_kind(kinds: &Vec<CaptureSourceKind>, kind: CaptureSourceKind) -> (b: bool)
    ensures
        b == kinds@.contains(kind),
{
    let mut i: usize = 0;
    while i < kinds.len()
        invariant
            i <= kinds@.len(),
            forall|j: int| 0 <= j < i ==> kinds@[j] != kind,
        decreases kinds.len() - i,
    {
        if kinds[i] == kind {
            assert(kinds@[i as int] == kind);
            return true;
        }
        i = i + 1;
    }
    false
}

impl DummyCaptureBackend {
    /// The sources the dummy backend lists for `options`: the dummy display where displays are
    /// asked for, then the dummy window where windows are.
    pub fn list_dummy_sources(&self, options: &ListSourcesOptions, current_pid: u32) -> (r: Vec<DummySource>)
        ensures
            r@.len() == (if options.kinds@.contains(CaptureSourceKind::Display) { 1int } else { 0int }) + (
            if options.kinds@.contains(CaptureSourceKind::Window) {
                1int
            } else {
                0int
            }),
            options.kinds@.contains(CaptureSourceKind::Display) ==> is_dummy_display(r@[0]),
            options.kinds@.contains(CaptureSourceKind::Window) ==> is_dummy_window(r@[r@.len() - 1], current_pid),
    {
        let mut sources: Vec<DummySource> = Vec::new();
        if has_kind(&options.kinds, CaptureSourceKind::Display) {
            sources.push(
                DummySource {
                    id: "dummy-display-1".to_string(),
                    kind: CaptureSourceKind::Display,
                    name: "Dummy Display".to_string(),
                    title: Some("Dummy Display".to_string()),
                    app_name: None,
                    pid: None,
                    width: 1280,
                    height: 720,
                    is_primary: true,
                },
            );
        }
        if has_kind(&options.kinds, CaptureSourceKind::Window) {
            sources.push(
                DummySource {
                    id: "dummy-window-1".to_string(),
                    kind: CaptureSourceKind::Window,
                    name: "Dummy Window".to_string(),
                    title: Some("Dummy Window".to_string()),
                    app_name: Some("Screen Capture Test Host".to_string()),
                    pid: Some(non_current_pid(current_pid)),
                    width: 800,
                    height: 600,
                    is_primary: false,
                },
            );
        }
        sources
    }
}

/// Why a capture ended.
#[derive(Debug)]
pub enum CaptureFinishReason {
    SourceClosed { reason: String },
    Error(CaptureErrorPayload),
}

impl CaptureFinishReason {
    pub fn source_closed(reason: String) -> (r: Self)
        ensures
            r matches CaptureFinishReason::SourceClosed { reason: s } && s@ == reason@,
    {
        CaptureFinishReason::SourceClosed { reason }
    }

    pub fn error(error: CaptureErrorPayload) -> (r: Self)
        ensures
            r == CaptureFinishReason::Error(error),
    {
        CaptureFinishReason::Error(error)
    }

    /// The error that the end of a capture reports: a closed source is a recoverable
    /// `SourceUnavailable` error that names the kind of source and keeps the reason.
    pub fn into_error_payload(self, source_kind: CaptureSourceKind) -> (p: CaptureErrorPayload)
        ensures
            match self {
                CaptureFinishReason::Error(e) => p == e,
                CaptureFinishReason::SourceClosed { reason } => {
                    &&& p.code == CaptureErrorCode::SourceUnavailable
                    &&& p.recoverable
                    &&& p.message@ == (if source_kind == CaptureSourceKind::Window {
                        "被共享窗口已关闭"@
                    } else {
                        "被共享屏幕已断开"@
                    })
                    &&& p.details matches Some(d) && d@.len() == 1 && d@[0].0@ == "reason"@ && d@[0].1@ == reason@
                },
            },
    {
        match self {
            CaptureFinishReason::SourceClosed { reason } => {
                let message = match source_kind {
                    CaptureSourceKind::Window => "被共享窗口已关闭".to_string(),
                    CaptureSourceKind::Display => "被共享屏幕已断开".to_string(),
                };
                let key = string_of(&chars_of("reason"));
                let mut details: Vec<(String, String)> = Vec::new();
                details.push((key, reason));
                CaptureErrorPayload {
                    code: CaptureErrorCode::SourceUnavailable,
                    message,
                    recoverable: true,
                    details: Some(details),
                }
            },
            CaptureFinishReason::Error(error) => error,
        }
    }
}

/// One captured frame: 4 bytes a pixel for BGRA and RGBA.
#[derive(Debug)]
pub struct VideoFrame {
    pub width: u32,
    pub height: u32,
    pub pixel_format: PixelFormat,
    pub timestamp_ns: u64,
    pub data: Vec<u8>,
}

/// The least step between two published timestamps: one millisecond, the finest that every
/// encoder distinguishes.
pub const MIN_PUBLISH_TIMESTAMP_STEP_NS: u64 = 1_000_000;

/// The timestamp a frame is published with: its capture time, moved on to at least one step past
/// the previous published timestamp (saturating at the top of the range).
pub open spec fn publish_timestamp_spec(last_timestamp_ns: Option<u64>, captured_timestamp_ns: u64) -> u64 {
    match last_timestamp_ns {
        None => captured_timestamp_ns,
        Some(last) => {
            let floor: u64 = if last > u64::MAX - MIN_PUBLISH_TIMESTAMP_STEP_NS {
                u64::MAX
            } else {
                (last + MIN_PUBLISH_TIMESTAMP_STEP_NS) as u64
            };
            if captured_timestamp_ns >= floor {
                captured_timestamp_ns
            } else {
                floor
            }
        },
    }
}

pub fn next_publish_timestamp(last_timestamp_ns: Option<u64>, captured_timestamp_ns: u64) -> (t: u64)
    ensures
        t == publish_timestamp_spec(last_timestamp_ns, captured_timestamp_ns),
{
    match last_timestamp_ns {
        None => captured_timestamp_ns,
        Some(last) => {
            let floor = if last > u64::MAX - MIN_PUBLISH_TIMESTAMP_STEP_NS {
                u64::MAX
            } else {
                last + MIN_PUBLISH_TIMESTAMP_STEP_NS
            };
            if captured_timestamp_ns >= floor {
                captured_timestamp_ns
            } else {
                floor
            }
        },
    }
}

/// A published timestamp is never before the frame's capture time, and after a previous one it
/// is at least a step later, so timestamps strictly increase until the range runs out.
pub proof fn lemma_publish_timestamps_increase(last: u64, captured: u64)
    ensures
        publish_timestamp_spec(None, captured) == captured,
        publish_timestamp_spec(Some(last), captured) >= captured,
        last <= u64::MAX - MIN_PUBLISH_TIMESTAMP_STEP_NS ==> publish_timestamp_spec(Some(last), captured) >= last
            + MIN_PUBLISH_TIMESTAMP_STEP_NS,
        last < u64::MAX ==> publish_timestamp_spec(Some(last), captured) > last,
{
}

/// The frame that waits for the publisher, with the completions to answer once it is published.
#[derive(Debug)]
pub struct PendingPipelineFrame<F, C> {
    pub frame: F,
    pub is_capture_frame: bool,
    pub completions: Vec<C>,
}

/// A slot that holds at most one frame: a newer capture frame replaces the waiting one.
#[derive(Debug)]
pub struct PendingFrameSlot<F, C> {
    pub pending: Option<PendingPipelineFrame<F, C>>,
}

impl<F, C> PendingFrameSlot<F, C> {
    pub fn new() -> (s: Self)
        ensures
            s.pending is None,
    {
        PendingFrameSlot { pending: None }
    }

    /// Puts `frame` in the slot. A capture frame replaces a waiting frame; a re-sent frame never
    /// replaces one. The completion joins those of the waiting frame. Returns whether a waiting
    /// capture frame was dropped.
    pub fn enqueue(&mut self, frame: F, completion: Option<C>, is_capture_frame: bool) -> (dropped: bool)
        ensures
            match old(self).pending {
                None => {
                    &&& !dropped
                    &&& final(self).pending matches Some(p) && p.frame == frame && p.is_capture_frame
                        == is_capture_frame && p.completions@ == match completion {
                        Some(c) => seq![c],
                        None => Seq::<C>::empty(),
                    }
                },
                Some(old_p) => {
                    let completions = match completion {
                        Some(c) => old_p.completions@.push(c),
                        None => old_p.completions@,
                    };
                    &&& dropped == (is_capture_frame && old_p.is_capture_frame)
                    &&& final(self).pending matches Some(p) && p.completions@ == completions && if is_capture_frame {
                        p.frame == frame && p.is_capture_frame
                    } else {
                        p.frame == old_p.frame && p.is_capture_frame == old_p.is_capture_frame
                    }
                },
            },
    {
        match self.pending.take() {
            None => {
                let mut completions: Vec<C> = Vec::new();
                match completion {
                    Some(c) => completions.push(c),
                    None => {},
                }
                self.pending = Some(PendingPipelineFrame { frame, is_capture_frame, completions });
                false
            },
            Some(mut p) => {
                match completion {
                    Some(c) => p.completions.push(c),
                    None => {},
                }
                let dropped = if is_capture_frame {
                    let replaced = p.is_capture_frame;
                    p.frame = frame;
                    p.is_capture_frame = true;
                    replaced
                } else {
                    false
                };
                self.pending = Some(p);
                dropped
            },
        }
    }

    /// Takes the waiting frame out, leaving the slot empty.
    pub fn take(&mut self) -> (p: Option<PendingPipelineFrame<F, C>>)
        ensures
            p == old(self).pending,
            final(self).pending is None,
    {
        self.pending.take()
    }
}

/// Builds the capture plugin, with an optional publisher factory of type `P`.
#[derive(Debug)]
pub struct Builder<P> {
    pub publisher_factory: Option<P>,
}

impl<P> Builder<P> {
    pub fn new() -> (b: Self)
        ensures
            b.publisher_factory is None,
    {
        Builder { publisher_factory: None }
    }

    pub fn publisher_factory(self, publisher_factory: P) -> (b: Self)
        ensures
            b.publisher_factory == Some(publisher_factory),
    {
        Builder { publisher_factory: Some(publisher_factory) }
    }
}

} // verus!
