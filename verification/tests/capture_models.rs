use tauri_plugins::annotation::{blend_channel, blend_pixel, AnnotationRgba};
use tauri_plugins::capture::{next_publish_timestamp, non_current_pid, unsupported_backend_error, Builder, CaptureFinishReason, PendingFrameSlot};
use tauri_plugins::capture_models::{
    CaptureErrorCode, CaptureSourceKind, ListSourcesOptions, PixelFormat, PublisherKind, PublisherOptions,
    StartCaptureOptions,
};
use tauri_plugins::overlay::{corner_segments, OverlayRect, OverlaySegment, OverlayStyle};

fn options() -> StartCaptureOptions {
    StartCaptureOptions {
        source_id: "display:1".to_string(),
        source_kind: CaptureSourceKind::Display,
        fps: None,
        width: None,
        height: None,
        capture_cursor: None,
        publisher: None,
    }
}

#[test]
fn start_options_take_defaults() {
    let o = options();
    assert_eq!(o.effective_fps(), 30);
    assert!(o.effective_capture_cursor());
    assert_eq!(o.effective_video_size(), (1280, 720));
    assert_eq!(o.effective_publisher_kind(), PublisherKind::WebRtcLoopback);
}

#[test]
fn start_options_clamp_and_even_out_requests() {
    let o = StartCaptureOptions { fps: Some(0), width: Some(1), height: Some(721), capture_cursor: Some(false), ..options() };
    assert_eq!(o.effective_fps(), 1);
    assert!(!o.effective_capture_cursor());
    assert_eq!(o.effective_video_size(), (2, 720));
    let o = StartCaptureOptions { fps: Some(144), ..options() };
    assert_eq!(o.effective_fps(), 60);
    let o = StartCaptureOptions {
        width: Some(1921),
        publisher: Some(PublisherOptions { kind: PublisherKind::Agora, agora: None }),
        ..options()
    }
    .with_effective_video_size();
    assert_eq!((o.width, o.height), (Some(1920), Some(720)));
    assert_eq!(o.effective_publisher_kind(), PublisherKind::Agora);
}

#[test]
fn list_sources_defaults_to_displays_and_windows() {
    let o = ListSourcesOptions::default();
    assert_eq!(o.kinds, vec![CaptureSourceKind::Display, CaptureSourceKind::Window]);
    assert!(!o.include_thumbnails && !o.include_current_app && !o.include_system_ui && !o.debug_raw_sources);
}

#[test]
fn annotation_colors_parse_hex() {
    assert_eq!(
        AnnotationRgba::parse("#ff8000").unwrap(),
        AnnotationRgba { red: 255, green: 128, blue: 0, alpha: 255 }
    );
    assert_eq!(
        AnnotationRgba::parse("#0A0b0C80").unwrap(),
        AnnotationRgba { red: 10, green: 11, blue: 12, alpha: 128 }
    );
    for bad in ["ff8000", "#ff800", "#ff80000", "#gg8000", "", "#"] {
        let error = AnnotationRgba::parse(bad).unwrap_err();
        assert_eq!(error.payload().code, CaptureErrorCode::AnnotationInvalidOptions);
    }
}

#[test]
fn blending_rounds_to_nearest() {
    assert_eq!(blend_channel(0, 255, 255, 0), 255);
    assert_eq!(blend_channel(0, 255, 128, 127), 128);
    assert_eq!(blend_channel(100, 200, 0, 255), 100);
}

#[test]
fn pixels_are_blended_once() {
    let mut data = vec![0u8; 8];
    let mut covered = Vec::new();
    let red = AnnotationRgba { red: 255, green: 0, blue: 0, alpha: 255 };
    blend_pixel(&mut data, 2, 1, 0, PixelFormat::Bgra, red, &mut covered);
    assert_eq!(data, vec![0, 0, 0, 0, 0, 0, 255, 255]);
    let blue = AnnotationRgba { red: 0, green: 0, blue: 255, alpha: 255 };
    blend_pixel(&mut data, 2, 1, 0, PixelFormat::Bgra, blue, &mut covered);
    assert_eq!(data, vec![0, 0, 0, 0, 0, 0, 255, 255]);
    blend_pixel(&mut data, 2, 0, 0, PixelFormat::Rgba, blue, &mut covered);
    assert_eq!(data, vec![0, 0, 255, 255, 0, 0, 255, 255]);
    assert_eq!(covered, vec![1, 0]);
}

#[test]
fn corner_segments_mark_each_corner() {
    let rect = OverlayRect { left: 10, top: 20, right: 110, bottom: 70 };
    let segments = corner_segments(rect, OverlayStyle::default());
    assert_eq!(segments.len(), 8);
    assert_eq!(segments[0], OverlaySegment::new(10, 20, 32, 4));
    assert_eq!(segments[1], OverlaySegment::new(10, 20, 4, 25));
    assert_eq!(segments[2], OverlaySegment::new(78, 20, 32, 4));
    assert_eq!(segments[3], OverlaySegment::new(106, 20, 4, 25));
    assert_eq!(segments[6], OverlaySegment::new(78, 66, 32, 4));
    assert_eq!(segments[7], OverlaySegment::new(106, 45, 4, 25));
}

#[test]
fn corner_segments_of_a_degenerate_rect_stay_positive() {
    let rect = OverlayRect { left: 5, top: 5, right: 5, bottom: 5 };
    let style = OverlayStyle { color: 0, thickness: 0, corner_length: -3 };
    for segment in corner_segments(rect, style) {
        assert!(segment.width >= 1 && segment.height >= 1);
    }
    let wide = OverlayRect { left: i32::MIN, top: 0, right: i32::MAX, bottom: 10 };
    assert_eq!(corner_segments(wide, OverlayStyle::default())[2].x, i32::MAX - 32);
}

#[test]
fn publish_timestamps_advance_by_at_least_a_millisecond() {
    assert_eq!(next_publish_timestamp(None, 5), 5);
    assert_eq!(next_publish_timestamp(Some(10), 5), 1_000_010);
    assert_eq!(next_publish_timestamp(Some(10), 3_000_000), 3_000_000);
    assert_eq!(next_publish_timestamp(Some(u64::MAX - 1), 0), u64::MAX);
}

#[test]
fn capture_frames_replace_the_waiting_frame() {
    let mut slot: PendingFrameSlot<u32, &str> = PendingFrameSlot::new();
    assert!(!slot.enqueue(1, Some("a"), true));
    assert!(slot.enqueue(2, None, true));
    assert!(!slot.enqueue(3, Some("b"), false));
    let pending = slot.take().unwrap();
    assert_eq!(pending.frame, 2);
    assert!(pending.is_capture_frame);
    assert_eq!(pending.completions, vec!["a", "b"]);
    assert!(slot.take().is_none());
    assert!(!slot.enqueue(4, None, false));
    assert!(!slot.enqueue(5, None, true));
}

#[test]
fn finished_captures_report_their_reason() {
    let payload = CaptureFinishReason::source_closed("gone".to_string()).into_error_payload(CaptureSourceKind::Window);
    assert_eq!(payload.code, CaptureErrorCode::SourceUnavailable);
    assert!(payload.recoverable);
    assert_eq!(payload.message, "被共享窗口已关闭");
    assert_eq!(payload.details, Some(vec![("reason".to_string(), "gone".to_string())]));
    let display = CaptureFinishReason::source_closed("x".to_string()).into_error_payload(CaptureSourceKind::Display);
    assert_eq!(display.message, "被共享屏幕已断开");
    let error = unsupported_backend_error();
    assert_eq!(error.payload().code, CaptureErrorCode::UnsupportedPlatform);
    assert!(!error.payload().recoverable);
}

#[test]
fn other_pid_differs_from_current() {
    assert_eq!(non_current_pid(7), 8);
    assert_eq!(non_current_pid(u32::MAX), u32::MAX - 1);
}

#[test]
fn builder_keeps_the_publisher_factory() {
    let builder: Builder<&str> = Builder::new();
    assert!(builder.publisher_factory.is_none());
    assert_eq!(builder.publisher_factory("factory").publisher_factory, Some("factory"));
}
