use tauri_plugins::annotation::{
    composite_check, validate_document_shape, AnnotationElementKind, AnnotationElementShape,
};
use tauri_plugins::capture::DummyCaptureBackend;
use tauri_plugins::capture_models::{CaptureErrorCode, CaptureSourceKind, ListSourcesOptions, PixelFormat};

fn element(id: &str, kind: AnnotationElementKind, point_count: usize) -> AnnotationElementShape {
    AnnotationElementShape { id: id.to_string(), kind, point_count, width_in_range: true, points_in_range: true }
}

fn message_of(elements: &Vec<AnnotationElementShape>) -> String {
    let error = validate_document_shape(elements).unwrap_err();
    let payload = error.payload();
    assert_eq!(payload.code, CaptureErrorCode::InvalidAnnotation);
    assert!(payload.recoverable);
    payload.message
}

#[test]
fn valid_documents_pass() {
    validate_document_shape(&Vec::new()).unwrap();
    validate_document_shape(&vec![
        element("pen", AnnotationElementKind::Pen, 1),
        element("box", AnnotationElementKind::Rectangle, 2),
        element("arrow", AnnotationElementKind::Arrow, 4096),
    ])
    .unwrap();
}

#[test]
fn element_ids_must_be_present_and_unique() {
    assert_eq!(message_of(&vec![element("  ", AnnotationElementKind::Pen, 1)]), "annotation element id cannot be empty");
    assert_eq!(
        message_of(&vec![element("a", AnnotationElementKind::Pen, 1), element("a", AnnotationElementKind::Line, 2)]),
        "annotation element id a is duplicated"
    );
}

#[test]
fn point_counts_are_bounded() {
    assert_eq!(
        message_of(&vec![element("a", AnnotationElementKind::Pen, 4097)]),
        "annotation element a exceeds 4096 points"
    );
    let many: Vec<AnnotationElementShape> =
        (0..5).map(|i| element(&format!("e{i}"), AnnotationElementKind::Pen, 4000)).collect();
    assert_eq!(message_of(&many), "annotation document exceeds 16384 total points");
    assert_eq!(
        message_of(&vec![element("line", AnnotationElementKind::Line, 1)]),
        "annotation element line requires at least 2 points"
    );
    assert_eq!(
        message_of(&vec![element("dot", AnnotationElementKind::Pen, 0)]),
        "annotation element dot requires at least 1 points"
    );
}

#[test]
fn element_count_is_bounded() {
    let many: Vec<AnnotationElementShape> =
        (0..513).map(|i| element(&format!("e{i}"), AnnotationElementKind::Pen, 1)).collect();
    assert_eq!(message_of(&many), "annotation document exceeds 512 elements");
}

#[test]
fn widths_and_points_must_be_in_range() {
    let mut wide = element("w", AnnotationElementKind::Pen, 1);
    wide.width_in_range = false;
    assert_eq!(message_of(&vec![wide]), "annotation element w width must be in (0, 0.1]");
    let mut outside = element("p", AnnotationElementKind::Ellipse, 2);
    outside.points_in_range = false;
    assert_eq!(message_of(&vec![outside]), "annotation element p points must use finite normalized coordinates");
}

#[test]
fn the_first_failing_element_decides() {
    let mut wide = element("w", AnnotationElementKind::Pen, 1);
    wide.width_in_range = false;
    let elements = vec![element("ok", AnnotationElementKind::Pen, 1), wide, element("", AnnotationElementKind::Pen, 1)];
    assert_eq!(message_of(&elements), "annotation element w width must be in (0, 0.1]");
}

#[test]
fn compositing_checks_the_frame() {
    assert!(!composite_check(false, 3, PixelFormat::Bgra, 2, 2, 16).unwrap());
    assert!(!composite_check(true, 0, PixelFormat::Nv12, 2, 2, 0).unwrap());
    assert!(composite_check(true, 1, PixelFormat::Rgba, 2, 2, 16).unwrap());
    let nv12 = composite_check(true, 1, PixelFormat::Nv12, 2, 2, 6).unwrap_err().payload();
    assert_eq!(nv12.code, CaptureErrorCode::InvalidAnnotation);
    assert_eq!(nv12.message, "annotation compositing requires BGRA or RGBA frames, got Nv12");
    let short = composite_check(true, 1, PixelFormat::Bgra, 2, 2, 15).unwrap_err().payload();
    assert_eq!(short.message, "annotation frame has 15 bytes, expected 16");
}

#[test]
fn dummy_backend_lists_the_requested_kinds() {
    let backend = DummyCaptureBackend;
    let both = backend.list_dummy_sources(&ListSourcesOptions::default(), 41);
    assert_eq!(both.len(), 2);
    assert_eq!(both[0].id, "dummy-display-1");
    assert_eq!((both[0].width, both[0].height), (1280, 720));
    assert!(both[0].is_primary);
    assert_eq!(both[1].id, "dummy-window-1");
    assert_eq!(both[1].pid, Some(42));
    assert_eq!(both[1].app_name.as_deref(), Some("Screen Capture Test Host"));

    let mut windows_only = ListSourcesOptions::default();
    windows_only.kinds = vec![CaptureSourceKind::Window];
    let windows = backend.list_dummy_sources(&windows_only, u32::MAX);
    assert_eq!(windows.len(), 1);
    assert_eq!(windows[0].kind, CaptureSourceKind::Window);
    assert_eq!(windows[0].pid, Some(u32::MAX - 1));

    let mut none = ListSourcesOptions::default();
    none.kinds = Vec::new();
    assert!(backend.list_dummy_sources(&none, 1).is_empty());
}
