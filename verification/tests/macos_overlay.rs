use std::cell::Cell;

use tauri_plugins::capture_models::{CaptureErrorCode, CaptureSourceKind};
use tauri_plugins::mac_overlay::{
    activate_startup_target_with, decide_window_overlay, event_action, needs_native_update, parse_source_id,
    startup_activation_target, verify_lightweight_order, verify_relative_order, ordered_window_from_fields, FrameBits, OrderedWindow, OrderedWindowKind, OrderVerificationState, OverlayDecision,
    OverlayEvent, RefreshAction, WindowFrameAction, WindowFrameTracker, WindowSnapshot,
};
use tauri_plugins::overlay::OverlayTarget;

#[test]
fn only_window_sharing_requests_startup_application_activation() {
    let window = OverlayTarget { source_id: "window:42".to_owned(), source_kind: CaptureSourceKind::Window };
    let display = OverlayTarget { source_id: "display:7".to_owned(), source_kind: CaptureSourceKind::Display };

    assert_eq!(startup_activation_target(&window).unwrap(), Some(42));
    assert_eq!(startup_activation_target(&display).unwrap(), None);
}

#[test]
fn startup_activation_calls_the_window_activator_once_and_skips_displays() {
    let window = OverlayTarget { source_id: "window:42".to_owned(), source_kind: CaptureSourceKind::Window };
    let display = OverlayTarget { source_id: "display:7".to_owned(), source_kind: CaptureSourceKind::Display };
    let calls = Cell::new(0);
    let activate = |window_id| {
        assert_eq!(window_id, 42);
        calls.set(calls.get() + 1);
        Ok(false)
    };

    assert_eq!(activate_startup_target_with(&window, activate).unwrap(), Some(false));
    assert_eq!(
        activate_startup_target_with(&display, |_| panic!("显示器共享不应激活应用")).unwrap(),
        None
    );
    assert_eq!(calls.get(), 1);
}

#[test]
fn unreadable_window_source_is_source_not_found() {
    let window = OverlayTarget { source_id: "window:abc".to_owned(), source_kind: CaptureSourceKind::Window };
    let error = startup_activation_target(&window).unwrap_err();
    assert_eq!(error.payload().code, CaptureErrorCode::SourceNotFound);
    assert!(error.payload().recoverable);
    assert_eq!(parse_source_id("display:7", "display").unwrap(), 7);
    assert!(parse_source_id("display7", "display").is_err());
    assert!(parse_source_id("display:4294967296", "display").is_err());
    assert_eq!(parse_source_id("window:+5", "window").unwrap(), 5);
}

#[test]
fn hidden_or_minimised_targets_hide_the_overlay() {
    let target = WindowSnapshot { id: 9, layer: 3, order: 2, on_screen: true, minimized: false };
    assert_eq!(
        decide_window_overlay(&target, true),
        OverlayDecision::Show { target_id: 9, level: 3, target_order: 2 }
    );
    assert_eq!(decide_window_overlay(&target, false), OverlayDecision::Hide);
    let minimized = WindowSnapshot { minimized: true, ..target };
    assert_eq!(decide_window_overlay(&minimized, true), OverlayDecision::Hide);
    let off_screen = WindowSnapshot { on_screen: false, ..target };
    assert_eq!(decide_window_overlay(&off_screen, true), OverlayDecision::Hide);
}

#[test]
fn lightweight_order_needs_each_panel_directly_above_the_target() {
    assert!(verify_lightweight_order(&vec![5, 6, 1, 2], 1, &vec![6, 5]));
    assert!(!verify_lightweight_order(&vec![5, 7, 1, 2], 1, &vec![6, 5]));
    assert!(!verify_lightweight_order(&vec![6, 1, 2], 1, &vec![6, 5]));
    assert!(!verify_lightweight_order(&vec![6, 6, 1], 1, &vec![6, 5]));
    assert!(verify_lightweight_order(&vec![3, 1], 1, &vec![]));
    assert!(!verify_lightweight_order(&vec![3, 2], 1, &vec![]));
}

#[test]
fn native_update_is_needed_unless_visible_unchanged_and_ordered() {
    assert!(!needs_native_update(true, false, true));
    assert!(needs_native_update(false, false, true));
    assert!(needs_native_update(true, true, true));
    assert!(needs_native_update(true, false, false));
    assert_eq!(WindowFrameAction::Keep.refresh_if_order_invalid(false), WindowFrameAction::Refresh);
    assert_eq!(WindowFrameAction::Keep.refresh_if_order_invalid(true), WindowFrameAction::Keep);
    assert_eq!(WindowFrameAction::Hide.refresh_if_order_invalid(false), WindowFrameAction::Hide);
}

#[test]
fn frame_tracker_hides_during_a_drag_and_refreshes_after_it() {
    let a = FrameBits { x: 1, y: 2, width: 3, height: 4 };
    let b = FrameBits { x: 9, y: 2, width: 3, height: 4 };
    let mut tracker = WindowFrameTracker::default();
    assert_eq!(tracker.observe(a), WindowFrameAction::Keep);
    assert_eq!(tracker.observe(a), WindowFrameAction::Keep);
    assert_eq!(tracker.observe(b), WindowFrameAction::Hide);
    assert!(tracker.is_moving());
    assert_eq!(tracker.observe(b), WindowFrameAction::Refresh);
    assert!(!tracker.is_moving());
    tracker.synchronize(a);
    assert_eq!(tracker.observe_for_visibility(a, false), WindowFrameAction::Refresh);
    assert_eq!(tracker.observe_for_visibility(a, true), WindowFrameAction::Keep);
}

#[test]
fn order_verification_is_claimed_once_by_its_generation() {
    let mut state = OrderVerificationState::default();
    let first = state.request();
    let second = state.request();
    assert_eq!((first, second), (1, 2));
    assert_eq!(state.pending_generation(), Some(2));
    assert!(!state.take_if_current(first));
    assert!(state.take_if_current(second));
    assert!(!state.take_if_current(second));
    let third = state.request();
    state.cancel();
    assert!(!state.take_if_current(third));
}

#[test]
fn events_map_to_refresh_actions() {
    assert_eq!(event_action(OverlayEvent::SystemWillSleep), RefreshAction::Hide);
    assert_eq!(event_action(OverlayEvent::WindowPositionTimer), RefreshAction::TrackWindowFrame);
    assert_eq!(event_action(OverlayEvent::ApplicationActivated), RefreshAction::RefreshAfterWindowOrdering);
    assert_eq!(event_action(OverlayEvent::CorrectionTimer), RefreshAction::Refresh);
    assert_eq!(event_action(OverlayEvent::SystemWoke), RefreshAction::Refresh);
}

#[test]
fn panels_directly_in_front_of_the_target_keep_the_order() {
    let windows = vec![
        OrderedWindow::other(7),
        OrderedWindow::panel(11),
        OrderedWindow::panel(10),
        OrderedWindow::target(1),
        OrderedWindow::other(8),
    ];

    assert!(verify_relative_order(&windows, 1, &vec![10, 11]));
    assert!(verify_relative_order(&windows, 1, &vec![10]));
    assert!(!verify_relative_order(&windows, 1, &vec![11]));
    assert!(!verify_relative_order(&windows, 1, &vec![]));
    assert!(!verify_relative_order(&windows, 2, &vec![10, 11]));
}

#[test]
fn misplaced_panels_break_the_order() {
    let gap = vec![OrderedWindow::panel(10), OrderedWindow::other(7), OrderedWindow::target(1)];
    assert!(!verify_relative_order(&gap, 1, &vec![10]));

    let layered = vec![OrderedWindow::panel_at_layer(10, 3), OrderedWindow::target_at_layer(1, 0)];
    assert!(!verify_relative_order(&layered, 1, &vec![10]));
    let same_layer = vec![OrderedWindow::panel_at_layer(10, 3), OrderedWindow::target_at_layer(1, 3)];
    assert!(verify_relative_order(&same_layer, 1, &vec![10]));

    let duplicate_in_front =
        vec![OrderedWindow::panel(10), OrderedWindow::other(4), OrderedWindow::panel(10), OrderedWindow::target(1)];
    assert!(!verify_relative_order(&duplicate_in_front, 1, &vec![10]));

    let too_close = vec![OrderedWindow::target(1), OrderedWindow::panel(10)];
    assert!(!verify_relative_order(&too_close, 1, &vec![10]));

    let other_target_kind = vec![OrderedWindow::panel(10), OrderedWindow::other(1)];
    assert!(!verify_relative_order(&other_target_kind, 1, &vec![10]));

    let owned = OrderedWindow::target(1).with_owner_pid(42);
    assert_eq!(owned.owner_pid, Some(42));
    assert_eq!(owned.id, 1);
}

#[test]
fn window_rows_become_ordered_windows() {
    let panels = vec![10, 11];

    let target = ordered_window_from_fields(1, 3, 42, 1, &panels);
    assert_eq!(target.kind, OrderedWindowKind::Target);
    assert_eq!((target.layer, target.owner_pid), (3, Some(42)));
    assert_eq!(ordered_window_from_fields(11, 3, 7, 1, &panels).kind, OrderedWindowKind::Panel);
    assert_eq!(ordered_window_from_fields(12, 0, 7, 1, &panels), OrderedWindow::other(12).with_owner_pid(7));
}

#[test]
fn generation_counts_requests_across_takes_and_cancels() {
    let mut state = OrderVerificationState::default();
    assert_eq!(state.request(), 1);
    assert!(state.take_if_current(1));
    assert_eq!(state.request(), 2);
    state.cancel();
    assert_eq!(state.pending_generation(), None);
    assert!(!state.take_if_current(2));
    assert_eq!(state.request(), 3);
    assert_eq!(state.pending_generation(), Some(3));
}

fn frame(x: f64, y: f64, width: f64, height: f64) -> FrameBits {
    FrameBits { x: x.to_bits(), y: y.to_bits(), width: width.to_bits(), height: height.to_bits() }
}

#[test]
fn frame_tracker_compares_frames_as_floating_point_values() {
    let mut tracker = WindowFrameTracker::default();
    assert_eq!(tracker.observe(frame(0.0, 10.0, 300.0, 200.0)), WindowFrameAction::Keep);
    assert_eq!(tracker.observe(frame(-0.0, 10.0, 300.0, 200.0)), WindowFrameAction::Keep);
    let nan = frame(f64::NAN, 10.0, 300.0, 200.0);
    assert_eq!(tracker.observe(nan), WindowFrameAction::Hide);
    assert_eq!(tracker.observe(nan), WindowFrameAction::Hide);
    assert_eq!(tracker.observe(frame(0.0, 10.0, 300.0, 200.0)), WindowFrameAction::Hide);
    assert_eq!(tracker.observe(frame(0.0, 10.0, 300.0, 200.0)), WindowFrameAction::Refresh);
}
