use tauri_plugins::capture_models::CaptureErrorCode;
use tauri_plugins::overlay::{OverlayRect, OverlayStyle};
use tauri_plugins::win_overlay::{
    commands_for_action, deferred_refresh_is_ready, display_start_action, window_source_handle,
    window_source_unavailable, window_start_action, OverlayStartAction, preferred_window_bounds, window_event_hook_ranges,
    windows_display_index_from_source_id, windows_target_handle_from_source_id, OverlayFocus, OverlayPlacement,
    OverlayThread, RegistrationIds, WindowEventCommand, WindowEventRegistry, EVENT_OBJECT_DESTROY,
    EVENT_OBJECT_HIDE, EVENT_OBJECT_SHOW, EVENT_SYSTEM_MOVESIZEEND, EVENT_SYSTEM_MOVESIZESTART, OBJID_WINDOW,
};

/// The commands that a window event sends to each session, by registration id.
fn dispatch(registry: &mut WindowEventRegistry, hook: usize, event: u32, hwnd: usize) -> Option<(u64, Vec<WindowEventCommand>)> {
    registry
        .dispatch_window_event(hook, event, hwnd, OBJID_WINDOW)
        .map(|d| (d.registration_id, commands_for_action(&d.action, None)))
}

fn register(registry: &mut WindowEventRegistry, id: u64, hwnd: usize, source_id: &str, hook: usize) {
    registry.register_window_event_target(id, hwnd, source_id.to_string(), OverlayStyle::default());
    registry.register_window_event_hook_handles(id, hwnd, &vec![hook]);
}

#[test]
fn window_capture_overlay_uses_owned_non_topmost_placement() {
    let placement = OverlayPlacement::for_window(0x2a);

    assert_eq!(placement.owner_hwnd, Some(0x2a));
    assert!(!placement.topmost);
}

#[test]
fn display_capture_overlay_uses_topmost_placement() {
    let placement = OverlayPlacement::for_display();

    assert_eq!(placement.owner_hwnd, None);
    assert!(placement.topmost);
}

#[test]
fn window_capture_start_focuses_owner_once() {
    assert_eq!(OverlayFocus::for_window_start(0x2a), OverlayFocus::OwnerOnce(0x2a));
    assert_eq!(OverlayFocus::none(), OverlayFocus::NoFocus);
}

#[test]
fn window_visible_bounds_prefer_dwm_frame_bounds() {
    let get_window_rect = OverlayRect { left: 96, top: 96, right: 504, bottom: 404 };
    let dwm_frame_bounds = OverlayRect { left: 100, top: 100, right: 500, bottom: 400 };

    assert_eq!(preferred_window_bounds(get_window_rect, Some(dwm_frame_bounds)), dwm_frame_bounds);
}

#[test]
fn window_bounds_fall_back_to_window_rect() {
    let get_window_rect = OverlayRect { left: 96, top: 96, right: 504, bottom: 404 };
    assert_eq!(preferred_window_bounds(get_window_rect, None), get_window_rect);
}

#[test]
fn win_event_registry_dispatches_only_to_hook_owner_for_same_window() {
    let mut ids = RegistrationIds::new();
    let mut registry = WindowEventRegistry::new();
    let hwnd = 0x1234usize;
    let first_hook = 0xaaa1usize;
    let second_hook = 0xaaa2usize;
    let first_id = ids.next_window_event_registration_id();
    let second_id = ids.next_window_event_registration_id();

    register(&mut registry, first_id, hwnd, "window:1234", first_hook);
    register(&mut registry, second_id, hwnd, "window:1234", second_hook);

    let (to, commands) = dispatch(&mut registry, first_hook, EVENT_SYSTEM_MOVESIZESTART, hwnd).unwrap();
    assert_eq!(to, first_id);
    assert!(matches!(commands[0], WindowEventCommand::HideForWindowEvent));

    let (to, commands) = dispatch(&mut registry, second_hook, EVENT_SYSTEM_MOVESIZESTART, hwnd).unwrap();
    assert_eq!(to, second_id);
    assert!(matches!(commands[0], WindowEventCommand::HideForWindowEvent));

    registry.unregister_window_event_target(first_id);
    registry.unregister_window_event_target(second_id);
    assert!(registry.targets.is_empty());
    assert!(registry.hook_targets.is_empty());
}

#[test]
fn win_event_registry_unregisters_one_session_without_removing_others() {
    let mut ids = RegistrationIds::new();
    let mut registry = WindowEventRegistry::new();
    let hwnd = 0x5678usize;
    let first_hook = 0xbbb1usize;
    let second_hook = 0xbbb2usize;
    let first_id = ids.next_window_event_registration_id();
    let second_id = ids.next_window_event_registration_id();

    register(&mut registry, first_id, hwnd, "window:5678", first_hook);
    register(&mut registry, second_id, hwnd, "window:5678", second_hook);
    registry.unregister_window_event_target(first_id);

    assert!(dispatch(&mut registry, first_hook, EVENT_SYSTEM_MOVESIZESTART, hwnd).is_none());

    let (to, commands) = dispatch(&mut registry, second_hook, EVENT_SYSTEM_MOVESIZESTART, hwnd).unwrap();
    assert_eq!(to, second_id);
    assert!(matches!(commands[0], WindowEventCommand::HideForWindowEvent));

    registry.unregister_window_event_target(second_id);
}

#[test]
fn win_event_registry_ignores_location_change_while_moving_or_sizing() {
    const EVENT_OBJECT_LOCATIONCHANGE_FOR_TEST: u32 = 0x800B;

    let mut ids = RegistrationIds::new();
    let mut registry = WindowEventRegistry::new();
    let hwnd = 0x7777usize;
    let hook = 0xddd1usize;
    let registration_id = ids.next_window_event_registration_id();
    register(&mut registry, registration_id, hwnd, "window:7777", hook);

    let (_, commands) = dispatch(&mut registry, hook, EVENT_SYSTEM_MOVESIZESTART, hwnd).unwrap();
    assert!(matches!(commands[0], WindowEventCommand::HideForWindowEvent));
    assert!(matches!(
        commands[1],
        WindowEventCommand::SuspendWindowLocationChangeHook { registration_id: id, clear_deferred_refresh: true }
            if id == registration_id
    ));

    assert!(dispatch(&mut registry, hook, EVENT_OBJECT_LOCATIONCHANGE_FOR_TEST, hwnd).is_none());

    registry.unregister_window_event_target(registration_id);
}

#[test]
fn win_event_registry_suspends_location_change_hook_while_moving_or_sizing() {
    let mut ids = RegistrationIds::new();
    let mut registry = WindowEventRegistry::new();
    let hwnd = 0x8899usize;
    let hook = 0xeeffusize;
    let registration_id = ids.next_window_event_registration_id();
    register(&mut registry, registration_id, hwnd, "window:8899", hook);

    let (_, commands) = dispatch(&mut registry, hook, EVENT_SYSTEM_MOVESIZESTART, hwnd).unwrap();

    assert!(matches!(commands[0], WindowEventCommand::HideForWindowEvent));
    assert!(matches!(
        commands[1],
        WindowEventCommand::SuspendWindowLocationChangeHook { registration_id: id, clear_deferred_refresh: true }
            if id == registration_id
    ));

    registry.unregister_window_event_target(registration_id);
}

#[test]
fn win_event_registry_defers_movesize_end_refresh_until_after_drag_settles() {
    let mut ids = RegistrationIds::new();
    let mut registry = WindowEventRegistry::new();
    let hwnd = 0x8990usize;
    let hook = 0xef01usize;
    let registration_id = ids.next_window_event_registration_id();
    register(&mut registry, registration_id, hwnd, "window:8990", hook);

    let (_, commands) = dispatch(&mut registry, hook, EVENT_SYSTEM_MOVESIZESTART, hwnd).unwrap();
    assert!(matches!(commands[0], WindowEventCommand::HideForWindowEvent));
    assert!(matches!(
        commands[1],
        WindowEventCommand::SuspendWindowLocationChangeHook { registration_id: id, clear_deferred_refresh: true }
            if id == registration_id
    ));

    let (_, commands) = dispatch(&mut registry, hook, EVENT_SYSTEM_MOVESIZEEND, hwnd).unwrap();

    assert!(matches!(
        commands[0],
        WindowEventCommand::DeferWindowEventRefresh { registration_id: id, target_hwnd: target, .. }
            if id == registration_id && target == hwnd
    ));

    registry.unregister_window_event_target(registration_id);
}

#[test]
fn window_event_hook_ranges_include_location_change_for_fullscreen_resizes() {
    const EVENT_OBJECT_LOCATIONCHANGE_FOR_TEST: u32 = 0x800B;

    assert!(window_event_hook_ranges().iter().any(|(event_min, event_max)| {
        *event_min <= EVENT_OBJECT_LOCATIONCHANGE_FOR_TEST && EVENT_OBJECT_LOCATIONCHANGE_FOR_TEST <= *event_max
    }));
}

#[test]
fn win_event_registry_defers_idle_location_change_refresh() {
    const EVENT_OBJECT_LOCATIONCHANGE_FOR_TEST: u32 = 0x800B;

    let mut ids = RegistrationIds::new();
    let mut registry = WindowEventRegistry::new();
    let hwnd = 0x8888usize;
    let hook = 0xeee1usize;
    let registration_id = ids.next_window_event_registration_id();
    register(&mut registry, registration_id, hwnd, "window:8888", hook);

    let (_, commands) = dispatch(&mut registry, hook, EVENT_OBJECT_LOCATIONCHANGE_FOR_TEST, hwnd).unwrap();

    assert!(matches!(
        commands[0],
        WindowEventCommand::DeferWindowEventRefresh { registration_id: id, target_hwnd: target, .. }
            if id == registration_id && target == hwnd
    ));
    assert!(matches!(
        commands[1],
        WindowEventCommand::SuspendWindowLocationChangeHook { registration_id: id, clear_deferred_refresh: false }
            if id == registration_id
    ));

    registry.unregister_window_event_target(registration_id);
}

#[test]
fn overlay_thread_coalesces_and_clears_deferred_window_event_refreshes() {
    let mut ids = RegistrationIds::new();
    let mut overlay_thread = OverlayThread::new();
    let registration_id = ids.next_window_event_registration_id();
    let style = OverlayStyle::default();

    overlay_thread.defer_window_event_refresh(registration_id, "window:1111".to_string(), style, 0x1111, 1_000);
    overlay_thread.defer_window_event_refresh(registration_id, "window:2222".to_string(), style, 0x2222, 1_000);

    assert_eq!(overlay_thread.pending_window_event_refreshes.len(), 1);
    let pending = overlay_thread.pending_refresh(registration_id).expect("deferred refresh exists");
    assert_eq!(pending.source_id, "window:2222");
    assert_eq!(pending.target_hwnd, 0x2222);

    overlay_thread.clear_window_event_target(registration_id);

    assert!(overlay_thread.pending_window_event_refreshes.is_empty());
}

#[test]
fn overlay_thread_clears_deferred_refresh_when_location_monitoring_is_suspended() {
    let mut ids = RegistrationIds::new();
    let mut overlay_thread = OverlayThread::new();
    let registration_id = ids.next_window_event_registration_id();

    overlay_thread.defer_window_event_refresh(
        registration_id,
        "window:3333".to_string(),
        OverlayStyle::default(),
        0x3333,
        1_000,
    );

    overlay_thread.suspend_window_location_change_hook(registration_id, true);

    assert!(overlay_thread.pending_window_event_refreshes.is_empty());
}

#[test]
fn overlay_thread_keeps_deferred_refresh_when_location_change_suspends_monitoring() {
    let mut ids = RegistrationIds::new();
    let mut overlay_thread = OverlayThread::new();
    let registration_id = ids.next_window_event_registration_id();

    overlay_thread.defer_window_event_refresh(
        registration_id,
        "window:4444".to_string(),
        OverlayStyle::default(),
        0x4444,
        1_000,
    );

    overlay_thread.suspend_window_location_change_hook(registration_id, false);

    assert_eq!(overlay_thread.pending_window_event_refreshes.len(), 1);
}

#[test]
fn overlay_thread_processes_queued_suspend_before_due_refresh() {
    let mut ids = RegistrationIds::new();
    let mut overlay_thread = OverlayThread::new();
    let registration_id = ids.next_window_event_registration_id();

    overlay_thread.defer_window_event_refresh(
        registration_id,
        "window:5555".to_string(),
        OverlayStyle::default(),
        0x5555,
        0,
    );
    // The suspend command queued before the refresh came due is handled first.
    overlay_thread.suspend_window_location_change_hook(registration_id, true);
    let due = overlay_thread.refresh_due_window_event_targets(10_000, false);

    assert!(due.is_empty());
    assert!(overlay_thread.pending_window_event_refreshes.is_empty());
}

#[test]
fn deferred_refresh_waits_while_pointer_button_is_down() {
    let now = 5_000u64;

    assert!(!deferred_refresh_is_ready(now, now, true));
    assert!(deferred_refresh_is_ready(now, now, false));
    assert!(!deferred_refresh_is_ready(now, now + 1, false));
}

#[test]
fn win_event_registry_destroy_unregisters_target_as_terminal() {
    let mut ids = RegistrationIds::new();
    let mut registry = WindowEventRegistry::new();
    let hwnd = 0x9abcusize;
    let hook = 0xccc1usize;
    let registration_id = ids.next_window_event_registration_id();
    register(&mut registry, registration_id, hwnd, "window:9abc", hook);

    let (_, commands) = dispatch(&mut registry, hook, EVENT_OBJECT_DESTROY, hwnd).unwrap();

    assert!(matches!(commands[0], WindowEventCommand::HideForWindowEvent));
    assert!(matches!(
        commands[1],
        WindowEventCommand::ClearWindowEventTargetForWindowEvent { registration_id: id } if id == registration_id
    ));

    assert!(dispatch(&mut registry, hook, EVENT_SYSTEM_MOVESIZESTART, hwnd).is_none());

    registry.unregister_window_event_target(registration_id);
}

#[test]
fn events_about_other_windows_or_objects_are_ignored() {
    let mut registry = WindowEventRegistry::new();
    register(&mut registry, 7, 0x10, "window:10", 0x99);

    assert!(registry.dispatch_window_event(0x99, EVENT_SYSTEM_MOVESIZESTART, 0x11, OBJID_WINDOW).is_none());
    assert!(registry.dispatch_window_event(0x99, EVENT_SYSTEM_MOVESIZESTART, 0x10, -4).is_none());
    assert!(registry.dispatch_window_event(0x98, EVENT_SYSTEM_MOVESIZESTART, 0x10, OBJID_WINDOW).is_none());
}

#[test]
fn hide_and_show_events_hide_then_refresh_bounds() {
    let mut registry = WindowEventRegistry::new();
    register(&mut registry, 3, 0x20, "window:20", 0x77);

    let (_, commands) = dispatch(&mut registry, 0x77, EVENT_OBJECT_HIDE, 0x20).unwrap();
    assert_eq!(commands.len(), 1);
    assert!(matches!(commands[0], WindowEventCommand::HideForWindowEvent));

    let dispatched = registry.dispatch_window_event(0x77, EVENT_OBJECT_SHOW, 0x20, OBJID_WINDOW).unwrap();
    let rect = OverlayRect { left: 1, top: 2, right: 300, bottom: 400 };
    let commands = commands_for_action(&dispatched.action, Some(rect));
    assert_eq!(commands.len(), 1);
    assert!(matches!(
        commands[0],
        WindowEventCommand::ShowRectForWindowEvent { rect: r, placement, .. }
            if r == rect && placement == OverlayPlacement::for_window(0x20)
    ));
}

#[test]
fn registration_ids_count_up_from_one() {
    let mut ids = RegistrationIds::new();
    assert_eq!(ids.next_window_event_registration_id(), 1);
    assert_eq!(ids.next_window_event_registration_id(), 2);
}

#[test]
fn due_refreshes_are_postponed_while_pointer_is_down() {
    let mut thread = OverlayThread::new();
    thread.defer_window_event_refresh(9, "window:9".to_string(), OverlayStyle::default(), 9, 1_000);
    assert_eq!(thread.next_refresh_timeout_ms(1_000), 160);
    assert_eq!(thread.next_refresh_timeout_ms(2_000), 1);

    let due = thread.refresh_due_window_event_targets(2_000, true);
    assert!(due.is_empty());
    assert_eq!(thread.pending_refresh(9).unwrap().due_at_ms, 2_160);

    let due = thread.refresh_due_window_event_targets(2_160, false);
    assert_eq!(due.len(), 1);
    assert!(thread.pending_window_event_refreshes.is_empty());
    assert_eq!(thread.next_refresh_timeout_ms(0), u32::MAX);
}

#[test]
fn source_ids_name_window_handles_and_display_indexes() {
    assert_eq!(windows_target_handle_from_source_id("window:9abc"), Some(0x9abc));
    assert_eq!(windows_target_handle_from_source_id("window:"), None);
    assert_eq!(windows_target_handle_from_source_id("display:1"), None);
    assert_eq!(windows_target_handle_from_source_id("window:xyz"), None);
    assert_eq!(windows_display_index_from_source_id("display:1"), Some(0));
    assert_eq!(windows_display_index_from_source_id("display:\\\\.\\DISPLAY1:3"), Some(2));
    assert_eq!(windows_display_index_from_source_id("display:0"), None);
    assert_eq!(windows_display_index_from_source_id("window:1"), None);
}

#[test]
fn starting_a_window_border_hooks_the_window_and_focuses_it_once() {
    let rect = OverlayRect { left: 10, top: 20, right: 410, bottom: 320 };

    assert_eq!(window_start_action(None, Some(Some(rect))), OverlayStartAction::ClearAndHide);
    assert_eq!(window_start_action(Some(0x42), None), OverlayStartAction::ClearAndHideOnHost);
    assert_eq!(window_start_action(Some(0x42), Some(None)), OverlayStartAction::RegisterAndHide { target_hwnd: 0x42 });
    assert_eq!(
        window_start_action(Some(0x42), Some(Some(rect))),
        OverlayStartAction::RegisterAndShow {
            target_hwnd: 0x42,
            rect,
            placement: OverlayPlacement::for_window(0x42),
            focus: OverlayFocus::OwnerOnce(0x42),
        }
    );
}

#[test]
fn starting_a_display_border_is_topmost_without_focus() {
    let rect = OverlayRect { left: 0, top: 0, right: 1920, bottom: 1080 };

    assert_eq!(
        display_start_action(Some(rect)),
        OverlayStartAction::ClearAndShow { rect, placement: OverlayPlacement::for_display(), focus: OverlayFocus::none() }
    );
    assert_eq!(display_start_action(None), OverlayStartAction::ClearAndHide);
}

#[test]
fn window_source_errors_name_the_source() {
    assert_eq!(window_source_handle("window:1f").unwrap(), 0x1f);
    let missing = window_source_handle("display:1").unwrap_err().payload();
    assert_eq!(missing.code, CaptureErrorCode::SourceNotFound);
    assert!(!missing.recoverable);
    assert_eq!(missing.message, "invalid Windows window source id: display:1");
    let gone = window_source_unavailable("window:1f").payload();
    assert_eq!(gone.code, CaptureErrorCode::SourceUnavailable);
    assert!(gone.recoverable);
    assert_eq!(gone.message, "Windows window source is no longer available: window:1f");
}
