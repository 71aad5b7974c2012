use vstd::prelude::*;

use crate::capture_models::{CaptureErrorCode, Error as CaptureError};
use crate::overlay::{OverlayRect, OverlayStyle};
use crate::text::{chars_of, concat_chars, has_prefix, parse_unsigned, parse_unsigned_spec, slice_chars, starts_with, string_of};

verus! {

/// Where the border windows stand: owned by the shared window and kept in its z-order, or
/// topmost over a shared display.
#[derive(Debug, Clone, Copy, PartialEq, Eq, Structural)]
pub struct OverlayPlacement {
    pub owner_hwnd: Option<usize>,
    pub topmost: bool,
}

impl OverlayPlacement {
    pub fn for_window(owner_hwnd: usize) -> (p: Self)
        ensures
            p == (OverlayPlacement { owner_hwnd: Some(owner_hwnd), topmost: false }),
    {
        OverlayPlacement { owner_hwnd: Some(owner_hwnd), topmost: false }
    }

    pub fn for_display() -> (p: Self)
        ensures
            p == (OverlayPlacement { owner_hwnd: None, topmost: true }),
    {
        OverlayPlacement { owner_hwnd: None, topmost: true }
    }
}

/// Whether showing the border first brings a window to the foreground.
#[derive(Debug, Clone, Copy, PartialEq, Eq, Structural)]
pub enum OverlayFocus {
    NoFocus,
    OwnerOnce(usize),
}

impl OverlayFocus {
    pub fn for_window_start(owner_hwnd: usize) -> (f: Self)
        ensures
            f == OverlayFocus::OwnerOnce(owner_hwnd),
    {
        OverlayFocus::OwnerOnce(owner_hwnd)
    }

    pub fn none() -> (f: Self)
        ensures
            f == OverlayFocus::NoFocus,
    {
        OverlayFocus::NoFocus
    }
}

/// What starting the border for a target does once the target is resolved.
#[derive(Debug, Clone, Copy, PartialEq, Eq, Structural)]
pub enum OverlayStartAction {
    /// Forget the window hooks, and hide the border if it has a host.
    ClearAndHide,
    /// Forget the window hooks, and hide the border through its host (started if need be).
    ClearAndHideOnHost,
    /// Hook the window's events, then show the border around it, owned by it and bringing it
    /// to the foreground once.
    RegisterAndShow { target_hwnd: usize, rect: OverlayRect, placement: OverlayPlacement, focus: OverlayFocus },
    /// Hook the window's events; it is hidden or minimised, so the border is hidden.
    RegisterAndHide { target_hwnd: usize },
    /// Forget the window hooks, then show the border topmost around the display.
    ClearAndShow { rect: OverlayRect, placement: OverlayPlacement, focus: OverlayFocus },
}

/// Starting the border around a window: `target_hwnd` is the handle the source id names, and
/// `bounds` what the lookup of its bounds gave (`None` where the lookup failed; `Some(None)`
/// where the window is hidden or minimised).
pub fn window_start_action(target_hwnd: Option<usize>, bounds: Option<Option<OverlayRect>>) -> (a: OverlayStartAction)
    ensures
        a == match target_hwnd {
            None => OverlayStartAction::ClearAndHide,
            Some(h) => match bounds {
                None => OverlayStartAction::ClearAndHideOnHost,
                Some(Some(rect)) => OverlayStartAction::RegisterAndShow {
                    target_hwnd: h,
                    rect,
                    placement: OverlayPlacement { owner_hwnd: Some(h), topmost: false },
                    focus: OverlayFocus::OwnerOnce(h),
                },
                Some(None) => OverlayStartAction::RegisterAndHide { target_hwnd: h },
            },
        },
{
    match target_hwnd {
        None => OverlayStartAction::ClearAndHide,
        Some(h) => match bounds {
            None => OverlayStartAction::ClearAndHideOnHost,
            Some(Some(rect)) => OverlayStartAction::RegisterAndShow {
                target_hwnd: h,
                rect,
                placement: OverlayPlacement::for_window(h),
                focus: OverlayFocus::for_window_start(h),
            },
            Some(None) => OverlayStartAction::RegisterAndHide { target_hwnd: h },
        },
    }
}

/// Starting the border around a display whose bounds are `bounds`, where they are known.
pub fn display_start_action(bounds: Option<OverlayRect>) -> (a: OverlayStartAction)
    ensures
        a == match bounds {
            Some(rect) => OverlayStartAction::ClearAndShow {
                rect,
                placement: OverlayPlacement { owner_hwnd: None, topmost: true },
                focus: OverlayFocus::NoFocus,
            },
            None => OverlayStartAction::ClearAndHide,
        },
{
    match bounds {
        Some(rect) => OverlayStartAction::ClearAndShow {
            rect,
            placement: OverlayPlacement::for_display(),
            focus: OverlayFocus::none(),
        },
        None => OverlayStartAction::ClearAndHide,
    }
}

/// The visible bounds of a window: the DWM frame bounds where known, else the window rect.
pub fn preferred_window_bounds(get_window_rect: OverlayRect, dwm_frame_bounds: Option<OverlayRect>) -> (r: OverlayRect)
    ensures
        r == match dwm_frame_bounds {
            Some(b) => b,
            None => get_window_rect,
        },
{
    match dwm_frame_bounds {
        Some(b) => b,
        None => get_window_rect,
    }
}

/// The window handle in a source id `window:<hex>`.
pub open spec fn window_handle_spec(source_id: Seq<char>) -> Option<nat> {
    if starts_with(source_id, "window:"@) {
        parse_unsigned_spec(source_id.subrange(7, source_id.len() as int), 16, usize::MAX as nat)
    } else {
        None
    }
}

/// The window handle that a source id `window:<hex>` names.
pub fn windows_target_handle_from_source_id(source_id: &str) -> (r: Option<usize>)
    ensures
        match r {
            Some(h) => window_handle_spec(source_id@) == Some(h as nat),
            None => window_handle_spec(source_id@) is None,
        },
{
    let chars = chars_of(source_id);
    let prefix = chars_of("window:");
    proof {
        reveal_strlit("window:");
    }
    if !has_prefix(&chars, &prefix) {
        return None;
    }
    let digits = slice_chars(&chars, 7, chars.len());
    match parse_unsigned(&digits, 16, usize::MAX as u64) {
        Some(h) => Some(h as usize),
        None => None,
    }
}

/// The window handle of a window source, or the error of a source id that names none: a
/// `SourceNotFound` error that retrying cannot mend.
pub fn window_source_handle(source_id: &str) -> (r: Result<usize, CaptureError>)
    ensures
        match r {
            Ok(h) => window_handle_spec(source_id@) == Some(h as nat),
            Err(e) => window_handle_spec(source_id@) is None && e->payload.code == CaptureErrorCode::SourceNotFound
                && !e->payload.recoverable && e->payload.message@ == "invalid Windows window source id: "@
                + source_id@,
        },
{
    match windows_target_handle_from_source_id(source_id) {
        Some(h) => Ok(h),
        None => {
            let message = concat_chars(&chars_of("invalid Windows window source id: "), &chars_of(source_id));
            Err(CaptureError::new(CaptureErrorCode::SourceNotFound, string_of(&message), false))
        },
    }
}

/// The error of a window source whose window is gone: a `SourceUnavailable` error that a later
/// retry may mend.
pub fn window_source_unavailable(source_id: &str) -> (e: CaptureError)
    ensures
        e->payload.code == CaptureErrorCode::SourceUnavailable,
        e->payload.recoverable,
        e->payload.message@ == "Windows window source is no longer available: "@ + source_id@,
{
    let message = concat_chars(&chars_of("Windows window source is no longer available: "), &chars_of(source_id));
    CaptureError::new(CaptureErrorCode::SourceUnavailable, string_of(&message), true)
}

/// The part of `s` after its last `:`, or all of `s` where it has none.
pub open spec fn after_last_colon(s: Seq<char>) -> Seq<char>
    decreases s.len(),
{
    if s.len() == 0 {
        s
    } else if s.last() == ':' {
        seq![]
    } else {
        after_last_colon(s.drop_last()).push(s.last())
    }
}

/// The zero-based display index in a source id `display:<n>` or `display:<...>:<n>`, where
/// `n` counts from one.
pub open spec fn display_index_spec(source_id: Seq<char>) -> Option<nat> {
    if starts_with(source_id, "display:"@) {
        match parse_unsigned_spec(after_last_colon(source_id.subrange(8, source_id.len() as int)), 10, usize::MAX as nat) {
            Some(n) => if n >= 1 {
                Some((n - 1) as nat)
            } else {
                None
            },
            None => None,
        }
    } else {
        None
    }
}

fn after_last_colon_exec(s: &Vec<char>) -> (r: Vec<char>)
    ensures
        r@ == after_last_colon(s@),
{
    let mut start: usize = 0;
    let mut i: usize = 0;
    while i < s.len()
        invariant
            start <= i <= s.len(),
            after_last_colon(s@.take(i as int)) == s@.subrange(start as int, i as int),
        decreases s.len() - i,
    {
        assert(s@.take(i + 1).drop_last() =~= s@.take(i as int));
        if s[i] == ':' {
            start = i + 1;
            assert(s@.subrange(start as int, i + 1) =~= Seq::<char>::empty());
        } else {
            assert(s@.subrange(start as int, i + 1) =~= s@.subrange(start as int, i as int).push(s@[i as int]));
        }
        i = i + 1;
    }
    assert(s@.take(s.len() as int) =~= s@);
    slice_chars(s, start, s.len())
}

/// The zero-based index of the display that a source id names.
pub fn windows_display_index_from_source_id(source_id: &str) -> (r: Option<usize>)
    ensures
        match r {
            Some(i) => display_index_spec(source_id@) == Some(i as nat),
            None => display_index_spec(source_id@) is None,
        },
{
    let chars = chars_of(source_id);
    let prefix = chars_of("display:");
    proof {
        reveal_strlit("display:");
    }
    if !has_prefix(&chars, &prefix) {
        return None;
    }
    let rest = slice_chars(&chars, 8, chars.len());
    let index = after_last_colon_exec(&rest);
    match parse_unsigned(&index, 10, usize::MAX as u64) {
        Some(n) => if n >= 1 {
            Some((n - 1) as usize)
        } else {
            None
        },
        None => None,
    }
}

pub const EVENT_SYSTEM_MOVESIZESTART: u32 = 0x000A;

pub const EVENT_SYSTEM_MOVESIZEEND: u32 = 0x000B;

pub const EVENT_OBJECT_DESTROY: u32 = 0x8001;

pub const EVENT_OBJECT_SHOW: u32 = 0x8002;

pub const EVENT_OBJECT_HIDE: u32 = 0x8003;

pub const EVENT_OBJECT_LOCATIONCHANGE: u32 = 0x800B;

pub const OBJID_WINDOW: i32 = 0;

/// The event ranges that the border hooks on the shared window's thread: move and resize,
/// location changes, destruction, hiding and showing.
pub fn window_event_hook_ranges() -> (r: Vec<(u32, u32)>)
    ensures
        r@ == seq![
            (EVENT_SYSTEM_MOVESIZESTART, EVENT_SYSTEM_MOVESIZEEND),
            (EVENT_OBJECT_LOCATIONCHANGE, EVENT_OBJECT_LOCATIONCHANGE),
            (EVENT_OBJECT_DESTROY, EVENT_OBJECT_DESTROY),
            (EVENT_OBJECT_HIDE, EVENT_OBJECT_HIDE),
            (EVENT_OBJECT_SHOW, EVENT_OBJECT_SHOW),
        ],
{
    vec![
        (EVENT_SYSTEM_MOVESIZESTART, EVENT_SYSTEM_MOVESIZEEND),
        (EVENT_OBJECT_LOCATIONCHANGE, EVENT_OBJECT_LOCATIONCHANGE),
        (EVENT_OBJECT_DESTROY, EVENT_OBJECT_DESTROY),
        (EVENT_OBJECT_HIDE, EVENT_OBJECT_HIDE),
        (EVENT_OBJECT_SHOW, EVENT_OBJECT_SHOW),
    ]
}

/// Hands out registration ids, counting up from one and wrapping.
#[derive(Debug)]
pub struct RegistrationIds {
    pub next: u64,
}

impl RegistrationIds {
    pub fn new() -> (r: Self)
        ensures
            r.next == 1,
    {
        RegistrationIds { next: 1 }
    }

    pub fn next_window_event_registration_id(&mut self) -> (id: u64)
        ensures
            id == old(self).next,
            final(self).next == (if old(self).next == u64::MAX {
                0
            } else {
                old(self).next + 1
            }),
    {
        let id = self.next;
        self.next = if self.next == u64::MAX {
            0
        } else {
            self.next + 1
        };
        id
    }
}

/// A border session that follows a window's events.
#[derive(Debug)]
pub struct WindowEventTarget {
    pub target_hwnd: usize,
    pub registration_id: u64,
    pub source_id: String,
    pub style: OverlayStyle,
    pub moving_or_sizing: bool,
}

impl Clone for WindowEventTarget {
    fn clone(&self) -> (r: Self)
        ensures
            r == *self,
    {
        WindowEventTarget {
            target_hwnd: self.target_hwnd,
            registration_id: self.registration_id,
            source_id: self.source_id.clone(),
            style: self.style,
            moving_or_sizing: self.moving_or_sizing,
        }
    }
}

/// The session that an installed hook reports to.
#[derive(Debug, Clone, Copy, PartialEq, Eq, Structural)]
pub struct WindowEventHookTarget {
    pub handle: usize,
    pub registration_id: u64,
    pub target_hwnd: usize,
}

/// Which border sessions follow which windows, and which hook belongs to which session.
#[derive(Debug)]
pub struct WindowEventRegistry {
    pub targets: Vec<WindowEventTarget>,
    pub hook_targets: Vec<WindowEventHookTarget>,
}

/// What a window event asks of the border, for the session it belongs to.
#[derive(Debug)]
#[allow(inconsistent_fields)]
pub enum WindowEventAction {
    Hide,
    HideAndSuspendLocationChange { registration_id: u64 },
    HideAndClear { registration_id: u64 },
    RefreshBounds { registration_id: Option<u64>, source_id: String, style: OverlayStyle, target_hwnd: usize },
    DeferRefresh { registration_id: u64, source_id: String, style: OverlayStyle, target_hwnd: usize },
}

/// A window event's action and the session whose command channel receives it.
#[derive(Debug)]
pub struct WindowEventDispatch {
    pub registration_id: u64,
    pub action: WindowEventAction,
}

/// The kinds of window event action.
#[derive(Debug, Clone, Copy, PartialEq, Eq, Structural)]
pub enum WindowEventActionKind {
    Hide,
    HideAndSuspendLocationChange,
    HideAndClear,
    RefreshBounds,
    DeferRefresh,
}

/// `r` sends an action of `kind` to session `reg`, about its window `hwnd`, its source id
/// `source_id` and its style; a bounds refresh here resumes no hook.
pub open spec fn dispatched(
    r: Option<WindowEventDispatch>,
    reg: u64,
    kind: WindowEventActionKind,
    source_id: Seq<char>,
    style: OverlayStyle,
    hwnd: usize,
) -> bool {
    match r {
        None => false,
        Some(d) => d.registration_id == reg && match d.action {
            WindowEventAction::Hide => kind == WindowEventActionKind::Hide,
            WindowEventAction::HideAndSuspendLocationChange { registration_id } => kind
                == WindowEventActionKind::HideAndSuspendLocationChange && registration_id == reg,
            WindowEventAction::HideAndClear { registration_id } => kind == WindowEventActionKind::HideAndClear
                && registration_id == reg,
            WindowEventAction::RefreshBounds { registration_id, source_id: s, style: st, target_hwnd } => kind
                == WindowEventActionKind::RefreshBounds && registration_id is None && s@ == source_id && st == style
                && target_hwnd == hwnd,
            WindowEventAction::DeferRefresh { registration_id, source_id: s, style: st, target_hwnd } => kind
                == WindowEventActionKind::DeferRefresh && registration_id == reg && s@ == source_id && st == style
                && target_hwnd == hwnd,
        },
    }
}

/// A command for the border thread that a window event produces.
#[derive(Debug)]
pub enum WindowEventCommand {
    ShowRectForWindowEvent { rect: OverlayRect, style: OverlayStyle, placement: OverlayPlacement },
    HideForWindowEvent,
    DeferWindowEventRefresh { registration_id: u64, source_id: String, style: OverlayStyle, target_hwnd: usize },
    SuspendWindowLocationChangeHook { registration_id: u64, clear_deferred_refresh: bool },
    ResumeWindowLocationChangeHook { registration_id: u64 },
    ClearWindowEventTargetForWindowEvent { registration_id: u64 },
}

pub open spec fn is_session(t: WindowEventTarget, hwnd: usize, registration_id: u64) -> bool {
    t.target_hwnd == hwnd && t.registration_id == registration_id
}

/// The first session of `registration_id` on window `hwnd`.
pub open spec fn session_index(s: Seq<WindowEventTarget>, hwnd: usize, registration_id: u64) -> Option<int>
    decreases s.len(),
{
    if s.len() == 0 {
        None
    } else {
        match session_index(s.drop_last(), hwnd, registration_id) {
            Some(i) => Some(i),
            None => if is_session(s.last(), hwnd, registration_id) {
                Some(s.len() - 1)
            } else {
                None
            },
        }
    }
}

/// The hook entry of `handle`, the latest where there are several.
pub open spec fn hook_lookup(s: Seq<WindowEventHookTarget>, handle: usize) -> Option<WindowEventHookTarget>
    decreases s.len(),
{
    if s.len() == 0 {
        None
    } else if s.last().handle == handle {
        Some(s.last())
    } else {
        hook_lookup(s.drop_last(), handle)
    }
}

/// The hook entries after `handles` are installed for a session: each handle's entry is
/// replaced by one that reports to the session.
pub open spec fn put_hooks(s: Seq<WindowEventHookTarget>, handles: Seq<usize>, registration_id: u64, hwnd: usize) -> Seq<
    WindowEventHookTarget,
>
    decreases handles.len(),
{
    if handles.len() == 0 {
        s
    } else {
        let h = handles.last();
        put_hooks(s, handles.drop_last(), registration_id, hwnd).filter(|e: WindowEventHookTarget| e.handle != h).push(
            WindowEventHookTarget { handle: h, registration_id, target_hwnd: hwnd },
        )
    }
}

/// The session that an event of `hook` about window `hwnd` concerns, by its index.
pub open spec fn event_session(r: WindowEventRegistry, hook: usize, hwnd: usize, object_id: i32) -> Option<int> {
    if object_id != OBJID_WINDOW {
        None
    } else {
        match hook_lookup(r.hook_targets@, hook) {
            None => None,
            Some(h) => if h.target_hwnd != hwnd {
                None
            } else {
                session_index(r.targets@, hwnd, h.registration_id)
            },
        }
    }
}

proof fn lemma_session_index_prefix(s: Seq<WindowEventTarget>, k: int, hwnd: usize, reg: u64)
    requires
        0 <= k <= s.len(),
        session_index(s.take(k), hwnd, reg) is Some,
    ensures
        session_index(s, hwnd, reg) == session_index(s.take(k), hwnd, reg),
    decreases s.len() - k,
{
    if k < s.len() {
        assert(s.take(k + 1).drop_last() =~= s.take(k));
        lemma_session_index_prefix(s, k + 1, hwnd, reg);
    } else {
        assert(s.take(k) =~= s);
    }
}

proof fn lemma_session_index_bounds(s: Seq<WindowEventTarget>, hwnd: usize, reg: u64)
    ensures
        match session_index(s, hwnd, reg) {
            Some(i) => 0 <= i < s.len() && is_session(s[i], hwnd, reg),
            None => true,
        },
    decreases s.len(),
{
    if s.len() > 0 {
        lemma_session_index_bounds(s.drop_last(), hwnd, reg);
    }
}

/// No two items of `s` have the same key.
pub open spec fn keys_unique<A, K>(s: Seq<A>, key: spec_fn(A) -> K) -> bool {
    forall|i: int, j: int|
        0 <= i < s.len() && 0 <= j < s.len() && i != j ==> key(#[trigger] s[i]) != key(#[trigger] s[j])
}

proof fn lemma_push_fresh_key<A, K>(s: Seq<A>, key: spec_fn(A) -> K, x: A)
    requires
        keys_unique(s, key),
        forall|i: int| 0 <= i < s.len() ==> key(#[trigger] s[i]) != key(x),
    ensures
        keys_unique(s.push(x), key),
{
    let t = s.push(x);
    assert forall|i: int, j: int| 0 <= i < t.len() && 0 <= j < t.len() && i != j implies key(#[trigger] t[i])
        != key(#[trigger] t[j]) by {
        if i < s.len() && j < s.len() {
            assert(t[i] == s[i] && t[j] == s[j]);
        } else if i < s.len() {
            assert(t[i] == s[i] && t[j] == x);
        } else {
            assert(t[j] == s[j] && t[i] == x);
        }
    }
}

proof fn lemma_filter_keeps_keys_unique<A, K>(s: Seq<A>, key: spec_fn(A) -> K, p: spec_fn(A) -> bool)
    requires
        keys_unique(s, key),
    ensures
        keys_unique(s.filter(p), key),
    decreases s.len(),
{
    if s.len() > 0 {
        let t = s.drop_last();
        let x = s.last();
        assert(s =~= t.push(x));
        assert forall|i: int, j: int| 0 <= i < t.len() && 0 <= j < t.len() && i != j implies key(#[trigger] t[i])
            != key(#[trigger] t[j]) by {
            assert(t[i] == s[i] && t[j] == s[j]);
        }
        lemma_filter_keeps_keys_unique(t, key, p);
        t.lemma_filter_push(x, p);
        if p(x) {
            let f = t.filter(p);
            assert forall|i: int| 0 <= i < f.len() implies key(#[trigger] f[i]) != key(x) by {
                let y = f[i];
                assert(f.contains(y));
                t.lemma_filter_contains_rev(p, y);
                let k = choose|k: int| 0 <= k < t.len() && t[k] == y;
                assert(s[k] == y && s[s.len() - 1] == x);
            }
            lemma_push_fresh_key(f, key, x);
        }
    }
}

/// Filtering out every item with key `k` and adding `x` of key `k` keeps keys unique.
proof fn lemma_replace_key<A, K>(s: Seq<A>, key: spec_fn(A) -> K, x: A)
    requires
        keys_unique(s, key),
    ensures
        keys_unique(s.filter(|y: A| key(y) != key(x)).push(x), key),
{
    broadcast use vstd::seq_lib::group_filter_ensures;

    let p = |y: A| key(y) != key(x);
    lemma_filter_keeps_keys_unique(s, key, p);
    let f = s.filter(p);
    assert forall|i: int| 0 <= i < f.len() implies key(#[trigger] f[i]) != key(x) by {
        assert(p(f[i]));
    }
    lemma_push_fresh_key(f, key, x);
}

proof fn lemma_update_same_key<A, K>(s: Seq<A>, key: spec_fn(A) -> K, i: int, x: A)
    requires
        keys_unique(s, key),
        0 <= i < s.len(),
        key(x) == key(s[i]),
    ensures
        keys_unique(s.update(i, x), key),
{
    let t = s.update(i, x);
    assert forall|a: int, b: int| 0 <= a < t.len() && 0 <= b < t.len() && a != b implies key(#[trigger] t[a])
        != key(#[trigger] t[b]) by {
        assert(key(t[a]) == key(s[a]) && key(t[b]) == key(s[b]));
    }
}

proof fn lemma_remove_keeps_keys_unique<A, K>(s: Seq<A>, key: spec_fn(A) -> K, i: int)
    requires
        keys_unique(s, key),
        0 <= i < s.len(),
    ensures
        keys_unique(s.remove(i), key),
{
    let t = s.remove(i);
    assert forall|a: int, b: int| 0 <= a < t.len() && 0 <= b < t.len() && a != b implies key(#[trigger] t[a])
        != key(#[trigger] t[b]) by {
        let a2 = if a < i { a } else { a + 1 };
        let b2 = if b < i { b } else { b + 1 };
        assert(t[a] == s[a2] && t[b] == s[b2]);
    }
}

/// What identifies a border session: its window and its registration.
pub open spec fn session_key(t: WindowEventTarget) -> (usize, u64) {
    (t.target_hwnd, t.registration_id)
}

pub open spec fn hook_key(h: WindowEventHookTarget) -> usize {
    h.handle
}

proof fn lemma_put_hooks_keeps_keys_unique(s: Seq<WindowEventHookTarget>, handles: Seq<usize>, registration_id: u64, hwnd: usize)
    requires
        keys_unique(s, |h: WindowEventHookTarget| hook_key(h)),
    ensures
        keys_unique(put_hooks(s, handles, registration_id, hwnd), |h: WindowEventHookTarget| hook_key(h)),
    decreases handles.len(),
{
    if handles.len() > 0 {
        let key = |h: WindowEventHookTarget| hook_key(h);
        lemma_put_hooks_keeps_keys_unique(s, handles.drop_last(), registration_id, hwnd);
        let prev = put_hooks(s, handles.drop_last(), registration_id, hwnd);
        let x = WindowEventHookTarget { handle: handles.last(), registration_id, target_hwnd: hwnd };
        lemma_replace_key(prev, key, x);
        assert((|y: WindowEventHookTarget| key(y) != key(x)) =~= (|e: WindowEventHookTarget| e.handle != handles.last()));
    }
}

impl WindowEventRegistry {
    /// Each window follows a session at most once, and each hook belongs to one session.
    pub open spec fn wf(&self) -> bool {
        &&& keys_unique(self.targets@, |t: WindowEventTarget| session_key(t))
        &&& keys_unique(self.hook_targets@, |h: WindowEventHookTarget| hook_key(h))
    }

    pub fn new() -> (r: Self)
        ensures
            r.wf(),
            r.targets@.len() == 0,
            r.hook_targets@.len() == 0,
    {
        WindowEventRegistry { targets: Vec::new(), hook_targets: Vec::new() }
    }

    fn find_session(&self, hwnd: usize, registration_id: u64) -> (r: Option<usize>)
        ensures
            match r {
                Some(i) => session_index(self.targets@, hwnd, registration_id) == Some(i as int) && i
                    < self.targets@.len(),
                None => session_index(self.targets@, hwnd, registration_id) is None,
            },
    {
        let mut i: usize = 0;
        while i < self.targets.len()
            invariant
                i <= self.targets.len(),
                session_index(self.targets@.take(i as int), hwnd, registration_id) is None,
            decreases self.targets.len() - i,
        {
            assert(self.targets@.take(i + 1).drop_last() =~= self.targets@.take(i as int));
            if self.targets[i].target_hwnd == hwnd && self.targets[i].registration_id == registration_id {
                proof {
                    lemma_session_index_prefix(self.targets@, i + 1, hwnd, registration_id);
                }
                return Some(i);
            }
            i = i + 1;
        }
        assert(self.targets@.take(self.targets.len() as int) =~= self.targets@);
        None
    }

    fn find_hook(&self, handle: usize) -> (r: Option<WindowEventHookTarget>)
        ensures
            r == hook_lookup(self.hook_targets@, handle),
    {
        let mut i = self.hook_targets.len();
        assert(self.hook_targets@.take(i as int) =~= self.hook_targets@);
        while i > 0
            invariant
                i <= self.hook_targets.len(),
                hook_lookup(self.hook_targets@, handle) == hook_lookup(self.hook_targets@.take(i as int), handle),
            decreases i,
        {
            assert(self.hook_targets@.take(i as int).drop_last() =~= self.hook_targets@.take(i - 1));
            if self.hook_targets[i - 1].handle == handle {
                return Some(self.hook_targets[i - 1]);
            }
            i = i - 1;
        }
        None
    }

    /// Follows window `target_hwnd` for session `registration_id`, replacing an earlier entry of
    /// that session for the same window.
    pub fn register_window_event_target(
        &mut self,
        registration_id: u64,
        target_hwnd: usize,
        source_id: String,
        style: OverlayStyle,
    )
        ensures
            final(self).targets@ == old(self).targets@.filter(
                |t: WindowEventTarget| !is_session(t, target_hwnd, registration_id),
            ).push(WindowEventTarget { target_hwnd, registration_id, source_id, style, moving_or_sizing: false }),
            final(self).hook_targets@ == old(self).hook_targets@,
            old(self).wf() ==> final(self).wf(),
    {
        let ghost pred = |t: WindowEventTarget| !is_session(t, target_hwnd, registration_id);
        let ghost all = self.targets@;
        let mut kept: Vec<WindowEventTarget> = Vec::new();
        let mut i: usize = 0;
        while i < self.targets.len()
            invariant
                all == self.targets@,
                pred == (|t: WindowEventTarget| !is_session(t, target_hwnd, registration_id)),
                i <= all.len(),
                kept@ == all.take(i as int).filter(pred),
            decreases all.len() - i,
        {
            assert(all.take(i + 1) =~= all.take(i as int).push(all[i as int]));
            proof {
                all.take(i as int).lemma_filter_push(all[i as int], pred);
            }
            assert(pred(all[i as int]) == !is_session(all[i as int], target_hwnd, registration_id));
            if !(self.targets[i].target_hwnd == target_hwnd && self.targets[i].registration_id == registration_id) {
                let t = self.targets[i].clone();
                kept.push(t);
                assert(kept@ =~= all.take(i as int).filter(pred).push(all[i as int]));
            }
            i = i + 1;
        }
        assert(all.take(all.len() as int) =~= all);
        let entry = WindowEventTarget { target_hwnd, registration_id, source_id, style, moving_or_sizing: false };
        proof {
            if old(self).wf() {
                let key = |t: WindowEventTarget| session_key(t);
                lemma_replace_key(all, key, entry);
                assert((|y: WindowEventTarget| key(y) != key(entry)) =~= pred);
            }
        }
        kept.push(entry);
        self.targets = kept;
    }

    /// Installs `handles` as the hooks of session `registration_id` on window `target_hwnd`,
    /// in place of the session's earlier hooks.
    pub fn register_window_event_hook_handles(&mut self, registration_id: u64, target_hwnd: usize, handles: &Vec<usize>)
        ensures
            final(self).hook_targets@ == put_hooks(
                old(self).hook_targets@.filter(|h: WindowEventHookTarget| h.registration_id != registration_id),
                handles@,
                registration_id,
                target_hwnd,
            ),
            final(self).targets@ == old(self).targets@,
            old(self).wf() ==> final(self).wf(),
    {
        let base = hooks_not_of_registration(&self.hook_targets, registration_id);
        let ghost base_view = base@;
        let mut cur = base;
        assert(handles@.take(0) =~= Seq::<usize>::empty());
        let mut i: usize = 0;
        while i < handles.len()
            invariant
                i <= handles.len(),
                cur@ == put_hooks(base_view, handles@.take(i as int), registration_id, target_hwnd),
            decreases handles.len() - i,
        {
            let h = handles[i];
            assert(handles@.take(i + 1).drop_last() =~= handles@.take(i as int));
            assert(handles@.take(i + 1).last() == h);
            let mut next = hooks_not_of_handle(&cur, h);
            next.push(WindowEventHookTarget { handle: h, registration_id, target_hwnd });
            cur = next;
            i = i + 1;
        }
        assert(handles@.take(handles.len() as int) =~= handles@);
        proof {
            if old(self).wf() {
                let key = |h: WindowEventHookTarget| hook_key(h);
                lemma_filter_keeps_keys_unique(
                    old(self).hook_targets@,
                    key,
                    |h: WindowEventHookTarget| h.registration_id != registration_id,
                );
                lemma_put_hooks_keeps_keys_unique(base_view, handles@, registration_id, target_hwnd);
            }
        }
        self.hook_targets = cur;
    }

    /// Forgets session `registration_id` on every window, and its hooks.
    pub fn unregister_window_event_target(&mut self, registration_id: u64)
        ensures
            final(self).targets@ == old(self).targets@.filter(
                |t: WindowEventTarget| t.registration_id != registration_id,
            ),
            final(self).hook_targets@ == old(self).hook_targets@.filter(
                |h: WindowEventHookTarget| h.registration_id != registration_id,
            ),
            old(self).wf() ==> final(self).wf(),
    {
        let ghost pred = |t: WindowEventTarget| t.registration_id != registration_id;
        let ghost all = self.targets@;
        let mut kept: Vec<WindowEventTarget> = Vec::new();
        let mut i: usize = 0;
        while i < self.targets.len()
            invariant
                all == self.targets@,
                pred == (|t: WindowEventTarget| t.registration_id != registration_id),
                i <= all.len(),
                kept@ == all.take(i as int).filter(pred),
            decreases all.len() - i,
        {
            assert(all.take(i + 1) =~= all.take(i as int).push(all[i as int]));
            proof {
                all.take(i as int).lemma_filter_push(all[i as int], pred);
            }
            if self.targets[i].registration_id != registration_id {
                let t = self.targets[i].clone();
                kept.push(t);
            }
            i = i + 1;
        }
        assert(all.take(all.len() as int) =~= all);
        proof {
            if old(self).wf() {
                lemma_filter_keeps_keys_unique(all, |t: WindowEventTarget| session_key(t), pred);
                lemma_filter_keeps_keys_unique(
                    old(self).hook_targets@,
                    |h: WindowEventHookTarget| hook_key(h),
                    |h: WindowEventHookTarget| h.registration_id != registration_id,
                );
            }
        }
        self.targets = kept;
        self.hook_targets = hooks_not_of_registration(&self.hook_targets, registration_id);
    }

    /// Routes a window event: finds the session that the reporting hook belongs to, updates its
    /// state, and says what the border of that session must do.
    pub fn dispatch_window_event(&mut self, hook: usize, event: u32, hwnd: usize, object_id: i32) -> (r: Option<WindowEventDispatch>)
        ensures
            match event_session(*old(self), hook, hwnd, object_id) {
                None => r is None && final(self).targets@ == old(self).targets@ && final(self).hook_targets@ == old(self).hook_targets@,
                Some(i) => {
                    let t = old(self).targets@[i];
                    let reg = t.registration_id;
                    let moved = |m: bool| old(self).targets@.update(i, WindowEventTarget { moving_or_sizing: m, ..t });
                    if event == EVENT_SYSTEM_MOVESIZESTART {
                        &&& dispatched(r, reg, WindowEventActionKind::HideAndSuspendLocationChange, t.source_id@, t.style, hwnd)
                        &&& final(self).targets@ == moved(true)
                        &&& final(self).hook_targets@ == old(self).hook_targets@
                    } else if event == EVENT_SYSTEM_MOVESIZEEND || (event == EVENT_OBJECT_LOCATIONCHANGE && !t.moving_or_sizing) {
                        &&& dispatched(r, reg, WindowEventActionKind::DeferRefresh, t.source_id@, t.style, hwnd)
                        &&& final(self).targets@ == (if event == EVENT_SYSTEM_MOVESIZEEND { moved(false) } else { old(self).targets@ })
                        &&& final(self).hook_targets@ == old(self).hook_targets@
                    } else if event == EVENT_OBJECT_HIDE {
                        &&& dispatched(r, reg, WindowEventActionKind::Hide, t.source_id@, t.style, hwnd)
                        &&& final(self).targets@ == moved(false)
                        &&& final(self).hook_targets@ == old(self).hook_targets@
                    } else if event == EVENT_OBJECT_DESTROY {
                        &&& dispatched(r, reg, WindowEventActionKind::HideAndClear, t.source_id@, t.style, hwnd)
                        &&& final(self).targets@ == old(self).targets@.remove(i)
                        &&& final(self).hook_targets@ == old(self).hook_targets@.filter(
                            |h: WindowEventHookTarget| h.registration_id != reg,
                        )
                    } else if event == EVENT_OBJECT_SHOW && !t.moving_or_sizing {
                        &&& dispatched(r, reg, WindowEventActionKind::RefreshBounds, t.source_id@, t.style, hwnd)
                        &&& final(self).targets@ == old(self).targets@
                        &&& final(self).hook_targets@ == old(self).hook_targets@
                    } else {
                        &&& r is None
                        &&& final(self).targets@ == old(self).targets@
                        &&& final(self).hook_targets@ == old(self).hook_targets@
                    }
                },
            },
            old(self).wf() ==> final(self).wf(),
    {
        if object_id != OBJID_WINDOW {
            return None;
        }
        let hook_target = match self.find_hook(hook) {
            Some(h) => h,
            None => return None,
        };
        if hook_target.target_hwnd != hwnd {
            return None;
        }
        let index = match self.find_session(hwnd, hook_target.registration_id) {
            Some(i) => i,
            None => return None,
        };
        proof {
            lemma_session_index_bounds(self.targets@, hwnd, hook_target.registration_id);
        }
        let reg = self.targets[index].registration_id;
        if event == EVENT_SYSTEM_MOVESIZESTART {
            self.targets[index].moving_or_sizing = true;
            proof {
                if old(self).wf() {
                    lemma_update_same_key(old(self).targets@, |t: WindowEventTarget| session_key(t), index as int, self.targets@[index as int]);
                    assert(self.targets@ =~= old(self).targets@.update(index as int, self.targets@[index as int]));
                }
            }
            Some(WindowEventDispatch {
                registration_id: reg,
                action: WindowEventAction::HideAndSuspendLocationChange { registration_id: reg },
            })
        } else if event == EVENT_SYSTEM_MOVESIZEEND {
            self.targets[index].moving_or_sizing = false;
            proof {
                if old(self).wf() {
                    lemma_update_same_key(old(self).targets@, |t: WindowEventTarget| session_key(t), index as int, self.targets@[index as int]);
                    assert(self.targets@ =~= old(self).targets@.update(index as int, self.targets@[index as int]));
                }
            }
            Some(WindowEventDispatch {
                registration_id: reg,
                action: WindowEventAction::DeferRefresh {
                    registration_id: reg,
                    source_id: self.targets[index].source_id.clone(),
                    style: self.targets[index].style,
                    target_hwnd: hwnd,
                },
            })
        } else if event == EVENT_OBJECT_LOCATIONCHANGE {
            if self.targets[index].moving_or_sizing {
                None
            } else {
                Some(WindowEventDispatch {
                    registration_id: reg,
                    action: WindowEventAction::DeferRefresh {
                        registration_id: reg,
                        source_id: self.targets[index].source_id.clone(),
                        style: self.targets[index].style,
                        target_hwnd: hwnd,
                    },
                })
            }
        } else if event == EVENT_OBJECT_HIDE {
            self.targets[index].moving_or_sizing = false;
            proof {
                if old(self).wf() {
                    lemma_update_same_key(old(self).targets@, |t: WindowEventTarget| session_key(t), index as int, self.targets@[index as int]);
                    assert(self.targets@ =~= old(self).targets@.update(index as int, self.targets@[index as int]));
                }
            }
            Some(WindowEventDispatch { registration_id: reg, action: WindowEventAction::Hide })
        } else if event == EVENT_OBJECT_DESTROY {
            let _removed = self.targets.remove(index);
            self.hook_targets = hooks_not_of_registration(&self.hook_targets, hook_target.registration_id);
            proof {
                if old(self).wf() {
                    lemma_remove_keeps_keys_unique(old(self).targets@, |t: WindowEventTarget| session_key(t), index as int);
                    lemma_filter_keeps_keys_unique(
                        old(self).hook_targets@,
                        |h: WindowEventHookTarget| hook_key(h),
                        |h: WindowEventHookTarget| h.registration_id != hook_target.registration_id,
                    );
                }
            }
            Some(WindowEventDispatch {
                registration_id: reg,
                action: WindowEventAction::HideAndClear { registration_id: reg },
            })
        } else if event == EVENT_OBJECT_SHOW {
            if self.targets[index].moving_or_sizing {
                None
            } else {
                Some(WindowEventDispatch {
                    registration_id: reg,
                    action: WindowEventAction::RefreshBounds {
                        registration_id: None,
                        source_id: self.targets[index].source_id.clone(),
                        style: self.targets[index].style,
                        target_hwnd: hwnd,
                    },
                })
            }
        } else {
            None
        }
    }
}

fn hooks_not_of_registration(v: &Vec<WindowEventHookTarget>, registration_id: u64) -> (r: Vec<WindowEventHookTarget>)
    ensures
        r@ == v@.filter(|h: WindowEventHookTarget| h.registration_id != registration_id),
{
    let ghost pred = |h: WindowEventHookTarget| h.registration_id != registration_id;
    let mut r: Vec<WindowEventHookTarget> = Vec::new();
    let mut i: usize = 0;
    while i < v.len()
        invariant
            pred == (|h: WindowEventHookTarget| h.registration_id != registration_id),
            i <= v.len(),
            r@ == v@.take(i as int).filter(pred),
        decreases v.len() - i,
    {
        assert(v@.take(i + 1) =~= v@.take(i as int).push(v@[i as int]));
        proof {
            v@.take(i as int).lemma_filter_push(v@[i as int], pred);
        }
        if v[i].registration_id != registration_id {
            r.push(v[i]);
        }
        i = i + 1;
    }
    assert(v@.take(v.len() as int) =~= v@);
    r
}

fn hooks_not_of_handle(v: &Vec<WindowEventHookTarget>, handle: usize) -> (r: Vec<WindowEventHookTarget>)
    ensures
        r@ == v@.filter(|h: WindowEventHookTarget| h.handle != handle),
{
    let ghost pred = |h: WindowEventHookTarget| h.handle != handle;
    let mut r: Vec<WindowEventHookTarget> = Vec::new();
    let mut i: usize = 0;
    while i < v.len()
        invariant
            pred == (|h: WindowEventHookTarget| h.handle != handle),
            i <= v.len(),
            r@ == v@.take(i as int).filter(pred),
        decreases v.len() - i,
    {
        assert(v@.take(i + 1) =~= v@.take(i as int).push(v@[i as int]));
        proof {
            v@.take(i as int).lemma_filter_push(v@[i as int], pred);
        }
        if v[i].handle != handle {
            r.push(v[i]);
        }
        i = i + 1;
    }
    assert(v@.take(v.len() as int) =~= v@);
    r
}

/// The commands that carry out `action`. `refreshed_bounds` is the target window's current
/// bounds, looked up for a bounds refresh; where it is absent the border is hidden.
pub fn commands_for_action(action: &WindowEventAction, refreshed_bounds: Option<OverlayRect>) -> (r: Vec<WindowEventCommand>)
    ensures
        match *action {
            WindowEventAction::Hide => r@.len() == 1 && r@[0] is HideForWindowEvent,
            WindowEventAction::HideAndSuspendLocationChange { registration_id } => r@.len() == 2
                && r@[0] is HideForWindowEvent
                && r@[1] == (WindowEventCommand::SuspendWindowLocationChangeHook { registration_id, clear_deferred_refresh: true }),
            WindowEventAction::HideAndClear { registration_id } => r@.len() == 2 && r@[0] is HideForWindowEvent
                && r@[1] == (WindowEventCommand::ClearWindowEventTargetForWindowEvent { registration_id }),
            WindowEventAction::RefreshBounds { registration_id, source_id, style, target_hwnd } => {
                &&& r@.len() == (if registration_id is Some { 2int } else { 1int })
                &&& match refreshed_bounds {
                    Some(rect) => r@[0] == (WindowEventCommand::ShowRectForWindowEvent {
                        rect,
                        style,
                        placement: OverlayPlacement { owner_hwnd: Some(target_hwnd), topmost: false },
                    }),
                    None => r@[0] is HideForWindowEvent,
                }
                &&& registration_id matches Some(id) ==> r@[1] == (WindowEventCommand::ResumeWindowLocationChangeHook { registration_id: id })
            },
            WindowEventAction::DeferRefresh { registration_id, source_id, style, target_hwnd } => {
                &&& r@.len() == 2
                &&& r@[0] matches WindowEventCommand::DeferWindowEventRefresh { registration_id: id, source_id: s, style: st, target_hwnd: h }
                    && id == registration_id && s@ == source_id@ && st == style && h == target_hwnd
                &&& r@[1] == (WindowEventCommand::SuspendWindowLocationChangeHook { registration_id, clear_deferred_refresh: false })
            },
        },
{
    let mut r: Vec<WindowEventCommand> = Vec::new();
    match action {
        WindowEventAction::Hide => {
            r.push(WindowEventCommand::HideForWindowEvent);
        },
        WindowEventAction::HideAndSuspendLocationChange { registration_id } => {
            r.push(WindowEventCommand::HideForWindowEvent);
            r.push(
                WindowEventCommand::SuspendWindowLocationChangeHook {
                    registration_id: *registration_id,
                    clear_deferred_refresh: true,
                },
            );
        },
        WindowEventAction::HideAndClear { registration_id } => {
            r.push(WindowEventCommand::HideForWindowEvent);
            r.push(WindowEventCommand::ClearWindowEventTargetForWindowEvent { registration_id: *registration_id });
        },
        WindowEventAction::RefreshBounds { registration_id, source_id: _, style, target_hwnd } => {
            match refreshed_bounds {
                Some(rect) => r.push(
                    WindowEventCommand::ShowRectForWindowEvent {
                        rect,
                        style: *style,
                        placement: OverlayPlacement::for_window(*target_hwnd),
                    },
                ),
                None => r.push(WindowEventCommand::HideForWindowEvent),
            }
            match registration_id {
                Some(id) => r.push(WindowEventCommand::ResumeWindowLocationChangeHook { registration_id: *id }),
                None => {},
            }
        },
        WindowEventAction::DeferRefresh { registration_id, source_id, style, target_hwnd } => {
            r.push(
                WindowEventCommand::DeferWindowEventRefresh {
                    registration_id: *registration_id,
                    source_id: source_id.clone(),
                    style: *style,
                    target_hwnd: *target_hwnd,
                },
            );
            r.push(
                WindowEventCommand::SuspendWindowLocationChangeHook {
                    registration_id: *registration_id,
                    clear_deferred_refresh: false,
                },
            );
        },
    }
    r
}

/// How long a border refresh waits after a window event, in milliseconds.
pub const WINDOW_LOCATION_CHANGE_REFRESH_DELAY_MS: u64 = 160;

/// A border refresh that waits until the window has settled. Times are milliseconds on a
/// monotonic clock.
#[derive(Debug)]
pub struct PendingWindowEventRefresh {
    pub registration_id: u64,
    pub source_id: String,
    pub style: OverlayStyle,
    pub target_hwnd: usize,
    pub due_at_ms: u64,
}

impl Clone for PendingWindowEventRefresh {
    fn clone(&self) -> (r: Self)
        ensures
            r == *self,
    {
        PendingWindowEventRefresh {
            registration_id: self.registration_id,
            source_id: self.source_id.clone(),
            style: self.style,
            target_hwnd: self.target_hwnd,
            due_at_ms: self.due_at_ms,
        }
    }
}

/// A waiting refresh may run once it is due and no pointer button is held down.
pub fn deferred_refresh_is_ready(now_ms: u64, due_at_ms: u64, pointer_button_down: bool) -> (b: bool)
    ensures
        b == (!pointer_button_down && due_at_ms <= now_ms),
{
    !pointer_button_down && due_at_ms <= now_ms
}

/// The waiting refreshes of the border thread, at most one per session.
#[derive(Debug)]
pub struct OverlayThread {
    pub pending_window_event_refreshes: Vec<PendingWindowEventRefresh>,
}

/// The waiting refresh of session `registration_id`, the latest where there are several.
pub open spec fn pending_lookup(s: Seq<PendingWindowEventRefresh>, registration_id: u64) -> Option<PendingWindowEventRefresh>
    decreases s.len(),
{
    if s.len() == 0 {
        None
    } else if s.last().registration_id == registration_id {
        Some(s.last())
    } else {
        pending_lookup(s.drop_last(), registration_id)
    }
}

pub open spec fn not_of(registration_id: u64) -> spec_fn(PendingWindowEventRefresh) -> bool {
    |p: PendingWindowEventRefresh| p.registration_id != registration_id
}

/// The earliest due time of `s`, if any.
pub open spec fn earliest_due(s: Seq<PendingWindowEventRefresh>) -> Option<u64>
    decreases s.len(),
{
    if s.len() == 0 {
        None
    } else {
        match earliest_due(s.drop_last()) {
            None => Some(s.last().due_at_ms),
            Some(d) => Some(if s.last().due_at_ms < d { s.last().due_at_ms } else { d }),
        }
    }
}

/// How long the border thread may sleep before the earliest waiting refresh: at least one
/// millisecond, at most `u32::MAX - 1`; `u32::MAX` when nothing waits.
pub open spec fn refresh_timeout_spec(s: Seq<PendingWindowEventRefresh>, now_ms: u64) -> u32 {
    match earliest_due(s) {
        None => u32::MAX,
        Some(due) => {
            let remaining: int = if due > now_ms { due - now_ms } else { 0 };
            let at_least_one: int = if remaining < 1 { 1 } else { remaining };
            if at_least_one > u32::MAX { (u32::MAX - 1) as u32 } else { at_least_one as u32 }
        },
    }
}

/// A waiting refresh that the pointer holds back is moved a delay past `now_ms` once due.
pub open spec fn postponed(p: PendingWindowEventRefresh, now_ms: u64) -> PendingWindowEventRefresh {
    if p.due_at_ms <= now_ms {
        PendingWindowEventRefresh { due_at_ms: (now_ms + WINDOW_LOCATION_CHANGE_REFRESH_DELAY_MS) as u64, ..p }
    } else {
        p
    }
}

pub open spec fn pending_key(p: PendingWindowEventRefresh) -> u64 {
    p.registration_id
}

impl OverlayThread {
    /// At most one refresh waits for each session.
    pub open spec fn wf(&self) -> bool {
        keys_unique(self.pending_window_event_refreshes@, |p: PendingWindowEventRefresh| pending_key(p))
    }

    pub fn new() -> (t: Self)
        ensures
            t.wf(),
            t.pending_window_event_refreshes@.len() == 0,
    {
        OverlayThread { pending_window_event_refreshes: Vec::new() }
    }

    /// The refresh that waits for session `registration_id`.
    pub fn pending_refresh(&self, registration_id: u64) -> (r: Option<&PendingWindowEventRefresh>)
        ensures
            match r {
                Some(p) => pending_lookup(self.pending_window_event_refreshes@, registration_id) == Some(*p),
                None => pending_lookup(self.pending_window_event_refreshes@, registration_id) is None,
            },
    {
        let mut i = self.pending_window_event_refreshes.len();
        assert(self.pending_window_event_refreshes@.take(i as int) =~= self.pending_window_event_refreshes@);
        while i > 0
            invariant
                i <= self.pending_window_event_refreshes.len(),
                pending_lookup(self.pending_window_event_refreshes@, registration_id) == pending_lookup(
                    self.pending_window_event_refreshes@.take(i as int),
                    registration_id,
                ),
            decreases i,
        {
            assert(self.pending_window_event_refreshes@.take(i as int).drop_last()
                =~= self.pending_window_event_refreshes@.take(i - 1));
            if self.pending_window_event_refreshes[i - 1].registration_id == registration_id {
                return Some(&self.pending_window_event_refreshes[i - 1]);
            }
            i = i - 1;
        }
        None
    }

    fn remove_pending(&mut self, registration_id: u64)
        ensures
            final(self).pending_window_event_refreshes@ == old(self).pending_window_event_refreshes@.filter(not_of(registration_id)),
    {
        let ghost pred = not_of(registration_id);
        let ghost all = self.pending_window_event_refreshes@;
        let mut kept: Vec<PendingWindowEventRefresh> = Vec::new();
        let mut i: usize = 0;
        while i < self.pending_window_event_refreshes.len()
            invariant
                all == self.pending_window_event_refreshes@,
                pred == not_of(registration_id),
                i <= all.len(),
                kept@ == all.take(i as int).filter(pred),
            decreases all.len() - i,
        {
            assert(all.take(i + 1) =~= all.take(i as int).push(all[i as int]));
            proof {
                all.take(i as int).lemma_filter_push(all[i as int], pred);
            }
            if self.pending_window_event_refreshes[i].registration_id != registration_id {
                let p = self.pending_window_event_refreshes[i].clone();
                kept.push(p);
            }
            i = i + 1;
        }
        assert(all.take(all.len() as int) =~= all);
        self.pending_window_event_refreshes = kept;
    }

    /// Puts off refreshing session `registration_id` for the refresh delay, replacing a refresh
    /// that already waits for it.
    pub fn defer_window_event_refresh(
        &mut self,
        registration_id: u64,
        source_id: String,
        style: OverlayStyle,
        target_hwnd: usize,
        now_ms: u64,
    )
        requires
            now_ms <= u64::MAX - WINDOW_LOCATION_CHANGE_REFRESH_DELAY_MS,
        ensures
            final(self).pending_window_event_refreshes@ == old(self).pending_window_event_refreshes@.filter(
                not_of(registration_id),
            ).push(
                PendingWindowEventRefresh {
                    registration_id,
                    source_id,
                    style,
                    target_hwnd,
                    due_at_ms: (now_ms + WINDOW_LOCATION_CHANGE_REFRESH_DELAY_MS) as u64,
                },
            ),
            old(self).wf() ==> final(self).wf(),
    {
        self.remove_pending(registration_id);
        let refresh = PendingWindowEventRefresh {
            registration_id,
            source_id,
            style,
            target_hwnd,
            due_at_ms: now_ms + WINDOW_LOCATION_CHANGE_REFRESH_DELAY_MS,
        };
        proof {
            if old(self).wf() {
                let key = |p: PendingWindowEventRefresh| pending_key(p);
                lemma_replace_key(old(self).pending_window_event_refreshes@, key, refresh);
                assert((|y: PendingWindowEventRefresh| key(y) != key(refresh)) =~= not_of(registration_id));
            }
        }
        self.pending_window_event_refreshes.push(refresh);
    }

    /// Location monitoring of a session pauses; its waiting refresh is dropped when asked.
    pub fn suspend_window_location_change_hook(&mut self, registration_id: u64, clear_deferred_refresh: bool)
        ensures
            final(self).pending_window_event_refreshes@ == (if clear_deferred_refresh {
                old(self).pending_window_event_refreshes@.filter(not_of(registration_id))
            } else {
                old(self).pending_window_event_refreshes@
            }),
            old(self).wf() ==> final(self).wf(),
    {
        if clear_deferred_refresh {
            self.remove_pending(registration_id);
            proof {
                if old(self).wf() {
                    lemma_filter_keeps_keys_unique(
                        old(self).pending_window_event_refreshes@,
                        |p: PendingWindowEventRefresh| pending_key(p),
                        not_of(registration_id),
                    );
                }
            }
        }
    }

    /// A session ends: its waiting refresh is dropped.
    pub fn clear_window_event_target(&mut self, registration_id: u64)
        ensures
            final(self).pending_window_event_refreshes@ == old(self).pending_window_event_refreshes@.filter(
                not_of(registration_id),
            ),
            old(self).wf() ==> final(self).wf(),
    {
        self.remove_pending(registration_id);
        proof {
            if old(self).wf() {
                lemma_filter_keeps_keys_unique(
                    old(self).pending_window_event_refreshes@,
                    |p: PendingWindowEventRefresh| pending_key(p),
                    not_of(registration_id),
                );
            }
        }
    }

    /// How long to wait for the next refresh, in milliseconds.
    pub fn next_refresh_timeout_ms(&self, now_ms: u64) -> (t: u32)
        ensures
            t == refresh_timeout_spec(self.pending_window_event_refreshes@, now_ms),
    {
        let s = &self.pending_window_event_refreshes;
        let mut earliest: Option<u64> = None;
        let mut i: usize = 0;
        while i < s.len()
            invariant
                i <= s.len(),
                earliest == earliest_due(s@.take(i as int)),
            decreases s.len() - i,
        {
            assert(s@.take(i + 1).drop_last() =~= s@.take(i as int));
            let d = s[i].due_at_ms;
            earliest = match earliest {
                None => Some(d),
                Some(e) => Some(if d < e { d } else { e }),
            };
            i = i + 1;
        }
        assert(s@.take(s.len() as int) =~= s@);
        match earliest {
            None => u32::MAX,
            Some(due) => {
                let remaining: u64 = if due > now_ms { due - now_ms } else { 0 };
                let at_least_one: u64 = if remaining < 1 { 1 } else { remaining };
                if at_least_one > u32::MAX as u64 {
                    u32::MAX - 1
                } else {
                    at_least_one as u32
                }
            },
        }
    }

    /// Takes out the refreshes that may run now, in the order they wait. While a pointer button
    /// is held down none may run, and those already due are put off by the refresh delay.
    pub fn refresh_due_window_event_targets(&mut self, now_ms: u64, pointer_button_down: bool) -> (due: Vec<
        PendingWindowEventRefresh,
    >)
        requires
            now_ms <= u64::MAX - WINDOW_LOCATION_CHANGE_REFRESH_DELAY_MS,
        ensures
            pointer_button_down ==> due@.len() == 0 && final(self).pending_window_event_refreshes@ == old(
                self,
            ).pending_window_event_refreshes@.map_values(|p: PendingWindowEventRefresh| postponed(p, now_ms)),
            !pointer_button_down ==> due@ == old(self).pending_window_event_refreshes@.filter(
                |p: PendingWindowEventRefresh| p.due_at_ms <= now_ms,
            ) && final(self).pending_window_event_refreshes@ == old(self).pending_window_event_refreshes@.filter(
                |p: PendingWindowEventRefresh| !(p.due_at_ms <= now_ms),
            ),
            old(self).wf() ==> final(self).wf(),
    {
        let ghost all = self.pending_window_event_refreshes@;
        let ghost ready = |p: PendingWindowEventRefresh| p.due_at_ms <= now_ms;
        let ghost waiting = |p: PendingWindowEventRefresh| !(p.due_at_ms <= now_ms);
        let ghost later = |p: PendingWindowEventRefresh| postponed(p, now_ms);
        let mut due: Vec<PendingWindowEventRefresh> = Vec::new();
        let mut kept: Vec<PendingWindowEventRefresh> = Vec::new();
        let mut i: usize = 0;
        while i < self.pending_window_event_refreshes.len()
            invariant
                all == self.pending_window_event_refreshes@,
                ready == (|p: PendingWindowEventRefresh| p.due_at_ms <= now_ms),
                waiting == (|p: PendingWindowEventRefresh| !(p.due_at_ms <= now_ms)),
                later == (|p: PendingWindowEventRefresh| postponed(p, now_ms)),
                now_ms <= u64::MAX - WINDOW_LOCATION_CHANGE_REFRESH_DELAY_MS,
                i <= all.len(),
                pointer_button_down ==> due@.len() == 0 && kept@ == all.take(i as int).map_values(later),
                !pointer_button_down ==> due@ == all.take(i as int).filter(ready) && kept@ == all.take(i as int).filter(waiting),
            decreases all.len() - i,
        {
            assert(all.take(i + 1) =~= all.take(i as int).push(all[i as int]));
            proof {
                all.take(i as int).lemma_filter_push(all[i as int], ready);
                all.take(i as int).lemma_filter_push(all[i as int], waiting);
            }
            let mut p = self.pending_window_event_refreshes[i].clone();
            if pointer_button_down {
                if p.due_at_ms <= now_ms {
                    p.due_at_ms = now_ms + WINDOW_LOCATION_CHANGE_REFRESH_DELAY_MS;
                }
                kept.push(p);
                assert(kept@ =~= all.take(i + 1).map_values(later));
            } else if p.due_at_ms <= now_ms {
                due.push(p);
            } else {
                kept.push(p);
            }
            i = i + 1;
        }
        assert(all.take(all.len() as int) =~= all);
        proof {
            if old(self).wf() {
                let key = |p: PendingWindowEventRefresh| pending_key(p);
                if pointer_button_down {
                    let m = all.map_values(later);
                    assert forall|a: int, b: int| 0 <= a < m.len() && 0 <= b < m.len() && a != b implies key(
                        #[trigger] m[a],
                    ) != key(#[trigger] m[b]) by {
                        assert(key(m[a]) == key(all[a]) && key(m[b]) == key(all[b]));
                    }
                } else {
                    lemma_filter_keeps_keys_unique(all, key, waiting);
                }
            }
        }
        self.pending_window_event_refreshes = kept;
        due
    }
}

proof fn lemma_hook_lookup_member(s: Seq<WindowEventHookTarget>, handle: usize)
    ensures
        match hook_lookup(s, handle) {
            Some(h) => s.contains(h) && h.handle == handle,
            None => true,
        },
    decreases s.len(),
{
    if s.len() > 0 {
        lemma_hook_lookup_member(s.drop_last(), handle);
        if s.last().handle != handle {
            if let Some(h) = hook_lookup(s.drop_last(), handle) {
                let k = choose|k: int| 0 <= k < s.drop_last().len() && s.drop_last()[k] == h;
                assert(s[k] == h);
            }
        } else {
            assert(s[s.len() - 1] == s.last());
        }
    }
}

/// Once a session is unregistered, or its window destroyed, no window event reaches it: every
/// event is routed to another session or to none.
pub proof fn lemma_removed_session_gets_no_events(
    after: WindowEventRegistry,
    before_hooks: Seq<WindowEventHookTarget>,
    registration_id: u64,
    hook: usize,
    hwnd: usize,
    object_id: i32,
)
    requires
        after.hook_targets@ == before_hooks.filter(|h: WindowEventHookTarget| h.registration_id != registration_id),
    ensures
        match event_session(after, hook, hwnd, object_id) {
            Some(i) => 0 <= i < after.targets@.len() && after.targets@[i].registration_id != registration_id,
            None => true,
        },
{
    let pred = |h: WindowEventHookTarget| h.registration_id != registration_id;
    lemma_hook_lookup_member(after.hook_targets@, hook);
    if let Some(h) = hook_lookup(after.hook_targets@, hook) {
        broadcast use vstd::seq_lib::group_filter_ensures;

        let k = choose|k: int| 0 <= k < after.hook_targets@.len() && after.hook_targets@[k] == h;
        assert(pred(after.hook_targets@[k]));
        lemma_session_index_bounds(after.targets@, hwnd, h.registration_id);
    }
}

proof fn lemma_pending_lookup_member(s: Seq<PendingWindowEventRefresh>, registration_id: u64)
    ensures
        match pending_lookup(s, registration_id) {
            Some(p) => s.contains(p) && p.registration_id == registration_id,
            None => true,
        },
    decreases s.len(),
{
    if s.len() > 0 {
        lemma_pending_lookup_member(s.drop_last(), registration_id);
        if s.last().registration_id != registration_id {
            if let Some(p) = pending_lookup(s.drop_last(), registration_id) {
                let k = choose|k: int| 0 <= k < s.drop_last().len() && s.drop_last()[k] == p;
                assert(s[k] == p);
            }
        } else {
            assert(s[s.len() - 1] == s.last());
        }
    }
}

/// A deferred refresh is the one that waits for its session, until the session is cleared or
/// its refresh dropped; then none waits for it.
pub proof fn lemma_deferred_refresh_waits_until_cleared(
    s: Seq<PendingWindowEventRefresh>,
    refresh: PendingWindowEventRefresh,
)
    ensures
        pending_lookup(s.filter(not_of(refresh.registration_id)).push(refresh), refresh.registration_id) == Some(
            refresh,
        ),
        pending_lookup(s.filter(not_of(refresh.registration_id)), refresh.registration_id) is None,
{
    let f = s.filter(not_of(refresh.registration_id));
    lemma_pending_lookup_member(f, refresh.registration_id);
    broadcast use vstd::seq_lib::group_filter_ensures;

    if let Some(p) = pending_lookup(f, refresh.registration_id) {
        let k = choose|k: int| 0 <= k < f.len() && f[k] == p;
        assert(not_of(refresh.registration_id)(f[k]));
    }
    assert(f.push(refresh).last() == refresh);
}

} // verus!
