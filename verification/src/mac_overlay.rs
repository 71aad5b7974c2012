use vstd::prelude::*;

use crate::capture_models::{CaptureErrorCode, CaptureSourceKind, Error as CaptureError};
use crate::overlay::OverlayTarget;
use crate::text::{chars_of, concat_chars, parse_unsigned, parse_unsigned_spec, slice_chars, starts_with, string_of, has_prefix};

verus! {

/// What the window server reports of the shared window.
#[derive(Debug, Clone, Copy, PartialEq, Eq, Structural)]
pub struct WindowSnapshot {
    pub id: u32,
    pub layer: i32,
    pub order: usize,
    pub on_screen: bool,
    pub minimized: bool,
}

#[derive(Debug, Clone, Copy, PartialEq, Eq, Structural)]
pub enum OverlayDecision {
    Show { target_id: u32, level: i32, target_order: usize },
    Hide,
}

/// Show the border at the target's layer when the target is on screen, not minimised, and the
/// system can order windows relative to it; hide it otherwise.
pub fn decide_window_overlay(target: &WindowSnapshot, relative_order_supported: bool) -> (d: OverlayDecision)
    ensures
        d == (if !target.on_screen || target.minimized || !relative_order_supported {
            OverlayDecision::Hide
        } else {
            OverlayDecision::Show { target_id: target.id, level: target.layer, target_order: target.order }
        }),
{
    if !target.on_screen || target.minimized || !relative_order_supported {
        return OverlayDecision::Hide;
    }
    OverlayDecision::Show { target_id: target.id, level: target.layer, target_order: target.order }
}

/// `i` is where `x` first occurs in `s`.
pub open spec fn first_position(s: Seq<u32>, x: u32, i: int) -> bool {
    0 <= i < s.len() && s[i] == x && forall|j: int| 0 <= j < i ==> s[j] != x
}

/// How many times `x` occurs in `s`.
pub open spec fn count_of(s: Seq<u32>, x: u32) -> nat
    decreases s.len(),
{
    if s.len() == 0 {
        0
    } else {
        count_of(s.drop_last(), x) + if s.last() == x {
            1nat
        } else {
            0nat
        }
    }
}

/// The front-to-back window list shows the target, and, when panels are visible, directly in
/// front of its first occurrence a run as long as the panel list in which each panel occurs
/// exactly once.
pub open spec fn lightweight_order_holds(window_ids: Seq<u32>, target_id: u32, panels: Seq<u32>) -> bool {
    if panels.len() == 0 {
        window_ids.contains(target_id)
    } else {
        exists|t: int|
            #[trigger] first_position(window_ids, target_id, t) && t >= panels.len() && forall|k: int|
                0 <= k < panels.len() ==> count_of(window_ids.subrange(t - panels.len(), t), #[trigger] panels[k])
                    == 1
    }
}

fn position_of(s: &Vec<u32>, x: u32) -> (r: Option<usize>)
    ensures
        match r {
            Some(i) => first_position(s@, x, i as int),
            None => !s@.contains(x),
        },
{
    let mut i: usize = 0;
    while i < s.len()
        invariant
            i <= s.len(),
            forall|j: int| 0 <= j < i ==> s@[j] != x,
        decreases s.len() - i,
    {
        if s[i] == x {
            return Some(i);
        }
        i = i + 1;
    }
    None
}

fn count_in(s: &Vec<u32>, start: usize, end: usize, x: u32) -> (n: usize)
    requires
        start <= end <= s.len(),
    ensures
        n == count_of(s@.subrange(start as int, end as int), x),
{
    let mut n: usize = 0;
    let mut i = start;
    while i < end
        invariant
            start <= i <= end <= s.len(),
            n == count_of(s@.subrange(start as int, i as int), x),
            n <= i - start,
        decreases end - i,
    {
        assert(s@.subrange(start as int, i + 1).drop_last() =~= s@.subrange(start as int, i as int));
        if s[i] == x {
            n = n + 1;
        }
        i = i + 1;
    }
    n
}

/// Whether the window list still has the panels directly in front of the target.
pub fn verify_lightweight_order(window_ids: &Vec<u32>, target_id: u32, visible_panel_ids: &Vec<u32>) -> (b: bool)
    ensures
        b == lightweight_order_holds(window_ids@, target_id, visible_panel_ids@),
{
    if visible_panel_ids.len() == 0 {
        return match position_of(window_ids, target_id) {
            Some(i) => {
                assert(window_ids@[i as int] == target_id);
                true
            },
            None => false,
        };
    }
    let target_index = match position_of(window_ids, target_id) {
        Some(i) => i,
        None => {
            assert forall|t: int| !first_position(window_ids@, target_id, t) by {
                if first_position(window_ids@, target_id, t) {
                    assert(window_ids@.contains(target_id));
                }
            }
            return false;
        },
    };
    proof {
        assert forall|t: int| #[trigger] first_position(window_ids@, target_id, t) implies t == target_index by {
            if t < target_index {
                assert(window_ids@[t] != target_id);
            } else if t > target_index {
                assert(window_ids@[target_index as int] != target_id);
            }
        }
    }
    if target_index < visible_panel_ids.len() {
        return false;
    }
    let panel_start = target_index - visible_panel_ids.len();
    let mut k: usize = 0;
    while k < visible_panel_ids.len()
        invariant
            k <= visible_panel_ids.len(),
            panel_start + visible_panel_ids.len() == target_index,
            target_index < window_ids.len(),
            first_position(window_ids@, target_id, target_index as int),
            forall|t: int| #[trigger] first_position(window_ids@, target_id, t) ==> t == target_index,
            forall|j: int|
                0 <= j < k ==> count_of(window_ids@.subrange(panel_start as int, target_index as int), #[trigger] visible_panel_ids@[j])
                    == 1,
        decreases visible_panel_ids.len() - k,
    {
        let n = count_in(window_ids, panel_start, target_index, visible_panel_ids[k]);
        if n != 1 {
            assert(!lightweight_order_holds(window_ids@, target_id, visible_panel_ids@)) by {
                if lightweight_order_holds(window_ids@, target_id, visible_panel_ids@) {
                    let t = choose|t: int|
                        #[trigger] first_position(window_ids@, target_id, t) && t >= visible_panel_ids@.len() && forall|
                            k: int,
                        |
                            0 <= k < visible_panel_ids@.len() ==> count_of(
                                window_ids@.subrange(t - visible_panel_ids@.len(), t),
                                #[trigger] visible_panel_ids@[k],
                            ) == 1;
                    assert(t == target_index);
                    assert(count_of(window_ids@.subrange(t - visible_panel_ids@.len(), t), visible_panel_ids@[k as int]) == 1);
                }
            }
            return false;
        }
        k = k + 1;
    }
    assert(first_position(window_ids@, target_id, target_index as int));
    true
}

/// What a window of the front-to-back list is to the border: the shared window, one of the
/// border's panels, or another window.
#[derive(Debug, Clone, Copy, PartialEq, Eq, Structural)]
pub enum OrderedWindowKind {
    Target,
    Panel,
    Other,
}

/// One window of the front-to-back list, as the order checks read it: its id, layer, owning
/// process and what it is. (Its frame, a floating-point rectangle, is kept beside it by the
/// caller where the corner checks need it.)
#[derive(Debug, Clone, Copy, PartialEq, Eq, Structural)]
pub struct OrderedWindow {
    pub id: u32,
    pub layer: i32,
    pub owner_pid: Option<u32>,
    pub kind: OrderedWindowKind,
}

impl OrderedWindow {
    pub fn target(id: u32) -> (w: Self)
        ensures
            w == (OrderedWindow { id, layer: 0, owner_pid: None, kind: OrderedWindowKind::Target }),
    {
        Self::target_at_layer(id, 0)
    }

    pub fn target_at_layer(id: u32, layer: i32) -> (w: Self)
        ensures
            w == (OrderedWindow { id, layer, owner_pid: None, kind: OrderedWindowKind::Target }),
    {
        OrderedWindow { id, layer, owner_pid: None, kind: OrderedWindowKind::Target }
    }

    pub fn panel(id: u32) -> (w: Self)
        ensures
            w == (OrderedWindow { id, layer: 0, owner_pid: None, kind: OrderedWindowKind::Panel }),
    {
        Self::panel_at_layer(id, 0)
    }

    pub fn panel_at_layer(id: u32, layer: i32) -> (w: Self)
        ensures
            w == (OrderedWindow { id, layer, owner_pid: None, kind: OrderedWindowKind::Panel }),
    {
        OrderedWindow { id, layer, owner_pid: None, kind: OrderedWindowKind::Panel }
    }

    pub fn other(id: u32) -> (w: Self)
        ensures
            w == (OrderedWindow { id, layer: 0, owner_pid: None, kind: OrderedWindowKind::Other }),
    {
        Self::other_at_layer(id, 0)
    }

    pub fn other_at_layer(id: u32, layer: i32) -> (w: Self)
        ensures
            w == (OrderedWindow { id, layer, owner_pid: None, kind: OrderedWindowKind::Other }),
    {
        OrderedWindow { id, layer, owner_pid: None, kind: OrderedWindowKind::Other }
    }

    pub fn with_owner_pid(self, owner_pid: u32) -> (w: Self)
        ensures
            w == (OrderedWindow { owner_pid: Some(owner_pid), ..self }),
    {
        OrderedWindow { owner_pid: Some(owner_pid), ..self }
    }
}

/// A row of the window list as the order checks see it: the shared window, one of the
/// border's panels, or another window, with its layer and owning process.
pub fn ordered_window_from_fields(id: u32, layer: i32, owner_pid: u32, target_id: u32, panel_ids: &Vec<u32>) -> (w: OrderedWindow)
    ensures
        w == (OrderedWindow {
            id,
            layer,
            owner_pid: Some(owner_pid),
            kind: if id == target_id {
                OrderedWindowKind::Target
            } else if panel_ids@.contains(id) {
                OrderedWindowKind::Panel
            } else {
                OrderedWindowKind::Other
            },
        }),
{
    let window = if id == target_id {
        OrderedWindow::target_at_layer(id, layer)
    } else if contains_id(panel_ids, id) {
        OrderedWindow::panel_at_layer(id, layer)
    } else {
        OrderedWindow::other_at_layer(id, layer)
    };
    window.with_owner_pid(owner_pid)
}

/// `t` is where the shared window `target_id` first occurs in `w`.
pub open spec fn first_target(w: Seq<OrderedWindow>, target_id: u32, t: int) -> bool {
    &&& 0 <= t < w.len()
    &&& w[t].id == target_id && w[t].kind == OrderedWindowKind::Target
    &&& forall|j: int| 0 <= j < t ==> !(#[trigger] w[j].id == target_id && w[j].kind == OrderedWindowKind::Target)
}

/// The panels sit directly in front of the shared window, each once, at its layer, and no
/// panel of the list is further in front.
pub open spec fn relative_order_holds(w: Seq<OrderedWindow>, target_id: u32, panel_ids: Seq<u32>) -> bool {
    &&& panel_ids.len() > 0
    &&& exists|t: int|
        #[trigger] first_target(w, target_id, t) && t >= panel_ids.len() && relative_order_at(w, t, panel_ids)
}

/// The order checks with the shared window at `t`.
pub open spec fn relative_order_at(w: Seq<OrderedWindow>, t: int, panel_ids: Seq<u32>) -> bool {
    let start = t - panel_ids.len();
    &&& forall|i: int|
        start <= i < t ==> (#[trigger] w[i]).kind == OrderedWindowKind::Panel && w[i].layer == w[t].layer
            && panel_ids.contains(w[i].id)
    &&& forall|k: int| 0 <= k < panel_ids.len() ==> #[trigger] listed_between(w, start, t, panel_ids[k])
    &&& forall|j: int| 0 <= j < start ==> !panel_ids.contains(#[trigger] w[j].id)
}

/// Some window from `start` up to (not including) `end` has the id `id`.
pub open spec fn listed_between(w: Seq<OrderedWindow>, start: int, end: int, id: u32) -> bool {
    exists|i: int| start <= i < end && #[trigger] w[i].id == id
}

proof fn lemma_order_fails(w: Seq<OrderedWindow>, target_id: u32, panel_ids: Seq<u32>, t: int)
    requires
        forall|u: int| #[trigger] first_target(w, target_id, u) ==> u == t,
        !relative_order_at(w, t, panel_ids),
    ensures
        !relative_order_holds(w, target_id, panel_ids),
{
    if relative_order_holds(w, target_id, panel_ids) {
        let u = choose|u: int|
            #[trigger] first_target(w, target_id, u) && u >= panel_ids.len() && relative_order_at(w, u, panel_ids);
        assert(u == t);
    }
}

fn contains_id(ids: &Vec<u32>, id: u32) -> (b: bool)
    ensures
        b == ids@.contains(id),
{
    let mut i: usize = 0;
    while i < ids.len()
        invariant
            i <= ids.len(),
            forall|j: int| 0 <= j < i ==> ids@[j] != id,
        decreases ids.len() - i,
    {
        if ids[i] == id {
            assert(ids@[i as int] == id);
            return true;
        }
        i = i + 1;
    }
    false
}

/// Whether the border's panels `panel_ids` sit directly in front of the shared window
/// `target_id` in the front-to-back list `windows`, each once, at its layer, with no panel of
/// theirs further in front.
pub fn verify_relative_order(windows: &Vec<OrderedWindow>, target_id: u32, panel_ids: &Vec<u32>) -> (b: bool)
    ensures
        b == relative_order_holds(windows@, target_id, panel_ids@),
{
    if panel_ids.len() == 0 {
        return false;
    }
    let mut t: usize = 0;
    while t < windows.len() && !(windows[t].id == target_id && windows[t].kind == OrderedWindowKind::Target)
        invariant
            t <= windows.len(),
            forall|j: int| 0 <= j < t ==> !(#[trigger] windows@[j].id == target_id && windows@[j].kind == OrderedWindowKind::Target),
        decreases windows.len() - t,
    {
        t = t + 1;
    }
    if t == windows.len() {
        assert forall|u: int| !first_target(windows@, target_id, u) by {
            if first_target(windows@, target_id, u) {
                assert(!(windows@[u].id == target_id && windows@[u].kind == OrderedWindowKind::Target));
            }
        }
        return false;
    }
    proof {
        assert forall|u: int| #[trigger] first_target(windows@, target_id, u) implies u == t by {
            if u < t {
                assert(!(windows@[u].id == target_id && windows@[u].kind == OrderedWindowKind::Target));
            } else if u > t {
                assert(!(windows@[t as int].id == target_id && windows@[t as int].kind == OrderedWindowKind::Target));
            }
        }
        assert(first_target(windows@, target_id, t as int));
    }
    if t < panel_ids.len() {
        return false;
    }
    let start = t - panel_ids.len();
    let layer = windows[t].layer;
    let mut i: usize = start;
    while i < t
        invariant
            start <= i <= t,
            t < windows.len(),
            start + panel_ids.len() == t,
            layer == windows@[t as int].layer,
            forall|u: int| #[trigger] first_target(windows@, target_id, u) ==> u == t,
            forall|j: int|
                start <= j < i ==> (#[trigger] windows@[j]).kind == OrderedWindowKind::Panel && windows@[j].layer == layer
                    && panel_ids@.contains(windows@[j].id),
        decreases t - i,
    {
        let w = windows[i];
        if !(w.kind == OrderedWindowKind::Panel && w.layer == layer && contains_id(panel_ids, w.id)) {
            proof {
                assert(windows@[i as int] == w);
                lemma_order_fails(windows@, target_id, panel_ids@, t as int);
            }
            return false;
        }
        i = i + 1;
    }
    let mut k: usize = 0;
    while k < panel_ids.len()
        invariant
            k <= panel_ids.len(),
            t < windows.len(),
            start + panel_ids.len() == t,
            forall|u: int| #[trigger] first_target(windows@, target_id, u) ==> u == t,
            forall|m: int| 0 <= m < k ==> #[trigger] listed_between(windows@, start as int, t as int, panel_ids@[m]),
        decreases panel_ids.len() - k,
    {
        let id = panel_ids[k];
        let mut i: usize = start;
        while i < t && windows[i].id != id
            invariant
                start <= i <= t,
                t < windows.len(),
                forall|j: int| start <= j < i ==> windows@[j].id != id,
            decreases t - i,
        {
            i = i + 1;
        }
        if i == t {
            proof {
                assert(!listed_between(windows@, start as int, t as int, id)) by {
                    if listed_between(windows@, start as int, t as int, id) {
                        let j = choose|j: int| start <= j < t && #[trigger] windows@[j].id == id;
                        assert(windows@[j].id != id);
                    }
                }
                assert(panel_ids@[k as int] == id);
                lemma_order_fails(windows@, target_id, panel_ids@, t as int);
            }
            return false;
        }
        assert(windows@[i as int].id == panel_ids@[k as int]);
        assert(listed_between(windows@, start as int, t as int, panel_ids@[k as int]));
        k = k + 1;
    }
    let mut j: usize = 0;
    while j < start
        invariant
            j <= start,
            start < windows.len(),
            start + panel_ids.len() == t,
            forall|u: int| #[trigger] first_target(windows@, target_id, u) ==> u == t,
            forall|m: int| 0 <= m < j ==> !panel_ids@.contains(#[trigger] windows@[m].id),
        decreases start - j,
    {
        if contains_id(panel_ids, windows[j].id) {
            proof {
                assert(panel_ids@.contains(windows@[j as int].id));
                lemma_order_fails(windows@, target_id, panel_ids@, t as int);
            }
            return false;
        }
        j = j + 1;
    }
    assert(relative_order_at(windows@, t as int, panel_ids@));
    true
}

/// The border must be redrawn when it is not shown, when the target moved or resized, or when
/// its place in the window order is lost.
pub fn needs_native_update(panels_visible: bool, bounds_changed: bool, relative_order_valid: bool) -> (b: bool)
    ensures
        b == (!panels_visible || bounds_changed || !relative_order_valid),
{
    !panels_visible || bounds_changed || !relative_order_valid
}

#[derive(Debug, Clone, Copy, PartialEq, Eq, Structural)]
pub enum WindowFrameAction {
    Keep,
    Hide,
    Refresh,
}

impl WindowFrameAction {
    /// `Keep` becomes `Refresh` when the order is no longer valid; other actions stay.
    pub fn refresh_if_order_invalid(self, relative_order_valid: bool) -> (r: Self)
        ensures
            r == (if self == WindowFrameAction::Keep && !relative_order_valid {
                WindowFrameAction::Refresh
            } else {
                self
            }),
    {
        match self {
            WindowFrameAction::Keep => {
                if !relative_order_valid {
                    WindowFrameAction::Refresh
                } else {
                    WindowFrameAction::Keep
                }
            },
            action => action,
        }
    }
}

/// A window frame by the IEEE 754 bit patterns (`f64::to_bits`) of its origin and size.
#[derive(Debug, Clone, Copy, PartialEq, Eq, Structural)]
pub struct FrameBits {
    pub x: u64,
    pub y: u64,
    pub width: u64,
    pub height: u64,
}

/// The sign bit of a binary64 bit pattern.
pub const F64_SIGN_BIT: u64 = 0x8000_0000_0000_0000;
/// The bit pattern of positive infinity: every exponent bit set, no mantissa bit.
pub const F64_INFINITY_BITS: u64 = 0x7FF0_0000_0000_0000;

/// The bit pattern `a` is a NaN: every exponent bit set and some mantissa bit set.
pub open spec fn is_nan_bits(a: u64) -> bool {
    a % F64_SIGN_BIT > F64_INFINITY_BITS
}

/// The values with bit patterns `a` and `b` are equal as `f64`: no NaN equals anything, not
/// even itself, and positive and negative zero are equal.
pub open spec fn f64_bits_eq(a: u64, b: u64) -> bool {
    !is_nan_bits(a) && !is_nan_bits(b) && (a == b || (a % F64_SIGN_BIT == 0 && b % F64_SIGN_BIT == 0))
}

/// Two frames are equal as `f64` rectangles: every coordinate is.
pub open spec fn frames_equal(a: FrameBits, b: FrameBits) -> bool {
    f64_bits_eq(a.x, b.x) && f64_bits_eq(a.y, b.y) && f64_bits_eq(a.width, b.width) && f64_bits_eq(
        a.height,
        b.height,
    )
}

fn f64_bits_equal(a: u64, b: u64) -> (r: bool)
    ensures
        r == f64_bits_eq(a, b),
{
    let a_magnitude = a % F64_SIGN_BIT;
    let b_magnitude = b % F64_SIGN_BIT;
    a_magnitude <= F64_INFINITY_BITS && b_magnitude <= F64_INFINITY_BITS && (a == b || (a_magnitude == 0
        && b_magnitude == 0))
}

/// Whether two frames are equal as `f64` rectangles.
pub fn frames_are_equal(a: FrameBits, b: FrameBits) -> (r: bool)
    ensures
        r == frames_equal(a, b),
{
    f64_bits_equal(a.x, b.x) && f64_bits_equal(a.y, b.y) && f64_bits_equal(a.width, b.width)
        && f64_bits_equal(a.height, b.height)
}

/// Follows the target's frame between polls to tell a drag from a settled window.
#[derive(Debug, Clone, Copy)]
pub struct WindowFrameTracker {
    last_frame: Option<FrameBits>,
    moving: bool,
}

impl View for WindowFrameTracker {
    /// The last frame seen, and whether the window was moving then.
    type V = (Option<FrameBits>, bool);

    closed spec fn view(&self) -> (Option<FrameBits>, bool) {
        (self.last_frame, self.moving)
    }
}

impl Default for WindowFrameTracker {
    fn default() -> (r: Self)
        ensures
            r@ == (None::<FrameBits>, false),
    {
        WindowFrameTracker { last_frame: None, moving: false }
    }
}

/// What observing `frame` does to a tracker in state `s`: the action and the next state.
pub open spec fn observe_spec(s: (Option<FrameBits>, bool), frame: FrameBits) -> (WindowFrameAction, (Option<FrameBits>, bool)) {
    match s.0 {
        None => (WindowFrameAction::Keep, (Some(frame), s.1)),
        Some(last) => if !frames_equal(last, frame) {
            (WindowFrameAction::Hide, (Some(frame), true))
        } else if s.1 {
            (WindowFrameAction::Refresh, (Some(frame), false))
        } else {
            (WindowFrameAction::Keep, (Some(frame), false))
        },
    }
}

impl WindowFrameTracker {
    pub fn is_moving(&self) -> (b: bool)
        ensures
            b == self@.1,
    {
        self.moving
    }

    /// Takes `frame` as the settled frame.
    pub fn synchronize(&mut self, frame: FrameBits)
        ensures
            final(self)@ == (Some(frame), false),
    {
        self.last_frame = Some(frame);
        self.moving = false;
    }

    /// Hide while the frame changes between polls; refresh once it has stopped changing.
    pub fn observe(&mut self, frame: FrameBits) -> (a: WindowFrameAction)
        ensures
            (a, final(self)@) == observe_spec(old(self)@, frame),
    {
        let last = self.last_frame;
        self.last_frame = Some(frame);
        match last {
            None => WindowFrameAction::Keep,
            Some(last_frame) => {
                if !frames_are_equal(last_frame, frame) {
                    self.moving = true;
                    WindowFrameAction::Hide
                } else if self.moving {
                    self.moving = false;
                    WindowFrameAction::Refresh
                } else {
                    WindowFrameAction::Keep
                }
            },
        }
    }

    /// As `observe`, but a hidden border is refreshed where it would be kept.
    pub fn observe_for_visibility(&mut self, frame: FrameBits, overlay_visible: bool) -> (a: WindowFrameAction)
        ensures
            final(self)@ == observe_spec(old(self)@, frame).1,
            a == (if observe_spec(old(self)@, frame).0 == WindowFrameAction::Keep && !overlay_visible {
                WindowFrameAction::Refresh
            } else {
                observe_spec(old(self)@, frame).0
            }),
    {
        let action = self.observe(frame);
        if action == WindowFrameAction::Keep && !overlay_visible {
            WindowFrameAction::Refresh
        } else {
            action
        }
    }
}

/// Settling `frame` into a tracker and then observing the same frame keeps the border as it is,
/// where no coordinate is NaN (a NaN frame equals no frame, itself included).
pub proof fn lemma_synchronized_frame_is_kept(s: (Option<FrameBits>, bool), frame: FrameBits)
    requires
        !is_nan_bits(frame.x) && !is_nan_bits(frame.y) && !is_nan_bits(frame.width) && !is_nan_bits(frame.height),
    ensures
        observe_spec((Some(frame), false), frame) == (WindowFrameAction::Keep, (Some(frame), false)),
{
}

/// A change of frame always hides the border, and the first unchanged frame after it refreshes
/// (where no coordinate of it is NaN).
pub proof fn lemma_drag_hides_then_refreshes(s: (Option<FrameBits>, bool), moved: FrameBits)
    requires
        s.0 is Some,
        !frames_equal(s.0->0, moved),
        !is_nan_bits(moved.x) && !is_nan_bits(moved.y) && !is_nan_bits(moved.width) && !is_nan_bits(moved.height),
    ensures
        observe_spec(s, moved).0 == WindowFrameAction::Hide,
        observe_spec(observe_spec(s, moved).1, moved).0 == WindowFrameAction::Refresh,
{
}

/// Tells the one delayed order check that is still wanted from older ones.
#[derive(Debug, Clone, Copy)]
pub struct OrderVerificationState {
    generation: u64,
    pending_generation: Option<u64>,
}

impl View for OrderVerificationState {
    /// The last generation handed out, and the one whose check is pending, if any.
    type V = (u64, Option<u64>);

    closed spec fn view(&self) -> (u64, Option<u64>) {
        (self.generation, self.pending_generation)
    }
}

impl Default for OrderVerificationState {
    fn default() -> (r: Self)
        ensures
            r@ == (0u64, None::<u64>),
    {
        OrderVerificationState { generation: 0, pending_generation: None }
    }
}

/// The generation that a request hands out, and the state after it.
pub open spec fn request_spec(s: (u64, Option<u64>)) -> (u64, (u64, Option<u64>)) {
    let g: u64 = if s.0 == u64::MAX {
        0
    } else {
        (s.0 + 1) as u64
    };
    (g, (g, Some(g)))
}

/// Whether claiming `generation` succeeds in state `s`, and the state after it.
pub open spec fn take_spec(s: (u64, Option<u64>), generation: u64) -> (bool, (u64, Option<u64>)) {
    if s.1 == Some(generation) {
        (true, (s.0, None))
    } else {
        (false, s)
    }
}

impl OrderVerificationState {
    /// Asks for a new check; the generation counter moves on by one, wrapping.
    pub fn request(&mut self) -> (g: u64)
        ensures
            (g, final(self)@) == request_spec(old(self)@),
    {
        self.generation = if self.generation == u64::MAX {
            0
        } else {
            self.generation + 1
        };
        self.pending_generation = Some(self.generation);
        self.generation
    }

    pub fn pending_generation(&self) -> (p: Option<u64>)
        ensures
            p == self@.1,
    {
        self.pending_generation
    }

    /// Claims the check of `generation` if it is the pending one.
    pub fn take_if_current(&mut self, generation: u64) -> (b: bool)
        ensures
            (b, final(self)@) == take_spec(old(self)@, generation),
    {
        if self.pending_generation != Some(generation) {
            return false;
        }
        self.pending_generation = None;
        true
    }

    pub fn cancel(&mut self)
        ensures
            final(self)@ == (old(self)@.0, None::<u64>),
    {
        self.pending_generation = None;
    }
}

/// A requested check is claimed by its own generation exactly once, and by no other generation.
pub proof fn lemma_request_is_taken_once(s: (u64, Option<u64>), other: u64)
    requires
        other != request_spec(s).0,
    ensures
        ({
            let (g, requested) = request_spec(s);
            let (first, after) = take_spec(requested, g);
            &&& first
            &&& !take_spec(after, g).0
            &&& !take_spec(requested, other).0
        }),
{
}

/// After a cancel no generation can be claimed.
pub proof fn lemma_cancel_leaves_nothing_to_take(s: (u64, Option<u64>), g: u64)
    ensures
        !take_spec((s.0, None), g).0,
{
}

/// One call on an order-verification state.
pub enum OrderCall {
    Request,
    TakeIfCurrent(u64),
    Cancel,
}

/// The state after one call.
pub open spec fn order_call_spec(s: (u64, Option<u64>), call: OrderCall) -> (u64, Option<u64>) {
    match call {
        OrderCall::Request => request_spec(s).1,
        OrderCall::TakeIfCurrent(g) => take_spec(s, g).1,
        OrderCall::Cancel => (s.0, None),
    }
}

/// The state after a history of calls, from `s`.
pub open spec fn order_calls_spec(s: (u64, Option<u64>), calls: Seq<OrderCall>) -> (u64, Option<u64>)
    decreases calls.len(),
{
    if calls.len() == 0 {
        s
    } else {
        order_call_spec(order_calls_spec(s, calls.drop_last()), calls.last())
    }
}

/// How many requests a history holds.
pub open spec fn request_count(calls: Seq<OrderCall>) -> nat
    decreases calls.len(),
{
    if calls.len() == 0 {
        0
    } else {
        request_count(calls.drop_last()) + if calls.last() is Request { 1nat } else { 0nat }
    }
}

/// From the default state, after any history of calls the generation counter is the number of
/// requests made (wrapping at 2^64), so the next request hands out that number plus one: taking
/// and cancelling never move it.
pub proof fn lemma_generation_counts_requests(calls: Seq<OrderCall>)
    ensures
        order_calls_spec((0u64, None::<u64>), calls).0 == request_count(calls) % 0x1_0000_0000_0000_0000,
        request_spec(order_calls_spec((0u64, None::<u64>), calls)).0 == (request_count(calls) + 1)
            % 0x1_0000_0000_0000_0000,
    decreases calls.len(),
{
    let m: int = 0x1_0000_0000_0000_0000;
    if calls.len() > 0 {
        lemma_generation_counts_requests(calls.drop_last());
    }
    let c = request_count(calls) as int;
    let g = order_calls_spec((0u64, None::<u64>), calls).0 as int;
    assert(0 <= g < m);
    assert(c % m == g);
    if g == m - 1 {
        assert((c + 1) % m == 0) by (nonlinear_arith)
            requires
                c % m == m - 1,
                m > 0,
                c >= 0,
        ;
    } else {
        assert((c + 1) % m == g + 1) by (nonlinear_arith)
            requires
                c % m == g,
                0 <= g < m - 1,
                m > 0,
                c >= 0,
        ;
    }
}

/// After a cancel nothing is pending, and the counter still holds the generation of the latest
/// request: the next request hands out that generation plus one.
pub proof fn lemma_cancel_keeps_latest_generation(calls: Seq<OrderCall>)
    ensures
        ({
            let latest = order_calls_spec((0u64, None::<u64>), calls).0;
            let cancelled = order_calls_spec((0u64, None::<u64>), calls.push(OrderCall::Cancel));
            &&& cancelled.1 is None
            &&& cancelled.0 == latest
            &&& request_spec(cancelled).0 == (request_count(calls) + 1) % 0x1_0000_0000_0000_0000
        }),
{
    assert(calls.push(OrderCall::Cancel).drop_last() =~= calls);
    lemma_generation_counts_requests(calls);
}

#[derive(Debug, Clone, Copy, PartialEq, Eq, Structural)]
pub enum OverlayEvent {
    WindowPositionTimer,
    ApplicationActivated,
    ApplicationHidden,
    ApplicationTerminated,
    ActiveSpaceChanged,
    ScreenParametersChanged,
    SystemWillSleep,
    SystemWoke,
    CorrectionTimer,
}

#[derive(Debug, Clone, Copy, PartialEq, Eq, Structural)]
pub enum RefreshAction {
    Hide,
    Refresh,
    RefreshAfterWindowOrdering,
    TrackWindowFrame,
}

/// What the overlay does on each system event.
pub fn event_action(event: OverlayEvent) -> (a: RefreshAction)
    ensures
        a == match event {
            OverlayEvent::SystemWillSleep => RefreshAction::Hide,
            OverlayEvent::WindowPositionTimer => RefreshAction::TrackWindowFrame,
            OverlayEvent::ApplicationActivated => RefreshAction::RefreshAfterWindowOrdering,
            _ => RefreshAction::Refresh,
        },
{
    match event {
        OverlayEvent::SystemWillSleep => RefreshAction::Hide,
        OverlayEvent::WindowPositionTimer => RefreshAction::TrackWindowFrame,
        OverlayEvent::ApplicationActivated => RefreshAction::RefreshAfterWindowOrdering,
        OverlayEvent::ApplicationHidden
        | OverlayEvent::ApplicationTerminated
        | OverlayEvent::ActiveSpaceChanged
        | OverlayEvent::ScreenParametersChanged
        | OverlayEvent::SystemWoke
        | OverlayEvent::CorrectionTimer => RefreshAction::Refresh,
    }
}

/// The number in a source id `<kind>:<n>`, where `n` is a decimal `u32`.
pub open spec fn source_number_spec(source_id: Seq<char>, kind: Seq<char>) -> Option<nat> {
    if starts_with(source_id, kind) && source_id.len() > kind.len() && source_id[kind.len() as int] == ':' {
        parse_unsigned_spec(source_id.subrange(kind.len() as int + 1, source_id.len() as int), 10, u32::MAX as nat)
    } else {
        None
    }
}

/// The id number of a source of the given kind; a `SourceNotFound` error, recoverable, for any
/// id that does not have that form.
pub fn parse_source_id(source_id: &str, expected_kind: &str) -> (r: Result<u32, CaptureError>)
    ensures
        match r {
            Ok(n) => source_number_spec(source_id@, expected_kind@) == Some(n as nat),
            Err(e) => source_number_spec(source_id@, expected_kind@) is None
                && e->payload.code == CaptureErrorCode::SourceNotFound
                && e->payload.recoverable,
        },
{
    let chars = chars_of(source_id);
    let kind = chars_of(expected_kind);
    if has_prefix(&chars, &kind) && chars.len() > kind.len() && chars[kind.len()] == ':' {
        let digits = slice_chars(&chars, kind.len() + 1, chars.len());
        match parse_unsigned(&digits, 10, 0xffff_ffff) {
            Some(n) => {
                return Ok(n as u32);
            },
            None => {},
        }
    }
    let message = concat_chars(&chars_of("无法识别共享源: "), &chars);
    Err(CaptureError::new(CaptureErrorCode::SourceNotFound, string_of(&message), true))
}

/// The window whose application is activated when sharing starts: the shared window's number,
/// and none for a display.
pub open spec fn startup_activation_spec(target: OverlayTarget) -> Option<Option<nat>> {
    match target.source_kind {
        CaptureSourceKind::Window => match source_number_spec(target.source_id@, "window"@) {
            Some(n) => Some(Some(n)),
            None => None,
        },
        CaptureSourceKind::Display => Some(None),
    }
}

/// The window to activate when sharing starts, or none for a display; an error for a window
/// source id that cannot be read.
pub fn startup_activation_target(target: &OverlayTarget) -> (r: Result<Option<u32>, CaptureError>)
    ensures
        match r {
            Ok(Some(n)) => startup_activation_spec(*target) == Some(Some(n as nat)),
            Ok(None) => startup_activation_spec(*target) == Some(None::<nat>),
            Err(e) => startup_activation_spec(*target) is None && e->payload.code
                == CaptureErrorCode::SourceNotFound,
        },
{
    match target.source_kind {
        CaptureSourceKind::Window => match parse_source_id(target.source_id.as_str(), "window") {
            Ok(n) => Ok(Some(n)),
            Err(e) => Err(e),
        },
        CaptureSourceKind::Display => Ok(None),
    }
}

/// Calls `activate` once with the shared window's number, and not at all for a display.
pub fn activate_startup_target_with<F: FnOnce(u32) -> Result<bool, CaptureError>>(
    target: &OverlayTarget,
    activate: F,
) -> (r: Result<Option<bool>, CaptureError>)
    requires
        forall|id: u32| activate.requires((id,)),
    ensures
        match startup_activation_spec(*target) {
            None => r is Err,
            Some(None) => r matches Ok(None),
            Some(Some(n)) => match r {
                Ok(Some(b)) => activate.ensures((n as u32,), Ok(b)),
                Ok(None) => false,
                Err(e) => activate.ensures((n as u32,), Err(e)),
            },
        },
{
    let window_id = match startup_activation_target(target) {
        Err(e) => return Err(e),
        Ok(None) => return Ok(None),
        Ok(Some(id)) => id,
    };
    match activate(window_id) {
        Ok(b) => Ok(Some(b)),
        Err(e) => Err(e),
    }
}

} // verus!
