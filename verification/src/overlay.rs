use vstd::prelude::*;

use crate::capture_models::CaptureSourceKind;

verus! {

/// What a share overlay outlines: a captured display or window.
#[derive(Debug)]
pub struct OverlayTarget {
    pub source_id: String,
    pub source_kind: CaptureSourceKind,
}

impl Clone for OverlayTarget {
    fn clone(&self) -> (r: Self)
        ensures
            r == *self,
    {
        OverlayTarget { source_id: self.source_id.clone(), source_kind: self.source_kind }
    }
}

/// How the share border is drawn: its colour as `0xRRGGBB`, its thickness and the length of
/// each corner mark, in pixels.
#[derive(Debug, Clone, Copy, PartialEq, Eq, Structural)]
pub struct OverlayStyle {
    pub color: u32,
    pub thickness: i32,
    pub corner_length: i32,
}

impl Default for OverlayStyle {
    /// A green border 4 pixels thick with 32-pixel corners.
    fn default() -> (r: Self)
        ensures
            r == (OverlayStyle { color: 0x22C55E, thickness: 4, corner_length: 32 }),
    {
        OverlayStyle { color: 0x22C55E, thickness: 4, corner_length: 32 }
    }
}

/// A screen rectangle by its edges.
#[derive(Debug, Clone, Copy, PartialEq, Eq, Structural)]
pub struct OverlayRect {
    pub left: i32,
    pub top: i32,
    pub right: i32,
    pub bottom: i32,
}

/// One bar of the border: its origin and size.
#[derive(Debug, Clone, Copy, PartialEq, Eq, Structural)]
pub struct OverlaySegment {
    pub x: i32,
    pub y: i32,
    pub width: i32,
    pub height: i32,
}

impl OverlaySegment {
    pub fn new(x: i32, y: i32, width: i32, height: i32) -> (r: Self)
        ensures
            r == (OverlaySegment { x, y, width, height }),
    {
        OverlaySegment { x, y, width, height }
    }
}

/// An overlay that draws nothing.
#[derive(Debug, Default)]
pub struct NoopShareOverlay;

/// A factory of overlays that draw nothing.
#[derive(Debug, Default)]
pub struct NoopShareOverlayFactory;

/// `x` held within the range of `i32`, as saturating arithmetic gives it.
pub open spec fn saturate(x: int) -> int {
    if x > i32::MAX {
        i32::MAX as int
    } else if x < i32::MIN {
        i32::MIN as int
    } else {
        x
    }
}

pub open spec fn max_int(a: int, b: int) -> int {
    if a >= b {
        a
    } else {
        b
    }
}

pub open spec fn min_int(a: int, b: int) -> int {
    if a <= b {
        a
    } else {
        b
    }
}

/// The border's thickness: the style's, and at least one pixel.
pub open spec fn border_thickness(style: OverlayStyle) -> int {
    max_int(style.thickness as int, 1)
}

/// The length of a corner mark along a side of length `side`: the style's corner length, at least
/// the thickness and at most half the side, where the side counts as at least two thicknesses.
pub open spec fn corner_mark_length(style: OverlayStyle, side: int) -> int {
    let t = border_thickness(style);
    let corner = max_int(style.corner_length as int, t);
    let extent = max_int(saturate(side), saturate(2 * t));
    min_int(corner, extent / 2)
}

pub open spec fn segment(x: int, y: int, width: int, height: int) -> OverlaySegment {
    OverlaySegment { x: x as i32, y: y as i32, width: width as i32, height: height as i32 }
}

/// The eight bars that mark the corners of `rect`: for each corner, a horizontal bar and a
/// vertical one, starting from the corner and running inward.
pub open spec fn corner_segments_spec(rect: OverlayRect, style: OverlayStyle) -> Seq<OverlaySegment> {
    let t = border_thickness(style);
    let h = corner_mark_length(style, rect.right - rect.left);
    let v = corner_mark_length(style, rect.bottom - rect.top);
    let right_h = saturate(rect.right - h);
    let right_t = saturate(rect.right - t);
    let bottom_t = saturate(rect.bottom - t);
    let bottom_v = saturate(rect.bottom - v);
    seq![
        segment(rect.left as int, rect.top as int, h, t),
        segment(rect.left as int, rect.top as int, t, v),
        segment(right_h, rect.top as int, h, t),
        segment(right_t, rect.top as int, t, v),
        segment(rect.left as int, bottom_t, h, t),
        segment(rect.left as int, bottom_v, t, v),
        segment(right_h, bottom_t, h, t),
        segment(right_t, bottom_v, t, v),
    ]
}

fn saturating_i32(x: i64) -> (r: i32)
    ensures
        r == saturate(x as int),
{
    if x > i32::MAX as i64 {
        i32::MAX
    } else if x < i32::MIN as i64 {
        i32::MIN
    } else {
        x as i32
    }
}

fn mark_length(style: OverlayStyle, near: i32, far: i32) -> (r: i32)
    ensures
        r == corner_mark_length(style, far - near),
        1 <= r,
{
    let t: i32 = if style.thickness >= 1 {
        style.thickness
    } else {
        1
    };
    let corner: i32 = if style.corner_length >= t {
        style.corner_length
    } else {
        t
    };
    let side = saturating_i32(far as i64 - near as i64);
    let min_side = saturating_i32(2 * (t as i64));
    let extent: i32 = if side >= min_side {
        side
    } else {
        min_side
    };
    let half = extent / 2;
    if corner <= half {
        corner
    } else {
        half
    }
}

/// The bars of the share border around `rect`. Each has a positive width and height.
pub fn corner_segments(rect: OverlayRect, style: OverlayStyle) -> (r: Vec<OverlaySegment>)
    ensures
        r@ == corner_segments_spec(rect, style),
        forall|i: int| 0 <= i < r@.len() ==> #[trigger] r@[i].width >= 1 && r@[i].height >= 1,
{
    let t: i32 = if style.thickness >= 1 {
        style.thickness
    } else {
        1
    };
    let h = mark_length(style, rect.left, rect.right);
    let v = mark_length(style, rect.top, rect.bottom);
    let right_h = saturating_i32(rect.right as i64 - h as i64);
    let right_t = saturating_i32(rect.right as i64 - t as i64);
    let bottom_t = saturating_i32(rect.bottom as i64 - t as i64);
    let bottom_v = saturating_i32(rect.bottom as i64 - v as i64);
    let r = vec![
        OverlaySegment::new(rect.left, rect.top, h, t),
        OverlaySegment::new(rect.left, rect.top, t, v),
        OverlaySegment::new(right_h, rect.top, h, t),
        OverlaySegment::new(right_t, rect.top, t, v),
        OverlaySegment::new(rect.left, bottom_t, h, t),
        OverlaySegment::new(rect.left, bottom_v, t, v),
        OverlaySegment::new(right_h, bottom_t, h, t),
        OverlaySegment::new(right_t, bottom_v, t, v),
    ];
    assert(r@ =~= corner_segments_spec(rect, style));
    r
}

} // verus!
