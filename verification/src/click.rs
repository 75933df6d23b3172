//! Where a physical left-click lands (fallback when accessibility patterns do not act).
//!
//! These functions compute the screen point; the caller moves the cursor and clicks.

use vstd::prelude::*;
use crate::anchor::{anchor_fits, fallback_anchor_px, fallback_anchor_spec, iclamp, imax, is_wide, strip_width};
use crate::error::UiaError;
use crate::geom::{Rect, fits_i32};
use crate::hint::RawHint;

verus! {

/// `v` clamped into `lo..=hi`.
pub open spec fn clamp_spec(v: int, lo: int, hi: int) -> int {
    iclamp(v, lo, hi)
}

/// The last pixel of `rect` on each axis (saturating at `i32::MAX`).
pub open spec fn last_pixel(start: int, len: int) -> int {
    if start + len - 1 > i32::MAX { i32::MAX as int } else { start + len - 1 }
}

/// `(x, y)` clamped into `rect`; an empty rectangle yields its origin.
pub open spec fn clamp_point_spec(x: int, y: int, rect: Rect) -> (int, int) {
    if rect.w <= 0 || rect.h <= 0 {
        (rect.x as int, rect.y as int)
    } else {
        (
            clamp_spec(x, rect.x as int, last_pixel(rect.x as int, rect.w as int)),
            clamp_spec(y, rect.y as int, last_pixel(rect.y as int, rect.h as int)),
        )
    }
}

/// Clamps `(x, y)` into `rect` (physical pixels).
pub fn clamp_point_to_bounds(x: i32, y: i32, rect: &Rect) -> (r: (i32, i32))
    ensures
        r.0 == clamp_point_spec(x as int, y as int, *rect).0,
        r.1 == clamp_point_spec(x as int, y as int, *rect).1,
{
    if rect.w <= 0 || rect.h <= 0 {
        return (rect.x, rect.y);
    }
    let max_x: i32 = if (rect.x as i64) + (rect.w as i64) - 1 > i32::MAX as i64 { i32::MAX } else { rect.x + (rect.w - 1) };
    let max_y: i32 = if (rect.y as i64) + (rect.h as i64) - 1 > i32::MAX as i64 { i32::MAX } else { rect.y + (rect.h - 1) };
    let cx = if x < rect.x { rect.x } else if x > max_x { max_x } else { x };
    let cy = if y < rect.y { rect.y } else if y > max_y { max_y } else { y };
    (cx, cy)
}

/// The point a hint refers to: its own anchor, else the fallback anchor of its bounds.
pub open spec fn hint_anchor_spec(raw: RawHint) -> (int, int) {
    match raw.anchor_px {
        Some(p) => (p.0 as int, p.1 as int),
        None => fallback_anchor_spec(raw.bounds, raw.kind),
    }
}

/// The physical point an invoke clicks for `raw`.
pub open spec fn invoke_point_spec(raw: RawHint) -> (int, int) {
    clamp_point_spec(hint_anchor_spec(raw).0, hint_anchor_spec(raw).1, raw.bounds)
}

/// The fallback anchor can be computed for hints that carry none.
pub open spec fn invoke_point_computable(raw: RawHint) -> bool {
    raw.anchor_px is None ==> anchor_fits(raw.bounds, raw.kind)
}

/// The hint's own anchor when known, else [`fallback_anchor_px`], clamped to its bounds.
pub fn resolve_invoke_physical_point(raw: &RawHint) -> (r: (i32, i32))
    requires
        invoke_point_computable(*raw),
    ensures
        r.0 == invoke_point_spec(*raw).0,
        r.1 == invoke_point_spec(*raw).1,
{
    let (x, y) = match raw.anchor_px {
        Some(p) => p,
        None => fallback_anchor_px(raw.bounds, raw.kind),
    };
    clamp_point_to_bounds(x, y, &raw.bounds)
}

/// Inset from one edge: an eighth of the size, kept in `1..=4`, at most a third of the size.
pub open spec fn edge_inset(len: int) -> int {
    let a = iclamp(len / 8, 1, 4);
    if a <= len / 3 { a } else { len / 3 }
}

/// The click point of `best_click_point`, over unbounded integers.
pub open spec fn best_click_spec(rect: Rect) -> (int, int) {
    let w = rect.w as int;
    let h = rect.h as int;
    if w <= 0 || h <= 0 {
        (rect.x as int, rect.y as int)
    } else if w <= 4 || h <= 4 {
        (rect.x + w / 2, rect.y + h / 2)
    } else {
        let inset_x = edge_inset(w);
        let inset_y = edge_inset(h);
        let inner_w = imax(w - 2 * inset_x, 1);
        let inner_h = imax(h - 2 * inset_y, 1);
        let cx = if is_wide(w, h) {
            let strip = strip_width(w);
            rect.x + (w - strip) / 2 + strip / 2
        } else {
            rect.x + inset_x + inner_w / 2
        };
        (cx, rect.y + inset_y + inner_h / 2)
    }
}

/// The click point can be computed without leaving the `i32` range.
pub open spec fn click_point_fits(rect: Rect) -> bool {
    &&& fits_i32(rect.x + imax(rect.w as int, 0))
    &&& fits_i32(rect.y + imax(rect.h as int, 0))
}

/// A point inside `rect` for a physical click: inset from the edges, wide controls biased
/// toward the central text band, tiny controls at their center; an empty rectangle yields
/// its origin.
pub fn best_click_point(rect: &Rect) -> (r: (i32, i32))
    requires
        click_point_fits(*rect),
    ensures
        r.0 == best_click_spec(*rect).0,
        r.1 == best_click_spec(*rect).1,
{
    let w = rect.w;
    let h = rect.h;
    if w <= 0 || h <= 0 {
        return (rect.x, rect.y);
    }
    if w <= 4 || h <= 4 {
        return (rect.x + w / 2, rect.y + h / 2);
    }
    let qx = w / 8;
    let ax = if qx < 1 { 1 } else if qx > 4 { 4 } else { qx };
    let inset_x = if ax <= w / 3 { ax } else { w / 3 };
    let qy = h / 8;
    let ay = if qy < 1 { 1 } else if qy > 4 { 4 } else { qy };
    let inset_y = if ay <= h / 3 { ay } else { h / 3 };
    let inner_w = if w - 2 * inset_x > 1 { w - 2 * inset_x } else { 1 };
    let inner_h = if h - 2 * inset_y > 1 { h - 2 * inset_y } else { 1 };
    let inner_left = rect.x + inset_x;
    let inner_top = rect.y + inset_y;
    let hm: i64 = if h > 16 { h as i64 } else { 16 };
    let cx = if (w as i64) > hm * 3 || w > 120 {
        let raw = ((w as i64) * 6 + 5) / 10;
        let strip: i32 = if raw < 1 { 1 } else if raw > w as i64 { w } else { raw as i32 };
        let sl = rect.x + (w - strip) / 2;
        sl + strip / 2
    } else {
        inner_left + inner_w / 2
    };
    let cy = inner_top + inner_h / 2;
    (cx, cy)
}

/// The error for a click on a rectangle without area.
pub open spec fn is_zero_size_error(e: UiaError) -> bool {
    e matches UiaError::Operation(m) && m@ == "zero-size bounds for click"@
}

/// The point to click inside `rect`, refused for a rectangle without area.
pub fn invoke_click_point(rect: &Rect) -> (r: Result<(i32, i32), UiaError>)
    requires
        click_point_fits(*rect),
    ensures
        rect.w <= 0 || rect.h <= 0 ==> r is Err && is_zero_size_error(r->Err_0),
        rect.w > 0 && rect.h > 0 ==> (r matches Ok(p) && p.0 == best_click_spec(*rect).0
            && p.1 == best_click_spec(*rect).1),
{
    if rect.w <= 0 || rect.h <= 0 {
        return Err(UiaError::Operation("zero-size bounds for click".to_owned()));
    }
    Ok(best_click_point(rect))
}

/// The center of `rect` as the point to click, refused for a rectangle without area.
/// (The inset heuristics of [`invoke_click_point`] usually pick a better point.)
pub fn left_click_rect_center(rect: &Rect) -> (r: Result<(i32, i32), UiaError>)
    requires
        rect.w > 0 && rect.h > 0 ==> rect.center_fits(),
    ensures
        rect.w <= 0 || rect.h <= 0 ==> r is Err && is_zero_size_error(r->Err_0),
        rect.w > 0 && rect.h > 0 ==> (r matches Ok(p) && p.0 == rect.center_x() && p.1 == rect.center_y()),
{
    if rect.w <= 0 || rect.h <= 0 {
        return Err(UiaError::Operation("zero-size bounds for click".to_owned()));
    }
    Ok(rect.center())
}

/// The point a physical click on `raw` lands on, refused for bounds without area.
pub fn invoke_click_hint(raw: &RawHint) -> (r: Result<(i32, i32), UiaError>)
    requires
        invoke_point_computable(*raw),
    ensures
        raw.bounds.w <= 0 || raw.bounds.h <= 0 ==> r is Err && is_zero_size_error(r->Err_0),
        raw.bounds.w > 0 && raw.bounds.h > 0 ==> (r matches Ok(p) && p.0 == invoke_point_spec(*raw).0
            && p.1 == invoke_point_spec(*raw).1),
{
    if raw.bounds.w <= 0 || raw.bounds.h <= 0 {
        return Err(UiaError::Operation("zero-size bounds for click".to_owned()));
    }
    Ok(resolve_invoke_physical_point(raw))
}

/// A resolved invoke point always lies inside the hint's bounds when they have area.
pub proof fn lemma_invoke_point_inside(raw: RawHint)
    requires
        raw.bounds.w > 0,
        raw.bounds.h > 0,
    ensures
        raw.bounds.x <= invoke_point_spec(raw).0 <= last_pixel(raw.bounds.x as int, raw.bounds.w as int),
        raw.bounds.y <= invoke_point_spec(raw).1 <= last_pixel(raw.bounds.y as int, raw.bounds.h as int),
{
}

} // verus!
