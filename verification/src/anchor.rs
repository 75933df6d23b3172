//! Heuristic anchor (physical px) when the accessibility backend supplies no clickable point.

use vstd::prelude::*;
use crate::geom::{Rect, tdiv, fits_i32};
use crate::hint::ElementKind;

verus! {

pub open spec fn imax(a: int, b: int) -> int {
    if a >= b { a } else { b }
}

pub open spec fn iclamp(v: int, lo: int, hi: int) -> int {
    if v < lo { lo } else if v > hi { hi } else { v }
}

/// Width of the central band of a wide control: 60% of `w`, rounded to nearest.
pub open spec fn strip_width(w: int) -> int {
    iclamp((6 * w + 5) / 10, 1, w)
}

/// A control counts as wide when it is more than three times as wide as
/// `max(h, 16)`, or wider than 120 px.
pub open spec fn is_wide(w: int, h: int) -> bool {
    w > imax(h, 16) * 3 || w > 120
}

/// The fallback anchor of `fallback_anchor_px`, over unbounded integers.
///
/// An editable field's point is kept on or left of the field's last column.
pub open spec fn fallback_anchor_spec(b: Rect, kind: ElementKind) -> (int, int) {
    let w = imax(b.w as int, 1);
    let h = imax(b.h as int, 1);
    let cx = b.x + w / 2;
    let cy = b.y + h / 2;
    if kind == ElementKind::Editable {
        let inset_x = iclamp(w / 8, 2, 10);
        let text_x = b.x + inset_x + tdiv(w - 2 * inset_x, 6);
        let last = b.x + w - 1;
        (if text_x <= last { text_x } else { last }, cy)
    } else if is_wide(w, h) {
        let strip = strip_width(w);
        let sl = b.x + (w - strip) / 2;
        (sl + strip / 2, cy)
    } else {
        (cx, cy)
    }
}

/// The anchor can be computed without leaving the `i32` range: the center of the
/// bounds fits, and so does an editable field's point.
pub open spec fn anchor_fits(b: Rect, kind: ElementKind) -> bool {
    &&& fits_i32(b.x + imax(b.w as int, 1) / 2)
    &&& fits_i32(b.y + imax(b.h as int, 1) / 2)
    &&& (kind == ElementKind::Editable ==> fits_i32(fallback_anchor_spec(b, kind).0))
}

/// Fallback "truth" point inside `bounds` for pill placement and locality.
///
/// Editable fields anchor near their left text start (never past their last column);
/// wide controls anchor at the middle of their central 60% band; everything else at the
/// center. Bounds without area count as one pixel wide and high.
pub fn fallback_anchor_px(bounds: Rect, kind: ElementKind) -> (p: (i32, i32))
    requires
        anchor_fits(bounds, kind),
    ensures
        p.0 == fallback_anchor_spec(bounds, kind).0,
        p.1 == fallback_anchor_spec(bounds, kind).1,
        bounds.x <= p.0 <= bounds.x + imax(bounds.w as int, 1) - 1,
        bounds.y <= p.1 <= bounds.y + imax(bounds.h as int, 1) - 1,
{
    let w = if bounds.w > 1 { bounds.w } else { 1 };
    let h = if bounds.h > 1 { bounds.h } else { 1 };
    let cx = bounds.x + w / 2;
    let cy = bounds.y + h / 2;

    match kind {
        ElementKind::Editable => {
            let q = w / 8;
            let inset_x = if q < 2 { 2 } else if q > 10 { 10 } else { q };
            let text_x: i64 = (bounds.x as i64) + (inset_x as i64) + ((w as i64) - 2 * (inset_x as i64)) / 6;
            let last: i64 = (bounds.x as i64) + (w as i64) - 1;
            let x: i64 = if text_x <= last { text_x } else { last };
            (x as i32, cy)
        },
        _ => {
            let hm = if h > 16 { h } else { 16 };
            if w > 120 || (hm as i64) * 3 < (w as i64) {
                let raw = ((w as i64) * 6 + 5) / 10;
                let strip: i32 = if raw < 1 { 1 } else if raw > w as i64 { w } else { raw as i32 };
                let sl = bounds.x + (w - strip) / 2;
                (sl + strip / 2, cy)
            } else {
                (cx, cy)
            }
        },
    }
}

} // verus!
