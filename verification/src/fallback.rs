//! Node decisions of the fallback enumerators: MSAA (`IAccessible`) and child windows.
//!
//! The caller walks the accessible tree or the child windows; these functions decide what
//! each node yields.

use vstd::prelude::*;
use crate::anchor::{anchor_fits, fallback_anchor_px, fallback_anchor_spec};
use crate::geom::Rect;
use crate::hint::{Backend, ElementKind, RawHint};
use crate::uia_options::EnumOptions;

verus! {

pub const ROLE_MENUITEM: i32 = 12;
pub const ROLE_LINK: i32 = 30;
pub const ROLE_LISTITEM: i32 = 34;
pub const ROLE_GRAPHIC: i32 = 40;
pub const ROLE_STATICTEXT: i32 = 41;
pub const ROLE_PUSHBUTTON: i32 = 43;
pub const ROLE_CHECKBUTTON: i32 = 44;
pub const ROLE_RADIOBUTTON: i32 = 45;
pub const ROLE_COMBOBOX: i32 = 46;

/// `STATE_SYSTEM_UNAVAILABLE`.
pub const STATE_UNAVAILABLE: i32 = 0x1;
/// `STATE_SYSTEM_INVISIBLE`.
pub const STATE_INVISIBLE: i32 = 0x8000;
/// `STATE_SYSTEM_OFFSCREEN`.
pub const STATE_OFFSCREEN: i32 = 0x10000;

/// The element kind of an MSAA role; static text and graphics are not targets.
pub open spec fn role_kind_spec(role: i32) -> Option<ElementKind> {
    if role == ROLE_PUSHBUTTON || role == ROLE_RADIOBUTTON || role == ROLE_CHECKBUTTON
        || role == ROLE_MENUITEM || role == ROLE_LISTITEM || role == ROLE_LINK {
        Some(ElementKind::Invoke)
    } else if role == ROLE_COMBOBOX {
        Some(ElementKind::Editable)
    } else if role == ROLE_STATICTEXT || role == ROLE_GRAPHIC {
        None
    } else {
        Some(ElementKind::GenericClickable)
    }
}

/// The element kind of an MSAA role, if it is a target at all.
pub fn role_to_kind(role: i32) -> (r: Option<ElementKind>)
    ensures
        r == role_kind_spec(role),
{
    if role == ROLE_PUSHBUTTON || role == ROLE_RADIOBUTTON || role == ROLE_CHECKBUTTON
        || role == ROLE_MENUITEM || role == ROLE_LISTITEM {
        Some(ElementKind::Invoke)
    } else if role == ROLE_COMBOBOX {
        Some(ElementKind::Editable)
    } else if role == ROLE_LINK {
        Some(ElementKind::Invoke)
    } else if role == ROLE_STATICTEXT || role == ROLE_GRAPHIC {
        None
    } else {
        Some(ElementKind::GenericClickable)
    }
}

/// Whether an MSAA node becomes a hint: available, visible unless off-screen nodes are
/// wanted, at least 2x2, not a large static picture or text, and of a target role.
pub open spec fn take_node_spec(role: i32, state: i32, include_offscreen: bool, width: i32, height: i32) -> bool {
    &&& state & STATE_UNAVAILABLE == 0
    &&& (include_offscreen || state & STATE_OFFSCREEN == 0)
    &&& (include_offscreen || state & STATE_INVISIBLE == 0)
    &&& width >= 2 && height >= 2
    &&& !((role == ROLE_STATICTEXT || role == ROLE_GRAPHIC) && width * height > 400 * 400)
    &&& role_kind_spec(role) is Some
}

/// Whether an MSAA node becomes a hint.
pub fn should_take_node(role: i32, state: i32, opts: &EnumOptions, width: i32, height: i32) -> (r: bool)
    requires
        (role == ROLE_STATICTEXT || role == ROLE_GRAPHIC) && width >= 2 && height >= 2
            ==> width * height <= i32::MAX,
    ensures
        r == take_node_spec(role, state, opts.include_offscreen, width, height),
{
    if (state & STATE_UNAVAILABLE) != 0 {
        return false;
    }
    if !opts.include_offscreen && (state & STATE_OFFSCREEN) != 0 {
        return false;
    }
    if !opts.include_offscreen && (state & STATE_INVISIBLE) != 0 {
        return false;
    }
    if width < 2 || height < 2 {
        return false;
    }
    if (role == ROLE_STATICTEXT || role == ROLE_GRAPHIC) && width * height > 400 * 400 {
        return false;
    }
    role_to_kind(role).is_some()
}

/// The hint an MSAA node yields, if any. `next_id` is the number of hints found so far:
/// MSAA hints are numbered in walk order.
pub open spec fn msaa_node_spec(role: i32, state: i32, loc: Option<Rect>, include_offscreen: bool, next_id: u64) -> Option<RawHint> {
    match loc {
        Some(b) => if b.w >= 1 && b.h >= 1 && take_node_spec(role, state, include_offscreen, b.w, b.h) {
            Some(RawHint {
                element_id: next_id,
                uia_runtime_id_fp: None,
                uia_invoke_hwnd: None,
                uia_child_index: None,
                bounds: b,
                anchor_px: None,
                kind: role_kind_spec(role).unwrap(),
                name: None,
                backend: Backend::Msaa,
            })
        } else {
            None
        },
        None => None,
    }
}

/// The hint an MSAA node yields. `loc` is its location when it could be read; `role`
/// and `state` default to `-1` and `0` when they could not.
pub fn msaa_node_hint(role: i32, state: i32, loc: Option<Rect>, opts: &EnumOptions, next_id: u64) -> (r: Option<RawHint>)
    requires
        loc matches Some(b) ==> ((role == ROLE_STATICTEXT || role == ROLE_GRAPHIC) && b.w >= 2
            && b.h >= 2 ==> b.w * b.h <= i32::MAX),
    ensures
        r == msaa_node_spec(role, state, loc, opts.include_offscreen, next_id),
{
    match loc {
        Some(b) => {
            if b.w >= 1 && b.h >= 1 && should_take_node(role, state, opts, b.w, b.h) {
                let kind = match role_to_kind(role) {
                    Some(k) => k,
                    None => ElementKind::GenericClickable,
                };
                Some(RawHint {
                    element_id: next_id,
                    uia_runtime_id_fp: None,
                    uia_invoke_hwnd: None,
                    uia_child_index: None,
                    bounds: b,
                    anchor_px: None,
                    kind,
                    name: None,
                    backend: Backend::Msaa,
                })
            } else {
                None
            }
        },
        None => None,
    }
}

/// A rectangle from left/top/right/bottom edges; `None` when it has no area.
pub open spec fn rect_from_edges_spec(l: i32, t: i32, r: i32, b: i32) -> Option<Rect> {
    let w = crate::geom::saturate_i32(r - l);
    let h = crate::geom::saturate_i32(b - t);
    if w <= 0 || h <= 0 {
        None
    } else {
        Some(Rect { x: l, y: t, w: w as i32, h: h as i32 })
    }
}

/// `a - b`, saturating at the `i32` bounds.
pub fn saturating_sub_i32(a: i32, b: i32) -> (r: i32)
    ensures
        r == crate::geom::saturate_i32(a - b),
{
    let d = (a as i64) - (b as i64);
    if d > i32::MAX as i64 {
        i32::MAX
    } else if d < i32::MIN as i64 {
        i32::MIN
    } else {
        d as i32
    }
}

/// Converts a bounding rectangle given by its edges into a [`Rect`]; `None` when empty.
pub fn rect_from_uia_bounds(left: i32, top: i32, right: i32, bottom: i32) -> (r: Option<Rect>)
    ensures
        r == rect_from_edges_spec(left, top, right, bottom),
{
    let w = saturating_sub_i32(right, left);
    let h = saturating_sub_i32(bottom, top);
    if w <= 0 || h <= 0 {
        return None;
    }
    Some(Rect { x: left, y: top, w, h })
}

/// What the child-window walk does with one child.
pub enum ChildStep {
    /// The cap is reached: stop the walk.
    Stop,
    /// Skip this child and go on.
    Skip,
    /// Add this hint and go on.
    Push(RawHint),
}

/// The child-window walk's decision for one child, given what was read of it.
pub open spec fn child_step_spec(
    found: usize,
    max: usize,
    is_root: bool,
    visible: bool,
    enabled: bool,
    hwnd: usize,
    edges: Option<(i32, i32, i32, i32)>,
) -> Option<Option<Rect>> {
    if found >= max {
        None
    } else if is_root || !visible || !enabled {
        Some(None)
    } else {
        match edges {
            None => Some(None),
            Some(e) => {
                let w = crate::geom::saturate_i32(e.2 - e.0);
                let h = crate::geom::saturate_i32(e.3 - e.1);
                if w < 4 || h < 4 {
                    Some(None)
                } else {
                    Some(Some(Rect { x: e.0, y: e.1, w: w as i32, h: h as i32 }))
                }
            },
        }
    }
}

/// One step of the child-window walk: the cap, visibility, enabled state and a minimum
/// size of 4x4 decide; a kept child is a generic clickable hint anchored by
/// [`fallback_anchor_px`] and numbered by the hints found so far.
pub fn enum_child_step(
    found: usize,
    max: usize,
    is_root: bool,
    visible: bool,
    enabled: bool,
    hwnd: usize,
    edges: Option<(i32, i32, i32, i32)>,
) -> (r: ChildStep)
    requires
        edges matches Some(e) ==> anchor_fits(
            Rect { x: e.0, y: e.1, w: crate::geom::saturate_i32(e.2 - e.0) as i32, h: crate::geom::saturate_i32(e.3 - e.1) as i32 },
            ElementKind::GenericClickable),
    ensures
        match child_step_spec(found, max, is_root, visible, enabled, hwnd, edges) {
            None => r is Stop,
            Some(None) => r is Skip,
            Some(Some(b)) => r matches ChildStep::Push(h) && h == (RawHint {
                element_id: found as u64,
                uia_runtime_id_fp: None,
                uia_invoke_hwnd: Some(hwnd),
                uia_child_index: None,
                bounds: b,
                anchor_px: Some((fallback_anchor_spec(b, ElementKind::GenericClickable).0 as i32,
                    fallback_anchor_spec(b, ElementKind::GenericClickable).1 as i32)),
                kind: ElementKind::GenericClickable,
                name: None,
                backend: Backend::RawHwnd,
            }),
        },
{
    if found >= max {
        return ChildStep::Stop;
    }
    if is_root || !visible || !enabled {
        return ChildStep::Skip;
    }
    match edges {
        None => ChildStep::Skip,
        Some((l, t, rr, bb)) => {
            let w = saturating_sub_i32(rr, l);
            let h = saturating_sub_i32(bb, t);
            if w < 4 || h < 4 {
                return ChildStep::Skip;
            }
            let b = Rect { x: l, y: t, w, h };
            let anchor = fallback_anchor_px(b, ElementKind::GenericClickable);
            ChildStep::Push(RawHint {
                element_id: found as u64,
                uia_runtime_id_fp: None,
                uia_invoke_hwnd: Some(hwnd),
                uia_child_index: None,
                bounds: b,
                anchor_px: Some(anchor),
                kind: ElementKind::GenericClickable,
                name: None,
                backend: Backend::RawHwnd,
            })
        },
    }
}

} // verus!
