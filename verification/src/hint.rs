//! Hint types: raw enumerations from accessibility backends and labelled hints.

use vstd::prelude::*;
use crate::geom::Rect;

verus! {

/// Index into the current session's hint list.
#[derive(Copy, Clone, Debug, PartialEq, Eq, Hash, Structural)]
pub struct HintId(pub u32);

/// What kind of interaction an element offers.
#[derive(Copy, Clone, Debug, PartialEq, Eq, Hash, Structural)]
pub enum ElementKind {
    Invoke,
    Toggle,
    Select,
    ExpandCollapse,
    Editable,
    GenericClickable,
}

/// Accessibility backend an element was found through.
#[derive(Copy, Clone, Debug, PartialEq, Eq, Hash, Structural)]
pub enum Backend {
    Uia,
    Msaa,
    RawHwnd,
}

/// One actionable region discovered by an enumerator.
#[derive(Debug, PartialEq)]
pub struct RawHint {
    pub element_id: u64,
    /// Fingerprint of the UI Automation runtime id when known (used for deduplication).
    pub uia_runtime_id_fp: Option<u64>,
    /// Native window used as invoke root for this element, when known.
    pub uia_invoke_hwnd: Option<usize>,
    /// Direct-child index of the session root used to re-locate the element, when known.
    pub uia_child_index: Option<u32>,
    pub bounds: Rect,
    /// Physical-screen point this hint refers to (clickable point when known).
    pub anchor_px: Option<(i32, i32)>,
    pub kind: ElementKind,
    pub name: Option<String>,
    pub backend: Backend,
}

impl Clone for RawHint {
    fn clone(&self) -> (r: Self)
        ensures
            r == *self,
    {
        let name = match &self.name {
            Some(n) => Some(n.clone()),
            None => None,
        };
        RawHint {
            element_id: self.element_id,
            uia_runtime_id_fp: self.uia_runtime_id_fp,
            uia_invoke_hwnd: self.uia_invoke_hwnd,
            uia_child_index: self.uia_child_index,
            bounds: self.bounds,
            anchor_px: self.anchor_px,
            kind: self.kind,
            name,
            backend: self.backend,
        }
    }
}

/// A [`RawHint`] plus its assigned label.
#[derive(Debug)]
pub struct Hint {
    pub raw: RawHint,
    pub label: String,
}

impl Clone for Hint {
    fn clone(&self) -> (r: Self)
        ensures
            r == *self,
    {
        Hint { raw: self.raw.clone(), label: self.label.clone() }
    }
}

} // verus!
