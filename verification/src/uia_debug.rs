//! Diagnostics of an enumeration pass: rejected nodes and pipeline counters.

use vstd::prelude::*;
use crate::geom::Rect;
use crate::hint::ElementKind;

verus! {

/// A node that matched the provider filter but was dropped during collection.
#[derive(Debug, PartialEq, Eq)]
pub struct UiaDebugReject {
    /// Bounding rectangle when known (physical screen pixels).
    pub bounds: Option<Rect>,
    /// Short machine reason (`no_interaction`, `disabled`, `outside_root_window`, ...).
    pub reason: String,
}

impl Clone for UiaDebugReject {
    fn clone(&self) -> (r: Self)
        ensures
            r == *self,
    {
        UiaDebugReject { bounds: self.bounds, reason: self.reason.clone() }
    }
}

/// Pipeline counters of one collection pass.
#[derive(Clone, Copy, Debug, PartialEq, Eq, Structural)]
pub struct UiaCoverageStats {
    pub raw_nodes: usize,
    pub clickable_candidates: usize,
    /// Passed the enabled and on-screen gates.
    pub visible: usize,
    /// Passed the geometry filters.
    pub after_filter: usize,
    pub final_hints: usize,
    pub kind_invoke: usize,
    pub kind_toggle: usize,
    pub kind_select: usize,
    pub kind_expand: usize,
    pub kind_editable: usize,
    pub kind_generic: usize,
}

impl UiaCoverageStats {
    /// All counters zero.
    pub fn new() -> (r: Self)
        ensures
            r.is_zero(),
    {
        UiaCoverageStats {
            raw_nodes: 0,
            clickable_candidates: 0,
            visible: 0,
            after_filter: 0,
            final_hints: 0,
            kind_invoke: 0,
            kind_toggle: 0,
            kind_select: 0,
            kind_expand: 0,
            kind_editable: 0,
            kind_generic: 0,
        }
    }

    pub open spec fn is_zero(self) -> bool {
        &&& self.raw_nodes == 0
        &&& self.clickable_candidates == 0
        &&& self.visible == 0
        &&& self.after_filter == 0
        &&& self.final_hints == 0
        &&& self.kind_invoke == 0
        &&& self.kind_toggle == 0
        &&& self.kind_select == 0
        &&& self.kind_expand == 0
        &&& self.kind_editable == 0
        &&& self.kind_generic == 0
    }

    /// The sum of the per-kind counters.
    pub open spec fn kind_total(self) -> int {
        self.kind_invoke + self.kind_toggle + self.kind_select + self.kind_expand
            + self.kind_editable + self.kind_generic
    }

    /// The counters after one more kept element of kind `k`.
    pub open spec fn count_kind(self, k: ElementKind) -> Self {
        match k {
            ElementKind::Invoke => UiaCoverageStats { kind_invoke: (self.kind_invoke + 1) as usize, ..self },
            ElementKind::Toggle => UiaCoverageStats { kind_toggle: (self.kind_toggle + 1) as usize, ..self },
            ElementKind::Select => UiaCoverageStats { kind_select: (self.kind_select + 1) as usize, ..self },
            ElementKind::ExpandCollapse => UiaCoverageStats { kind_expand: (self.kind_expand + 1) as usize, ..self },
            ElementKind::Editable => UiaCoverageStats { kind_editable: (self.kind_editable + 1) as usize, ..self },
            ElementKind::GenericClickable => UiaCoverageStats { kind_generic: (self.kind_generic + 1) as usize, ..self },
        }
    }
}

impl Default for UiaCoverageStats {
    fn default() -> (r: Self)
        ensures
            r.is_zero(),
    {
        UiaCoverageStats::new()
    }
}

} // verus!
