//! Materializing UI Automation search results into hints: the per-node filters, the
//! pipeline counters, and the choices of the baseline enumerator.
//!
//! The caller reads each element; these functions decide what it yields.

use vstd::prelude::*;
use crate::fallback::{rect_from_edges_spec, rect_from_uia_bounds};
use crate::geom::{Rect, tdiv};
use crate::hint::{Backend, ElementKind, RawHint};
use crate::uia_debug::{UiaCoverageStats, UiaDebugReject};
use crate::uia_options::{EnumOptions, EnumerationProfile};

verus! {

/// Descendant count at or above which the root's child windows may be enumerated apart.
pub const PARALLEL_DESCENDANT_MIN: i32 = 512;
/// Distinct child-window subtrees needed before they are enumerated apart.
pub const MIN_PARALLEL_HWND_SUBTREES: usize = 2;
/// Smallest kept width and height (px).
pub const MIN_TARGET_SIDE: i32 = 6;

/// What was read of one element of a search result (`None` where a read failed).
#[derive(Clone, Debug)]
pub struct NodeFacts {
    /// Interaction kind, see [`crate::pattern::classify_interaction_kind`].
    pub kind: Option<ElementKind>,
    pub enabled: Option<bool>,
    pub offscreen: Option<bool>,
    /// Bounding rectangle as left, top, right, bottom.
    pub bounds_edges: Option<(i32, i32, i32, i32)>,
    /// Element name; `None` when unreadable or empty.
    pub name: Option<String>,
    /// Fingerprint of the runtime id, when it could be read.
    pub runtime_id_fp: Option<u64>,
}

/// Where a search result comes from.
#[derive(Clone, Copy, Debug)]
pub struct CollectScope {
    /// The session root window's rectangle (left, top, right, bottom); `None` when the root
    /// is invalid or its rectangle could not be read.
    pub root_window: Option<(i32, i32, i32, i32)>,
    /// Native window the search started from, for hints found in a child-window subtree.
    pub scope_hwnd: Option<usize>,
    /// Direct-child index of the root the search started from.
    pub child_index: Option<u32>,
    /// Client area of the root when hints are clipped to it.
    pub client_clip: Option<Rect>,
}

/// The element's rectangle when it can be read and has area.
pub open spec fn node_rect(f: NodeFacts) -> Option<Rect> {
    match f.bounds_edges {
        Some(e) => rect_from_edges_spec(e.0, e.1, e.2, e.3),
        None => None,
    }
}

/// The rectangle's center lies in the root window (or the root window is unknown).
pub open spec fn center_in_root(r: Rect, root: Option<(i32, i32, i32, i32)>) -> bool {
    match root {
        None => true,
        Some(w) => {
            let cx = r.x + tdiv(r.w as int, 2);
            let cy = r.y + tdiv(r.h as int, 2);
            w.0 <= cx < w.2 && w.1 <= cy < w.3
        },
    }
}

/// How far a node gets through the filters, and why it stops:
/// `(stage, reason, bounds)`, stage `0` = no interaction, `1` = disabled or off-screen,
/// `2` = geometry, `3` = kept.
pub open spec fn node_verdict(f: NodeFacts, opts: EnumOptions, scope: CollectScope) -> (int, Seq<char>, Option<Rect>) {
    if f.kind is None {
        (0, "no_interaction"@, node_rect(f))
    } else if !opts.include_disabled && f.enabled == Some(false) {
        (1, "disabled"@, node_rect(f))
    } else if !opts.include_disabled && f.enabled is None {
        (1, "enabled_err"@, node_rect(f))
    } else if !opts.include_offscreen && f.offscreen == Some(true) {
        (1, "offscreen"@, node_rect(f))
    } else if f.bounds_edges is None {
        (2, "bounds_err"@, None)
    } else if node_rect(f) is None {
        (2, "no_or_zero_rect"@, None)
    } else if node_rect(f).unwrap().w < MIN_TARGET_SIDE || node_rect(f).unwrap().h < MIN_TARGET_SIDE {
        (2, "tiny_rect"@, None)
    } else if !center_in_root(node_rect(f).unwrap(), scope.root_window) {
        (2, "outside_root_window"@, node_rect(f))
    } else if scope.client_clip matches Some(c) && !node_rect(f).unwrap().intersects_spec(c) {
        (2, "outside_client_clip"@, node_rect(f))
    } else {
        (3, Seq::empty(), node_rect(f))
    }
}

/// The hint a kept node becomes (`index` is its position in the search result).
pub open spec fn node_hint(index: i32, f: NodeFacts, opts: EnumOptions, scope: CollectScope) -> RawHint {
    RawHint {
        element_id: index as u64,
        uia_runtime_id_fp: if opts.profile == EnumerationProfile::Full { f.runtime_id_fp } else { None },
        uia_invoke_hwnd: scope.scope_hwnd,
        uia_child_index: if scope.scope_hwnd is None { scope.child_index } else { None },
        bounds: node_rect(f).unwrap(),
        anchor_px: None,
        kind: f.kind.unwrap(),
        name: f.name,
        backend: Backend::Uia,
    }
}

/// The counters are consistent: each filter stage counts no more than the one before,
/// and the per-kind counters add up to the kept hints.
pub open spec fn coverage_consistent(c: UiaCoverageStats) -> bool {
    &&& c.final_hints <= c.after_filter <= c.visible <= c.clickable_candidates
    &&& c.kind_total() == c.final_hints
}

/// The counters after a node that reached `stage` with kind `k`.
pub open spec fn coverage_after(c: UiaCoverageStats, stage: int, k: ElementKind) -> UiaCoverageStats {
    if stage == 0 {
        c
    } else if stage == 1 {
        UiaCoverageStats { clickable_candidates: (c.clickable_candidates + 1) as usize, ..c }
    } else if stage == 2 {
        UiaCoverageStats {
            clickable_candidates: (c.clickable_candidates + 1) as usize,
            visible: (c.visible + 1) as usize,
            ..c
        }
    } else {
        UiaCoverageStats {
            clickable_candidates: (c.clickable_candidates + 1) as usize,
            visible: (c.visible + 1) as usize,
            after_filter: (c.after_filter + 1) as usize,
            final_hints: (c.final_hints + 1) as usize,
            ..c
        }.count_kind(k)
    }
}

fn reject_text(s: &str) -> (r: String)
    ensures
        r@ == s@,
{
    s.to_owned()
}

/// Filters one element of a search result: a kept element is appended to `out`, a
/// dropped one is recorded in `rejects` when the debug overlay is on; the counters
/// advance by the stages the element passed.
pub fn collect_node(
    index: i32,
    facts: NodeFacts,
    opts: &EnumOptions,
    scope: &CollectScope,
    out: &mut Vec<RawHint>,
    rejects: &mut Vec<UiaDebugReject>,
    cov: &mut UiaCoverageStats,
)
    requires
        index >= 0,
        coverage_consistent(*old(cov)),
        old(cov).clickable_candidates < usize::MAX,
    ensures
        ({
            let v = node_verdict(facts, *opts, *scope);
            &&& v.0 == 3 ==> final(out)@ == old(out)@.push(node_hint(index, facts, *opts, *scope))
                && final(rejects)@ == old(rejects)@
            &&& v.0 != 3 ==> final(out)@ == old(out)@
            &&& v.0 != 3 && opts.debug_overlay ==> final(rejects)@.len() == old(rejects)@.len() + 1
                && final(rejects)@.drop_last() == old(rejects)@
                && final(rejects)@.last().reason@ == v.1
                && final(rejects)@.last().bounds == v.2
            &&& v.0 != 3 && !opts.debug_overlay ==> final(rejects)@ == old(rejects)@
            &&& *final(cov) == coverage_after(*old(cov), v.0, facts.kind.unwrap_or(ElementKind::GenericClickable))
        }),
        coverage_consistent(*final(cov)),
{
    let rect = match facts.bounds_edges {
        Some((l, t, r, b)) => rect_from_uia_bounds(l, t, r, b),
        None => None,
    };
    let ghost v = node_verdict(facts, *opts, *scope);
    let kind = match facts.kind {
        Some(k) => k,
        None => {
            if opts.debug_overlay {
                rejects.push(UiaDebugReject { bounds: rect, reason: reject_text("no_interaction") });
            }
            return;
        },
    };
    cov.clickable_candidates = cov.clickable_candidates + 1;
    if !opts.include_disabled {
        match facts.enabled {
            Some(false) => {
                if opts.debug_overlay {
                    rejects.push(UiaDebugReject { bounds: rect, reason: reject_text("disabled") });
                }
                return;
            },
            None => {
                if opts.debug_overlay {
                    rejects.push(UiaDebugReject { bounds: rect, reason: reject_text("enabled_err") });
                }
                return;
            },
            Some(true) => {},
        }
    }
    if !opts.include_offscreen {
        match facts.offscreen {
            Some(true) => {
                if opts.debug_overlay {
                    rejects.push(UiaDebugReject { bounds: rect, reason: reject_text("offscreen") });
                }
                return;
            },
            _ => {},
        }
    }
    cov.visible = cov.visible + 1;
    let r = match facts.bounds_edges {
        None => {
            if opts.debug_overlay {
                rejects.push(UiaDebugReject { bounds: None, reason: reject_text("bounds_err") });
            }
            return;
        },
        Some(_) => match rect {
            None => {
                if opts.debug_overlay {
                    rejects.push(UiaDebugReject { bounds: None, reason: reject_text("no_or_zero_rect") });
                }
                return;
            },
            Some(r) => {
                if r.w < MIN_TARGET_SIDE || r.h < MIN_TARGET_SIDE {
                    if opts.debug_overlay {
                        rejects.push(UiaDebugReject { bounds: None, reason: reject_text("tiny_rect") });
                    }
                    return;
                }
                r
            },
        },
    };
    let inside = match scope.root_window {
        None => true,
        Some((wl, wt, wr, wb)) => {
            let cx = (r.x as i64) + (r.w as i64) / 2;
            let cy = (r.y as i64) + (r.h as i64) / 2;
            cx >= wl as i64 && cx < wr as i64 && cy >= wt as i64 && cy < wb as i64
        },
    };
    if !inside {
        if opts.debug_overlay {
            rejects.push(UiaDebugReject { bounds: Some(r), reason: reject_text("outside_root_window") });
        }
        return;
    }
    match scope.client_clip {
        Some(clip) => {
            if !r.intersects(clip) {
                if opts.debug_overlay {
                    rejects.push(UiaDebugReject { bounds: Some(r), reason: reject_text("outside_client_clip") });
                }
                return;
            }
        },
        None => {},
    }
    cov.after_filter = cov.after_filter + 1;
    cov.final_hints = cov.final_hints + 1;
    match kind {
        ElementKind::Invoke => { cov.kind_invoke = cov.kind_invoke + 1; },
        ElementKind::Toggle => { cov.kind_toggle = cov.kind_toggle + 1; },
        ElementKind::Select => { cov.kind_select = cov.kind_select + 1; },
        ElementKind::ExpandCollapse => { cov.kind_expand = cov.kind_expand + 1; },
        ElementKind::Editable => { cov.kind_editable = cov.kind_editable + 1; },
        ElementKind::GenericClickable => { cov.kind_generic = cov.kind_generic + 1; },
    }
    let fp = if opts.profile == EnumerationProfile::Full { facts.runtime_id_fp } else { None };
    let child_index = match scope.scope_hwnd {
        None => scope.child_index,
        Some(_) => None,
    };
    out.push(RawHint {
        element_id: index as u64,
        uia_runtime_id_fp: fp,
        uia_invoke_hwnd: scope.scope_hwnd,
        uia_child_index: child_index,
        bounds: r,
        anchor_px: None,
        kind,
        name: facts.name,
        backend: Backend::Uia,
    });
}

/// The materialization loop stops once `max_elements` hints are kept, or once a positive
/// time budget (ms) is used up (`elapsed_us` microseconds so far).
pub open spec fn collect_stops_spec(found: int, max: int, budget_ms: int, elapsed_us: int) -> bool {
    (budget_ms > 0 && elapsed_us >= budget_ms * 1000) || found >= max
}

/// Whether the materialization loop stops before the next element.
pub fn collect_should_stop(found: usize, max: usize, budget_ms: u64, elapsed_us: u64) -> (r: bool)
    ensures
        r == collect_stops_spec(found as int, max as int, budget_ms as int, elapsed_us as int),
{
    (budget_ms > 0 && (elapsed_us as u128) >= (budget_ms as u128) * 1000) || found >= max
}

/// Options of the cheap children-only pass: its own materialization budget, capped by the
/// overall one.
pub fn shallow_options(opts: &EnumOptions) -> (r: EnumOptions)
    ensures
        r == (EnumOptions {
            materialize_hard_budget_ms: if opts.uia_shallow_materialize_budget_ms <= opts.materialize_hard_budget_ms {
                opts.uia_shallow_materialize_budget_ms
            } else {
                opts.materialize_hard_budget_ms
            },
            ..*opts
        }),
{
    let m = if opts.uia_shallow_materialize_budget_ms <= opts.materialize_hard_budget_ms {
        opts.uia_shallow_materialize_budget_ms
    } else {
        opts.materialize_hard_budget_ms
    };
    EnumOptions { materialize_hard_budget_ms: m, ..*opts }
}

/// The children-only pass found enough hints to skip the deep search.
pub fn shallow_pass_suffices(found: usize, opts: &EnumOptions) -> (r: bool)
    ensures
        r == (found >= opts.uia_shallow_min_targets),
{
    found >= opts.uia_shallow_min_targets
}

/// The deep search result is large and cached, and parallel enumeration is allowed: try
/// enumerating the root's child-window subtrees apart.
pub fn consider_subtree_split(root_cached: bool, descendants: i32, opts: &EnumOptions) -> (r: bool)
    ensures
        r == (root_cached && descendants >= PARALLEL_DESCENDANT_MIN && !opts.disable_uia_parallel),
{
    root_cached && descendants >= PARALLEL_DESCENDANT_MIN && !opts.disable_uia_parallel
}

/// Child windows of the root, each once in first-seen order, and the indices of children
/// without a window of their own.
pub open spec fn partition_spec(kids: Seq<Option<usize>>, root: usize) -> (Seq<usize>, Seq<i32>)
    decreases kids.len(),
{
    if kids.len() == 0 {
        (Seq::empty(), Seq::empty())
    } else {
        let (hw, none) = partition_spec(kids.drop_last(), root);
        match kids.last() {
            Some(h) => if h != 0 && h != root {
                if hw.contains(h) { (hw, none) } else { (hw.push(h), none) }
            } else {
                (hw, none.push((kids.len() - 1) as i32))
            },
            None => (hw, none.push((kids.len() - 1) as i32)),
        }
    }
}

/// Splits the root's children into distinct child-window subtrees and children without a
/// window (by index). `kids[j]` is the native window of child `j`, if it could be read.
pub fn partition_children(kids: &Vec<Option<usize>>, root: usize) -> (r: (Vec<usize>, Vec<i32>))
    requires
        kids.len() <= i32::MAX,
    ensures
        (r.0@, r.1@) == partition_spec(kids@, root),
{
    let mut hw: Vec<usize> = Vec::new();
    let mut none: Vec<i32> = Vec::new();
    let mut j: usize = 0;
    while j < kids.len()
        invariant
            kids.len() <= i32::MAX,
            j <= kids.len(),
            (hw@, none@) == partition_spec(kids@.take(j as int), root),
        decreases kids.len() - j,
    {
        proof {
            assert(kids@.take(j as int + 1).drop_last() =~= kids@.take(j as int));
            assert(kids@.take(j as int + 1).last() == kids@[j as int]);
        }
        match kids[j] {
            Some(h) => {
                if h != 0 && h != root {
                    let mut seen = false;
                    let mut k: usize = 0;
                    while k < hw.len()
                        invariant
                            k <= hw.len(),
                            seen == exists|m: int| 0 <= m < k && hw@[m] == h,
                        decreases hw.len() - k,
                    {
                        if hw[k] == h {
                            seen = true;
                        }
                        k += 1;
                    }
                    proof {
                        assert(seen == hw@.contains(h));
                    }
                    if !seen {
                        hw.push(h);
                    }
                } else {
                    none.push(j as i32);
                }
            },
            None => {
                none.push(j as i32);
            },
        }
        j += 1;
    }
    proof {
        assert(kids@.take(kids.len() as int) =~= kids@);
    }
    (hw, none)
}

/// Enough distinct child-window subtrees to enumerate them apart.
pub fn enough_subtrees(n: usize) -> (r: bool)
    ensures
        r == (n >= MIN_PARALLEL_HWND_SUBTREES),
{
    n >= MIN_PARALLEL_HWND_SUBTREES
}

/// Reading order: top to bottom, then left to right, then (when `by_id`) by element id.
pub open spec fn pos_le(a: RawHint, b: RawHint, by_id: bool) -> bool {
    ||| a.bounds.y < b.bounds.y
    ||| a.bounds.y == b.bounds.y && a.bounds.x < b.bounds.x
    ||| a.bounds.y == b.bounds.y && a.bounds.x == b.bounds.x && (!by_id || a.element_id <= b.element_id)
}

/// `s` with `h` inserted after every row that does not come after it.
pub open spec fn insert_by_pos(s: Seq<RawHint>, h: RawHint, by_id: bool) -> Seq<RawHint>
    decreases s.len(),
{
    if s.len() == 0 {
        seq![h]
    } else if pos_le(s.last(), h, by_id) {
        s.push(h)
    } else {
        insert_by_pos(s.drop_last(), h, by_id).push(s.last())
    }
}

/// Stable sort into reading order.
pub open spec fn sort_by_pos(s: Seq<RawHint>, by_id: bool) -> Seq<RawHint>
    decreases s.len(),
{
    if s.len() == 0 {
        s
    } else {
        insert_by_pos(sort_by_pos(s.drop_last(), by_id), s.last(), by_id)
    }
}

/// Rows in reading order.
pub open spec fn pos_sorted(s: Seq<RawHint>, by_id: bool) -> bool {
    forall|i: int, j: int| 0 <= i < j < s.len() ==> pos_le(#[trigger] s[i], #[trigger] s[j], by_id)
}

proof fn lemma_insert_by_pos(s: Seq<RawHint>, h: RawHint, by_id: bool, pos: int)
    requires
        0 <= pos <= s.len(),
        forall|k: int| 0 <= k < pos ==> pos_le(#[trigger] s[k], h, by_id),
        forall|k: int| pos <= k < s.len() ==> !pos_le(#[trigger] s[k], h, by_id),
    ensures
        insert_by_pos(s, h, by_id) == s.insert(pos, h),
    decreases s.len(),
{
    if s.len() == 0 {
        assert(s.insert(pos, h) =~= seq![h]);
    } else if pos_le(s.last(), h, by_id) {
        assert(pos == s.len());
        assert(s.insert(pos, h) =~= s.push(h));
    } else {
        let t = s.drop_last();
        assert forall|k: int| 0 <= k < pos implies pos_le(#[trigger] t[k], h, by_id) by {
            assert(t[k] == s[k]);
        }
        assert forall|k: int| pos <= k < t.len() implies !pos_le(#[trigger] t[k], h, by_id) by {
            assert(t[k] == s[k]);
        }
        lemma_insert_by_pos(t, h, by_id, pos);
        assert(t.insert(pos, h).push(s.last()) =~= s.insert(pos, h));
    }
}

/// Stable sort of `rows` into reading order.
pub fn sort_rows_by_pos(rows: Vec<RawHint>, by_id: bool) -> (sorted: Vec<RawHint>)
    ensures
        sorted@ == sort_by_pos(rows@, by_id),
        pos_sorted(sorted@, by_id),
{
    let mut sorted: Vec<RawHint> = Vec::new();
    let mut i: usize = 0;
    while i < rows.len()
        invariant
            i <= rows@.len(),
            sorted@ == sort_by_pos(rows@.take(i as int), by_id),
            pos_sorted(sorted@, by_id),
        decreases rows@.len() - i,
    {
        let h = rows[i].clone();
        let mut pos = sorted.len();
        while pos > 0 && !row_pos_le(&sorted[pos - 1], &h, by_id)
            invariant
                pos <= sorted@.len(),
                pos_sorted(sorted@, by_id),
                forall|k: int| pos <= k < sorted@.len() ==> !pos_le(#[trigger] sorted@[k], h, by_id),
            decreases pos,
        {
            pos -= 1;
        }
        proof {
            assert forall|k: int| 0 <= k < pos implies pos_le(#[trigger] sorted@[k], h, by_id) by {
                if k < pos - 1 {
                    assert(pos_le(sorted@[k], sorted@[pos - 1], by_id));
                }
            }
            lemma_insert_by_pos(sorted@, h, by_id, pos as int);
            assert(rows@.take(i as int + 1).drop_last() =~= rows@.take(i as int));
            assert(rows@.take(i as int + 1).last() == rows@[i as int]);
        }
        let ghost before = sorted@;
        sorted.insert(pos, h);
        proof {
            assert forall|x: int, y: int| 0 <= x < y < sorted@.len() implies pos_le(#[trigger] sorted@[x], #[trigger] sorted@[y], by_id) by {
                if y < pos {
                    assert(sorted@[x] == before[x] && sorted@[y] == before[y]);
                } else if y == pos {
                    assert(sorted@[x] == before[x]);
                } else if x > pos {
                    assert(sorted@[x] == before[x - 1] && sorted@[y] == before[y - 1]);
                } else if x == pos {
                    assert(sorted@[y] == before[y - 1]);
                } else {
                    assert(sorted@[x] == before[x] && sorted@[y] == before[y - 1]);
                }
            }
        }
        i += 1;
    }
    proof {
        assert(rows@.take(i as int) =~= rows@);
    }
    sorted
}

fn row_pos_le(a: &RawHint, b: &RawHint, by_id: bool) -> (r: bool)
    ensures
        r == pos_le(*a, *b, by_id),
{
    a.bounds.y < b.bounds.y || (a.bounds.y == b.bounds.y && a.bounds.x < b.bounds.x)
        || (a.bounds.y == b.bounds.y && a.bounds.x == b.bounds.x && (!by_id || a.element_id <= b.element_id))
}

/// `a` followed by `b`, sorted into reading order, cut to `max` rows.
pub open spec fn merge_sorted_spec(a: Seq<RawHint>, b: Seq<RawHint>, by_id: bool, max: int) -> Seq<RawHint> {
    let s = sort_by_pos(a + b, by_id);
    if s.len() <= max { s } else { s.take(max) }
}

/// Appends `more` to `rows`, sorts the whole into reading order (stable) and keeps the
/// first `max` rows.
pub fn merge_in_reading_order(rows: Vec<RawHint>, more: Vec<RawHint>, by_id: bool, max: usize) -> (r: Vec<RawHint>)
    ensures
        r@ == merge_sorted_spec(rows@, more@, by_id, max as int),
        pos_sorted(r@, by_id),
        r@.len() <= max,
{
    let mut all = rows;
    let mut more = more;
    all.append(&mut more);
    let mut sorted = sort_rows_by_pos(all, by_id);
    sorted.truncate(max);
    proof {
        assert forall|i: int, j: int| 0 <= i < j < sorted@.len() implies pos_le(#[trigger] sorted@[i], #[trigger] sorted@[j], by_id) by {}
    }
    sorted
}

/// Concatenates the hints of each child-window subtree, then the hints of the children
/// without a window, sorts them into reading order (ties by element id) and keeps the
/// first `max`.
pub fn merge_subtree_hints(parts: Vec<Vec<RawHint>>, tail: Vec<RawHint>, max: usize) -> (r: Vec<RawHint>)
    ensures
        r@ == merge_sorted_spec(parts@.map_values(|p: Vec<RawHint>| p@).flatten(), tail@, true, max as int),
        r@.len() <= max,
{
    let mut flat: Vec<RawHint> = Vec::new();
    let mut i: usize = 0;
    let ghost ps = parts@.map_values(|p: Vec<RawHint>| p@);
    while i < parts.len()
        invariant
            i <= parts.len(),
            ps == parts@.map_values(|p: Vec<RawHint>| p@),
            flat@ == ps.take(i as int).flatten(),
        decreases parts.len() - i,
    {
        let mut j: usize = 0;
        let ghost base = flat@;
        while j < parts[i].len()
            invariant
                i < parts.len(),
                j <= parts@[i as int].len(),
                flat@ == base + parts@[i as int]@.take(j as int),
            decreases parts@[i as int].len() - j,
        {
            flat.push(parts[i][j].clone());
            proof {
                assert(parts@[i as int]@.take(j as int + 1) =~= parts@[i as int]@.take(j as int).push(parts@[i as int]@[j as int]));
            }
            j += 1;
        }
        proof {
            assert(parts@[i as int]@.take(j as int) =~= parts@[i as int]@);
            assert(ps.take(i as int + 1) =~= ps.take(i as int).push(parts@[i as int]@));
            ps.take(i as int).lemma_flatten_push(parts@[i as int]@);
        }
        i += 1;
    }
    proof {
        assert(ps.take(i as int) =~= ps);
    }
    merge_in_reading_order(flat, tail, true, max)
}

/// Some providers refuse to build a cache holding the Invoke pattern ("Pattern not found");
/// the search is then repeated without a cache.
pub open spec fn cache_build_refused_spec(err_text: Seq<char>) -> bool {
    ||| crate::text::has_substring(err_text, "Pattern not found"@)
    ||| crate::text::has_substring(err_text, "0x80040201"@)
    ||| crate::text::has_substring(err_text, "0x802A0105"@)
    ||| crate::text::has_substring(err_text, "PATTERNNOTFOUND"@)
}

/// Whether a cached search failed because the provider refused the pattern cache (by the
/// error's text), in which case an uncached search is tried.
pub fn is_pattern_cache_build_failure(err_text: &str) -> (b: bool)
    ensures
        b == cache_build_refused_spec(err_text@),
{
    crate::text::str_contains(err_text, "Pattern not found") || crate::text::str_contains(err_text, "0x80040201")
        || crate::text::str_contains(err_text, "0x802A0105") || crate::text::str_contains(err_text, "PATTERNNOTFOUND")
}

/// One line of the diagnose dump for an element: its control type (`0` when unreadable)
/// and its name (`<empty>` when empty).
pub open spec fn element_brief_spec(control_type: i32, name: Seq<char>) -> Seq<char> {
    "control_type="@ + crate::invoke::decimal_text(control_type as int) + " name="@
        + if name.len() == 0 { "<empty>"@ } else { name }
}

/// Describes an element for the diagnose dump.
pub fn element_name_brief(control_type: i32, name: &str) -> (r: String)
    ensures
        r@ == element_brief_spec(control_type, name@),
{
    let mut out = "control_type=".to_owned();
    out.append(crate::invoke::int_text(control_type as i64).as_str());
    out.append(" name=");
    if name.unicode_len() == 0 {
        out.append("<empty>");
    } else {
        out.append(name);
    }
    out
}

} // verus!
