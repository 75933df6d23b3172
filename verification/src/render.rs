//! Overlay decisions: which monitor shows which pill, when a frame can be skipped, and
//! which show/repaint/hide commands the render worker honours.

use vstd::prelude::*;
use crate::click::{clamp_point_spec, clamp_point_to_bounds, invoke_point_computable, invoke_point_spec,
    resolve_invoke_physical_point};
use crate::geom::Rect;
use crate::hint::Hint;
use crate::uia_debug::UiaDebugReject;

verus! {

/// Whether a frame can skip work or must clear and redraw all pills.
#[derive(Clone, Copy, Debug, PartialEq, Eq, Structural)]
pub enum PaintPlan {
    /// Same pill geometry as last present: skip drawing and presenting.
    NoOp,
    /// Full clear and draw of all pills.
    Full,
}

/// Optional debug drawing of the resolved invoke points.
#[derive(Clone, Copy, Debug, Default, PartialEq, Eq, Structural)]
pub struct PlacementTruthFlags {
    pub target_dot: bool,
    pub target_rect: bool,
    pub distance: bool,
}

/// A monitor rectangle by its edges, in virtual-screen pixels.
#[derive(Clone, Copy, Debug, PartialEq, Eq, Structural)]
pub struct ScreenRect {
    pub left: i32,
    pub top: i32,
    pub right: i32,
    pub bottom: i32,
}

/// `PtInRect`: left and top edges inside, right and bottom edges outside.
pub open spec fn point_in_spec(x: int, y: int, r: ScreenRect) -> bool {
    r.left <= x < r.right && r.top <= y < r.bottom
}

/// Whether `(x, y)` lies in the monitor rectangle `r` (left/top inclusive, right/bottom exclusive).
pub fn physical_point_in_monitor_rect(x: i32, y: i32, r: &ScreenRect) -> (b: bool)
    ensures
        b == point_in_spec(x as int, y as int, *r),
{
    r.left <= x && x < r.right && r.top <= y && y < r.bottom
}

/// The first monitor from index `i` on that holds `(x, y)`, else `0`.
pub open spec fn first_holder_from(x: int, y: int, monitors: Seq<ScreenRect>, i: int) -> int
    decreases monitors.len() - i,
{
    if i < 0 || i >= monitors.len() {
        0
    } else if point_in_spec(x, y, monitors[i]) {
        i
    } else {
        first_holder_from(x, y, monitors, i + 1)
    }
}

/// The index of the monitor a point is shown on: the first that holds it, else `0`.
pub open spec fn monitor_for(x: int, y: int, monitors: Seq<ScreenRect>) -> int {
    first_holder_from(x, y, monitors, 0)
}

/// The monitor a point is shown on: the first that holds it, else the first monitor.
pub fn monitor_index(x: i32, y: i32, monitors: &Vec<ScreenRect>) -> (r: usize)
    ensures
        r == monitor_for(x as int, y as int, monitors@),
        monitors.len() > 0 ==> r < monitors.len(),
{
    let mut i: usize = 0;
    while i < monitors.len()
        invariant
            i <= monitors.len(),
            monitor_for(x as int, y as int, monitors@) == first_holder_from(x as int, y as int, monitors@, i as int),
        decreases monitors.len() - i,
    {
        if physical_point_in_monitor_rect(x, y, &monitors[i]) {
            return i;
        }
        i += 1;
    }
    0
}

/// The hints shown on monitor `i`: those whose top-left corner falls on it, in order.
pub open spec fn hints_on_monitor(hints: Seq<Hint>, monitors: Seq<ScreenRect>, i: int) -> Seq<Hint>
    decreases hints.len(),
{
    if hints.len() == 0 {
        hints
    } else {
        let r = hints_on_monitor(hints.drop_last(), monitors, i);
        let h = hints.last();
        if monitor_for(h.raw.bounds.x as int, h.raw.bounds.y as int, monitors) == i {
            r.push(h)
        } else {
            r
        }
    }
}

/// The number of hints on the first `k` monitors.
pub open spec fn hints_on_first(hints: Seq<Hint>, monitors: Seq<ScreenRect>, k: int) -> int
    decreases k,
{
    if k <= 0 {
        0
    } else {
        hints_on_first(hints, monitors, k - 1) + hints_on_monitor(hints, monitors, k - 1).len()
    }
}

proof fn lemma_first_holder_nonneg(x: int, y: int, monitors: Seq<ScreenRect>, i: int)
    ensures
        first_holder_from(x, y, monitors, i) >= 0,
    decreases monitors.len() - i,
{
    if 0 <= i < monitors.len() && !point_in_spec(x, y, monitors[i]) {
        lemma_first_holder_nonneg(x, y, monitors, i + 1);
    }
}

proof fn lemma_first_holder_range(x: int, y: int, monitors: Seq<ScreenRect>, i: int)
    requires
        monitors.len() > 0,
        0 <= i,
    ensures
        0 <= first_holder_from(x, y, monitors, i) < monitors.len(),
    decreases monitors.len() - i,
{
    if i < monitors.len() && !point_in_spec(x, y, monitors[i]) {
        lemma_first_holder_range(x, y, monitors, i + 1);
    }
}

proof fn lemma_monitor_for_range(x: int, y: int, monitors: Seq<ScreenRect>)
    requires
        monitors.len() > 0,
    ensures
        0 <= monitor_for(x, y, monitors) < monitors.len(),
{
    lemma_first_holder_range(x, y, monitors, 0);
}

proof fn lemma_hints_on_first_push(hints: Seq<Hint>, h: Hint, monitors: Seq<ScreenRect>, k: int)
    requires
        0 <= k,
    ensures
        hints_on_first(hints.push(h), monitors, k) == hints_on_first(hints, monitors, k)
            + if monitor_for(h.raw.bounds.x as int, h.raw.bounds.y as int, monitors) < k { 1int } else { 0int },
    decreases k,
{
    lemma_first_holder_nonneg(h.raw.bounds.x as int, h.raw.bounds.y as int, monitors, 0);
    if k > 0 {
        lemma_hints_on_first_push(hints, h, monitors, k - 1);
        assert(hints.push(h).drop_last() =~= hints);
        assert(hints.push(h).last() == h);
        let i = k - 1;
        let before = hints_on_monitor(hints, monitors, i);
        let after = hints_on_monitor(hints.push(h), monitors, i);
        assert(after.len() == before.len() + if monitor_for(h.raw.bounds.x as int, h.raw.bounds.y as int, monitors) == i { 1int } else { 0int });
    }
}

/// With at least one monitor, every hint is drawn on exactly one monitor: the buckets
/// hold as many hints as there are.
pub proof fn lemma_partition_keeps_every_hint(hints: Seq<Hint>, monitors: Seq<ScreenRect>)
    requires
        monitors.len() > 0,
    ensures
        hints_on_first(hints, monitors, monitors.len() as int) == hints.len(),
    decreases hints.len(),
{
    if hints.len() > 0 {
        let init = hints.drop_last();
        lemma_partition_keeps_every_hint(init, monitors);
        assert(init.push(hints.last()) =~= hints);
        lemma_hints_on_first_push(init, hints.last(), monitors, monitors.len() as int);
        lemma_monitor_for_range(hints.last().raw.bounds.x as int, hints.last().raw.bounds.y as int, monitors);
    } else {
        lemma_empty_buckets(hints, monitors, monitors.len() as int);
    }
}

proof fn lemma_empty_buckets(hints: Seq<Hint>, monitors: Seq<ScreenRect>, k: int)
    requires
        hints.len() == 0,
        k >= 0,
    ensures
        hints_on_first(hints, monitors, k) == 0,
    decreases k,
{
    if k > 0 {
        lemma_empty_buckets(hints, monitors, k - 1);
    }
}

/// Splits hints across monitors by their top-left corner (a corner on no monitor goes to
/// the first one).
pub fn partition_hints(hints: &Vec<Hint>, monitors: &Vec<ScreenRect>) -> (out: Vec<Vec<Hint>>)
    ensures
        out.len() == monitors.len(),
        forall|i: int| 0 <= i < monitors.len() ==> (#[trigger] out@[i])@ == hints_on_monitor(hints@, monitors@, i),
{
    let mut out: Vec<Vec<Hint>> = Vec::new();
    let mut i: usize = 0;
    while i < monitors.len()
        invariant
            i <= monitors.len(),
            out.len() == i,
            forall|k: int| 0 <= k < i ==> (#[trigger] out@[k])@ == hints_on_monitor(hints@, monitors@, k),
        decreases monitors.len() - i,
    {
        let mut bucket: Vec<Hint> = Vec::new();
        let mut j: usize = 0;
        while j < hints.len()
            invariant
                i < monitors.len(),
                j <= hints.len(),
                bucket@ == hints_on_monitor(hints@.take(j as int), monitors@, i as int),
            decreases hints.len() - j,
        {
            proof {
                assert(hints@.take(j as int + 1).drop_last() =~= hints@.take(j as int));
                assert(hints@.take(j as int + 1).last() == hints@[j as int]);
            }
            let h = &hints[j];
            if monitor_index(h.raw.bounds.x, h.raw.bounds.y, monitors) == i {
                bucket.push(h.clone());
            }
            j += 1;
        }
        proof {
            assert(hints@.take(hints.len() as int) =~= hints@);
        }
        out.push(bucket);
        i += 1;
    }
    out
}

/// The rejects drawn on monitor `i`: those with bounds whose center falls on it, in order.
pub open spec fn rejects_on_monitor(rs: Seq<UiaDebugReject>, monitors: Seq<ScreenRect>, i: int) -> Seq<UiaDebugReject>
    decreases rs.len(),
{
    if rs.len() == 0 {
        rs
    } else {
        let acc = rejects_on_monitor(rs.drop_last(), monitors, i);
        match rs.last().bounds {
            Some(b) => if monitor_for(b.center_x(), b.center_y(), monitors) == i { acc.push(rs.last()) } else { acc },
            None => acc,
        }
    }
}

/// The center of a reject's bounds (when it has bounds) lies in the `i32` range.
pub open spec fn reject_center_fits(r: UiaDebugReject) -> bool {
    match r.bounds {
        Some(b) => b.center_fits(),
        None => true,
    }
}

/// Splits debug rejects across monitors by the center of their bounds; rejects without
/// bounds are not drawn.
pub fn partition_debug_rejects(rejects: &Vec<UiaDebugReject>, monitors: &Vec<ScreenRect>) -> (out: Vec<Vec<UiaDebugReject>>)
    requires
        forall|k: int| 0 <= k < rejects.len() ==> reject_center_fits(#[trigger] rejects@[k]),
    ensures
        out.len() == monitors.len(),
        forall|i: int| 0 <= i < monitors.len() ==> (#[trigger] out@[i])@ == rejects_on_monitor(rejects@, monitors@, i),
{
    let mut out: Vec<Vec<UiaDebugReject>> = Vec::new();
    let mut i: usize = 0;
    while i < monitors.len()
        invariant
            i <= monitors.len(),
            out.len() == i,
            forall|k: int| 0 <= k < rejects.len() ==> reject_center_fits(#[trigger] rejects@[k]),
            forall|k: int| 0 <= k < i ==> (#[trigger] out@[k])@ == rejects_on_monitor(rejects@, monitors@, k),
        decreases monitors.len() - i,
    {
        let mut bucket: Vec<UiaDebugReject> = Vec::new();
        let mut j: usize = 0;
        while j < rejects.len()
            invariant
                i < monitors.len(),
                j <= rejects.len(),
                forall|k: int| 0 <= k < rejects.len() ==> reject_center_fits(#[trigger] rejects@[k]),
                bucket@ == rejects_on_monitor(rejects@.take(j as int), monitors@, i as int),
            decreases rejects.len() - j,
        {
            proof {
                assert(rejects@.take(j as int + 1).drop_last() =~= rejects@.take(j as int));
                assert(rejects@.take(j as int + 1).last() == rejects@[j as int]);
            }
            let r = &rejects[j];
            match r.bounds {
                Some(b) => {
                    let (cx, cy) = b.center();
                    if monitor_index(cx, cy, monitors) == i {
                        bucket.push(r.clone());
                    }
                },
                None => {},
            }
            j += 1;
        }
        proof {
            assert(rejects@.take(rejects.len() as int) =~= rejects@);
        }
        out.push(bucket);
        i += 1;
    }
    out
}

/// `v` saturated into the `usize` range.
pub open spec fn saturate_usize(v: int) -> int {
    if v > usize::MAX { usize::MAX as int } else { v }
}

/// Row stride of a 32-bit-per-pixel DIB of `width` pixels (the width is taken as `usize`
/// by reinterpretation, as a cast does; products saturate).
pub open spec fn dib_stride_spec(width: i32) -> int {
    let u = (width as usize) as int;
    let bits = saturate_usize(u * 32);
    saturate_usize(((bits + 31) / 32) * 4)
}

/// Row stride in bytes of a 32-bit-per-pixel DIB.
pub fn dib_stride_bytes(width: i32) -> (r: usize)
    ensures
        r == dib_stride_spec(width),
{
    let u = width as usize;
    let bits: usize = match u.checked_mul(32) {
        Some(v) => v,
        None => usize::MAX,
    };
    let words = bits / 32 + if bits % 32 == 0 { 0 } else { 1 };
    proof {
        assert(words == (bits + 31) / 32);
    }
    match words.checked_mul(4) {
        Some(v) => v,
        None => usize::MAX,
    }
}

/// Clamps an anchor into the element's rectangle (an empty rectangle yields its origin).
pub fn clamp_anchor_px(x: i32, y: i32, r: &Rect) -> (p: (i32, i32))
    ensures
        p.0 == clamp_point_spec(x as int, y as int, *r).0,
        p.1 == clamp_point_spec(x as int, y as int, *r).1,
{
    clamp_point_to_bounds(x, y, r)
}

/// The physical point a pill refers to: the same point an invoke clicks.
pub fn resolve_hint_anchor_phys(h: &Hint) -> (p: (i32, i32))
    requires
        invoke_point_computable(h.raw),
    ensures
        p.0 == invoke_point_spec(h.raw).0,
        p.1 == invoke_point_spec(h.raw).1,
{
    resolve_invoke_physical_point(&h.raw)
}

/// No label occurs twice.
pub open spec fn labels_distinct(s: Seq<Seq<char>>) -> bool {
    forall|i: int, j: int| 0 <= i < j < s.len() ==> s[i] != s[j]
}

fn labels_distinct_exec(v: &Vec<String>) -> (r: bool)
    ensures
        r == labels_distinct(v@.map_values(|s: String| s@)),
{
    let ghost s = v@.map_values(|s: String| s@);
    let mut i: usize = 0;
    while i < v.len()
        invariant
            s == v@.map_values(|s: String| s@),
            i <= v.len(),
            forall|a: int, b: int| 0 <= a < b < v.len() && a < i ==> s[a] != s[b],
        decreases v.len() - i,
    {
        let mut j: usize = i + 1;
        while j < v.len()
            invariant
                s == v@.map_values(|s: String| s@),
                i < j <= v.len(),
                forall|a: int, b: int| 0 <= a < b < v.len() && a < i ==> s[a] != s[b],
                forall|b: int| i < b < j ==> s[i as int] != s[b],
            decreases v.len() - j,
        {
            if crate::text::str_eq(v[i].as_str(), v[j].as_str()) {
                proof {
                    assert(s[i as int] == s[j as int]);
                }
                return false;
            }
            j += 1;
        }
        i += 1;
    }
    true
}

/// `pairing[i]` is the index in `b` of the label `a[i]`.
pub open spec fn pairs_labels(a: Seq<Seq<char>>, b: Seq<Seq<char>>, pairing: Seq<usize>) -> bool {
    &&& pairing.len() == a.len()
    &&& forall|i: int| 0 <= i < a.len() ==> (#[trigger] pairing[i]) < b.len() && b[pairing[i] as int] == a[i]
}

/// Pairs the pills of two frames by label, for an order-independent comparison.
///
/// `None` when a label repeats within a frame, the frames differ in size, or a label of
/// `a` is missing from `b`; else `pairing[i]` is the index in `b` of the label `a[i]`
/// (each index of `b` is used once).
pub fn match_pills_by_label(a: &Vec<String>, b: &Vec<String>) -> (r: Option<Vec<usize>>)
    ensures
        ({
            let va = a@.map_values(|s: String| s@);
            let vb = b@.map_values(|s: String| s@);
            match r {
                Some(p) => labels_distinct(va) && labels_distinct(vb) && va.len() == vb.len()
                    && pairs_labels(va, vb, p@),
                None => !labels_distinct(va) || !labels_distinct(vb) || va.len() != vb.len()
                    || exists|i: int| 0 <= i < va.len() && !vb.contains(#[trigger] va[i]),
            }
        }),
{
    let ghost va = a@.map_values(|s: String| s@);
    let ghost vb = b@.map_values(|s: String| s@);
    if !labels_distinct_exec(a) || !labels_distinct_exec(b) {
        return None;
    }
    if a.len() != b.len() {
        return None;
    }
    let mut pairing: Vec<usize> = Vec::new();
    let mut i: usize = 0;
    while i < a.len()
        invariant
            va == a@.map_values(|s: String| s@),
            vb == b@.map_values(|s: String| s@),
            i <= a.len(),
            pairing.len() == i,
            forall|k: int| 0 <= k < i ==> (#[trigger] pairing@[k]) < vb.len() && vb[pairing@[k] as int] == va[k],
        decreases a.len() - i,
    {
        let mut j: usize = 0;
        let mut found = false;
        while j < b.len() && !found
            invariant
                va == a@.map_values(|s: String| s@),
                vb == b@.map_values(|s: String| s@),
                i < a.len(),
                j <= b.len(),
                !found ==> forall|m: int| 0 <= m < j ==> vb[m] != va[i as int],
                found ==> j >= 1 && vb[j - 1] == va[i as int],
            decreases b.len() - j + (if found { 0int } else { 1int }),
        {
            if crate::text::str_eq(a[i].as_str(), b[j].as_str()) {
                found = true;
            }
            j += 1;
        }
        if !found {
            proof {
                assert(!vb.contains(va[i as int])) by {
                    if vb.contains(va[i as int]) {
                        let m = choose|m: int| 0 <= m < vb.len() && vb[m] == va[i as int];
                        assert(vb[m] != va[i as int]);
                    }
                }
            }
            return None;
        }
        pairing.push(j - 1);
        i += 1;
    }
    Some(pairing)
}

/// The plan for a frame whose pills and debug regions are (or are not) unchanged.
pub fn paint_plan_for(pills_unchanged: bool, debug_unchanged: bool) -> (p: PaintPlan)
    ensures
        p == (if pills_unchanged && debug_unchanged { PaintPlan::NoOp } else { PaintPlan::Full }),
{
    if pills_unchanged && debug_unchanged {
        PaintPlan::NoOp
    } else {
        PaintPlan::Full
    }
}

/// What the worker re-presents on a monitor change.
#[derive(Clone, Copy, Debug, PartialEq, Eq, Structural)]
pub enum SyncAction {
    /// No overlay exists yet.
    Nothing,
    /// Re-present the last painted frame.
    RepresentLast,
    /// Only resize the overlays.
    ResizeOnly,
}

/// Which sessions the render worker shows, repaints and hides.
#[derive(Clone, Copy, Debug, PartialEq, Eq, Structural)]
pub struct RenderGate {
    /// Highest session id shown so far; older show requests are stale.
    pub max_show_accepted: u64,
    /// The session on screen.
    pub displayed_session: Option<u64>,
    /// The session of the last painted frame.
    pub last_painted: Option<u64>,
}

impl RenderGate {
    /// Nothing shown yet.
    pub fn new() -> (g: Self)
        ensures
            g.max_show_accepted == 0,
            g.displayed_session is None,
            g.last_painted is None,
    {
        RenderGate { max_show_accepted: 0, displayed_session: None, last_painted: None }
    }

    /// A show request is honoured only for a session newer than every accepted one.
    pub fn accepts_show(&self, session_id: u64) -> (b: bool)
        ensures
            b == (session_id > self.max_show_accepted),
    {
        session_id > self.max_show_accepted
    }

    /// Records a show request that was presented.
    pub fn show_presented(&mut self, session_id: u64)
        requires
            session_id > old(self).max_show_accepted,
        ensures
            final(self).max_show_accepted == session_id,
            final(self).displayed_session == Some(session_id),
            final(self).last_painted == Some(session_id),
    {
        self.max_show_accepted = session_id;
        self.displayed_session = Some(session_id);
        self.last_painted = Some(session_id);
    }

    /// Repaint and hide requests apply only to the session on screen.
    pub fn is_displayed(&self, session_id: u64) -> (b: bool)
        ensures
            b == (self.displayed_session == Some(session_id)),
    {
        match self.displayed_session {
            Some(s) => s == session_id,
            None => false,
        }
    }

    /// Records a repaint of the session on screen.
    pub fn repaint_presented(&mut self, session_id: u64)
        requires
            old(self).displayed_session == Some(session_id),
        ensures
            *final(self) == (RenderGate { last_painted: Some(session_id), ..*old(self) }),
    {
        self.last_painted = Some(session_id);
    }

    /// Hides the session on screen; other sessions are left alone. Returns whether it hid.
    pub fn hide_session(&mut self, session_id: u64) -> (hid: bool)
        ensures
            hid == (old(self).displayed_session == Some(session_id)),
            hid ==> *final(self) == (RenderGate { displayed_session: None, last_painted: None, ..*old(self) }),
            !hid ==> *final(self) == *old(self),
    {
        if self.is_displayed(session_id) {
            self.displayed_session = None;
            self.last_painted = None;
            true
        } else {
            false
        }
    }

    /// What a monitor change re-presents (`has_overlay`: the overlay windows exist).
    pub fn on_sync_monitors(&self, has_overlay: bool) -> (a: SyncAction)
        ensures
            a == (if !has_overlay {
                SyncAction::Nothing
            } else if self.last_painted is Some && self.displayed_session == self.last_painted {
                SyncAction::RepresentLast
            } else {
                SyncAction::ResizeOnly
            }),
    {
        if !has_overlay {
            return SyncAction::Nothing;
        }
        match self.last_painted {
            Some(s) => {
                if self.is_displayed(s) {
                    SyncAction::RepresentLast
                } else {
                    SyncAction::ResizeOnly
                }
            },
            None => SyncAction::ResizeOnly,
        }
    }
}

/// A show request for a session no newer than an accepted one never reaches the screen,
/// and accepted session ids only grow.
pub proof fn lemma_stale_show_refused(g: RenderGate, older: u64, newer: u64)
    requires
        newer > g.max_show_accepted,
        older <= newer,
    ensures
        !(RenderGate { max_show_accepted: newer, displayed_session: Some(newer), last_painted: Some(newer) }).accepts_show_spec(older),
{
}

impl RenderGate {
    /// A show request for `session_id` would be honoured.
    pub open spec fn accepts_show_spec(self, session_id: u64) -> bool {
        session_id > self.max_show_accepted
    }
}


/// `(x, y)` lies in monitor `r`: left and top edges inside, right and bottom edges outside.
pub open spec fn monitor_holds(r: ScreenRect, x: int, y: int) -> bool {
    r.left <= x && x < r.right && r.top <= y && y < r.bottom
}

proof fn lemma_first_holder_holds(x: int, y: int, ms: Seq<ScreenRect>, i: int)
    requires
        0 <= i <= ms.len(),
    ensures
        (exists|k: int| i <= k < ms.len() && monitor_holds(#[trigger] ms[k], x, y)) ==> {
            let r = first_holder_from(x, y, ms, i);
            &&& i <= r < ms.len()
            &&& monitor_holds(ms[r], x, y)
            &&& forall|k: int| i <= k < r ==> !monitor_holds(#[trigger] ms[k], x, y)
        },
        !(exists|k: int| i <= k < ms.len() && monitor_holds(#[trigger] ms[k], x, y))
            ==> first_holder_from(x, y, ms, i) == 0,
    decreases ms.len() - i,
{
    if i < ms.len() {
        lemma_first_holder_holds(x, y, ms, i + 1);
        if exists|k: int| i <= k < ms.len() && monitor_holds(#[trigger] ms[k], x, y) {
            if !monitor_holds(ms[i], x, y) {
                let k = choose|k: int| i <= k < ms.len() && monitor_holds(#[trigger] ms[k], x, y);
                assert(k != i);
                assert(i + 1 <= k);
            }
        } else {
            assert(!monitor_holds(ms[i], x, y));
        }
    }
}

/// The monitor chosen for a point holds the point whenever some monitor does, and no
/// monitor before it does; a point on no monitor goes to the first one.
pub proof fn lemma_monitor_for_holds(x: int, y: int, ms: Seq<ScreenRect>)
    ensures
        (exists|k: int| 0 <= k < ms.len() && monitor_holds(#[trigger] ms[k], x, y)) ==> {
            let r = monitor_for(x, y, ms);
            &&& 0 <= r < ms.len()
            &&& ms[r].left <= x && x < ms[r].right && ms[r].top <= y && y < ms[r].bottom
            &&& forall|k: int| 0 <= k < r ==> !monitor_holds(#[trigger] ms[k], x, y)
        },
        !(exists|k: int| 0 <= k < ms.len() && monitor_holds(#[trigger] ms[k], x, y)) ==> monitor_for(x, y, ms) == 0,
{
    lemma_first_holder_holds(x, y, ms, 0);
}

proof fn lemma_bucket_members(hints: Seq<Hint>, ms: Seq<ScreenRect>, i: int)
    ensures
        forall|k: int| 0 <= k < hints_on_monitor(hints, ms, i).len() ==> monitor_for(
            (#[trigger] hints_on_monitor(hints, ms, i)[k]).raw.bounds.x as int,
            hints_on_monitor(hints, ms, i)[k].raw.bounds.y as int, ms) == i,
    decreases hints.len(),
{
    if hints.len() > 0 {
        lemma_bucket_members(hints.drop_last(), ms, i);
        let r = hints_on_monitor(hints.drop_last(), ms, i);
        let b = hints_on_monitor(hints, ms, i);
        assert forall|k: int| 0 <= k < b.len() implies monitor_for(
            (#[trigger] b[k]).raw.bounds.x as int, b[k].raw.bounds.y as int, ms) == i by {
            if k < r.len() {
                assert(b[k] == r[k]);
            }
        }
    }
}

/// Every hint in bucket `i` of the monitor split has its top-left corner on monitor `i`,
/// unless no monitor holds that corner, and then `i` is the first monitor.
pub proof fn lemma_bucket_hints_on_their_monitor(hints: Seq<Hint>, ms: Seq<ScreenRect>, i: int, k: int)
    requires
        0 <= k < hints_on_monitor(hints, ms, i).len(),
    ensures
        ({
            let h = hints_on_monitor(hints, ms, i)[k];
            let x = h.raw.bounds.x as int;
            let y = h.raw.bounds.y as int;
            &&& (exists|m: int| 0 <= m < ms.len() && monitor_holds(#[trigger] ms[m], x, y)) ==> 0 <= i < ms.len()
                && ms[i].left <= x && x < ms[i].right && ms[i].top <= y && y < ms[i].bottom
            &&& !(exists|m: int| 0 <= m < ms.len() && monitor_holds(#[trigger] ms[m], x, y)) ==> i == 0
        }),
{
    lemma_bucket_members(hints, ms, i);
    let h = hints_on_monitor(hints, ms, i)[k];
    lemma_monitor_for_holds(h.raw.bounds.x as int, h.raw.bounds.y as int, ms);
}

} // verus!
