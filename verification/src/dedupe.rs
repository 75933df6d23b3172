//! Merge redundant accessibility rows before planning.

use vstd::prelude::*;
use std::collections::HashMap;
use crate::geom::{Rect, tdiv};
use crate::hint::{ElementKind, RawHint};
use crate::fnv::{fnv1a, fnv1a_bytes};
use crate::text::{str_trim, trim_ws, str_to_lowercase, lowercased};

verus! {

/// Counts for `[dedupe] before=... after=... removed=...` logging.
#[derive(Clone, Copy, Debug, PartialEq, Eq, Structural)]
pub struct DedupeStats {
    pub before: usize,
    pub after: usize,
    pub removed: usize,
}

/// A grouping key: rows with equal keys are taken for the same target.
#[derive(Clone, Copy, Debug, PartialEq, Eq, Structural)]
pub struct DedupeKey {
    pub a: i64,
    pub b: i64,
    pub c: i64,
    pub d: i64,
    pub e: u64,
}

pub open spec fn area_spec(h: RawHint) -> int {
    h.bounds.w * h.bounds.h
}

pub open spec fn kind_priority_spec(k: ElementKind) -> int {
    match k {
        ElementKind::Invoke => 6,
        ElementKind::Toggle => 5,
        ElementKind::Select => 5,
        ElementKind::ExpandCollapse => 4,
        ElementKind::Editable => 3,
        ElementKind::GenericClickable => 2,
    }
}

/// `a` is at least as good to keep as `b`: higher kind priority, then smaller area,
/// then smaller-or-equal element id.
pub open spec fn keep_over(a: RawHint, b: RawHint) -> bool {
    ||| kind_priority_spec(a.kind) > kind_priority_spec(b.kind)
    ||| (kind_priority_spec(a.kind) == kind_priority_spec(b.kind) && area_spec(a) < area_spec(b))
    ||| (kind_priority_spec(a.kind) == kind_priority_spec(b.kind) && area_spec(a) == area_spec(b)
        && a.element_id <= b.element_id)
}

/// Of any two hints, one is at least as good to keep as the other.
pub proof fn lemma_keep_over_total(a: RawHint, b: RawHint)
    ensures
        keep_over(a, b) || keep_over(b, a),
{
}

/// Preference for keeping a hint is transitive.
pub proof fn lemma_keep_over_transitive(a: RawHint, b: RawHint, c: RawHint)
    requires
        keep_over(a, b),
        keep_over(b, c),
    ensures
        keep_over(a, c),
{
}

/// `out` keeps, for every key occurring in `input`, exactly one row of that key that
/// is at least as good to keep as every row of that key (of rows tied on kind, area and
/// id, the last one); it holds nothing else.
pub open spec fn is_best_per_key(input: Seq<RawHint>, out: Seq<RawHint>, key: spec_fn(RawHint) -> DedupeKey) -> bool {
    &&& forall|i: int| 0 <= i < out.len() ==> input.contains(#[trigger] out[i])
    &&& forall|i: int, j: int| 0 <= i < j < out.len() ==> key(#[trigger] out[i]) != key(#[trigger] out[j])
    &&& forall|j: int| 0 <= j < input.len() ==> #[trigger] has_best(out, input[j], key)
    &&& forall|i: int| 0 <= i < out.len() ==> #[trigger] is_last_best(input, out[i], key)
}

/// Row `p` of `input` is at least as good to keep as every row of its key, and no later
/// row of its key is at least as good to keep as it.
pub open spec fn last_best_at(input: Seq<RawHint>, p: int, key: spec_fn(RawHint) -> DedupeKey) -> bool {
    forall|q: int| 0 <= q < input.len() && key(#[trigger] input[q]) == key(input[p])
        ==> keep_over(input[p], input[q]) && (q > p ==> !keep_over(input[q], input[p]))
}

/// `x` is the last row of `input` that is at least as good to keep as every row of its key.
pub open spec fn is_last_best(input: Seq<RawHint>, x: RawHint, key: spec_fn(RawHint) -> DedupeKey) -> bool {
    exists|p: int| 0 <= p < input.len() && input[p] == x && #[trigger] last_best_at(input, p, key)
}

/// Among the first `j` rows, row `b` is at least as good to keep as every row of its key,
/// and no later one of them of its key is at least as good to keep as it.
pub open spec fn last_best_upto(cands: Seq<RawHint>, keys: Seq<DedupeKey>, b: int, j: int) -> bool {
    forall|q: int| 0 <= q < j && keys[q] == keys[b]
        ==> keep_over(cands[b], #[trigger] cands[q]) && (q > b ==> !keep_over(cands[q], cands[b]))
}

/// `out` holds a row with the key of `h` that is at least as good to keep as `h`.
pub open spec fn has_best(out: Seq<RawHint>, h: RawHint, key: spec_fn(RawHint) -> DedupeKey) -> bool {
    exists|i: int| 0 <= i < out.len() && key(#[trigger] out[i]) == key(h) && keep_over(out[i], h)
}

/// Key of rows that carry a runtime-id fingerprint.
pub open spec fn runtime_fp_key(h: RawHint) -> DedupeKey {
    DedupeKey { a: 0, b: 0, c: 0, d: 0, e: h.uia_runtime_id_fp.unwrap_or(0) }
}

/// The name, trimmed and lowercased, as UTF-8 bytes.
pub open spec fn name_bytes(h: RawHint) -> Seq<u8> {
    let n = match h.name {
        Some(s) => s@,
        None => Seq::<char>::empty(),
    };
    vstd::utf8::encode_utf8(lowercased(trim_ws(n)))
}

/// Key of identical bounds with the same (trimmed, case-folded) name.
pub open spec fn bounds_name_key(h: RawHint) -> DedupeKey {
    DedupeKey { a: h.bounds.x as i64, b: h.bounds.y as i64, c: h.bounds.w as i64, d: h.bounds.h as i64, e: fnv1a(name_bytes(h)) }
}

/// Center of a rectangle, computed without overflow.
pub open spec fn center_x(b: Rect) -> int {
    b.x + tdiv(b.w as int, 2)
}

pub open spec fn center_y(b: Rect) -> int {
    b.y + tdiv(b.h as int, 2)
}

/// Key of the 4x4 px grid cell holding the center.
pub open spec fn center_cell_key(h: RawHint) -> DedupeKey {
    DedupeKey { a: (center_x(h.bounds) / 4) as i64, b: (center_y(h.bounds) / 4) as i64, c: 0, d: 0, e: 0 }
}

pub open spec fn rect_contains_point_spec(r: Rect, x: int, y: int) -> bool {
    x >= r.x && x < r.x + r.w && y >= r.y && y < r.y + r.h
}

/// The rows without a runtime-id fingerprint, in order.
pub open spec fn rows_without_fp(s: Seq<RawHint>) -> Seq<RawHint>
    decreases s.len(),
{
    if s.len() == 0 {
        s
    } else if s.last().uia_runtime_id_fp is None {
        rows_without_fp(s.drop_last()).push(s.last())
    } else {
        rows_without_fp(s.drop_last())
    }
}

/// The rows with a runtime-id fingerprint, in order.
pub open spec fn rows_with_fp(s: Seq<RawHint>) -> Seq<RawHint>
    decreases s.len(),
{
    if s.len() == 0 {
        s
    } else if s.last().uia_runtime_id_fp is Some {
        rows_with_fp(s.drop_last()).push(s.last())
    } else {
        rows_with_fp(s.drop_last())
    }
}

/// Rows with no fingerprint stay in order; among rows with a fingerprint the best of each is kept.
pub open spec fn runtime_fp_step(input: Seq<RawHint>, out: Seq<RawHint>) -> bool {
    let rest = rows_without_fp(input);
    let keyed = rows_with_fp(input);
    &&& out.len() >= rest.len()
    &&& out.take(rest.len() as int) == rest
    &&& is_best_per_key(keyed, out.skip(rest.len() as int), |h: RawHint| runtime_fp_key(h))
}

/// Insert `h` into area-sorted `s` after every row of area at most its own (stable).
pub open spec fn insert_by_area(s: Seq<RawHint>, h: RawHint) -> Seq<RawHint>
    decreases s.len(),
{
    if s.len() == 0 {
        seq![h]
    } else if area_spec(s.last()) <= area_spec(h) {
        s.push(h)
    } else {
        insert_by_area(s.drop_last(), h).push(s.last())
    }
}

/// Stable sort by area, ascending.
pub open spec fn sort_by_area(s: Seq<RawHint>) -> Seq<RawHint>
    decreases s.len(),
{
    if s.len() == 0 {
        s
    } else {
        insert_by_area(sort_by_area(s.drop_last()), s.last())
    }
}

/// Some kept row of strictly smaller area contains the center of `h`.
pub open spec fn covered_by_smaller(kept: Seq<RawHint>, h: RawHint) -> bool {
    exists|k: int| 0 <= k < kept.len() && area_spec(#[trigger] kept[k]) < area_spec(h)
        && rect_contains_point_spec(kept[k].bounds, center_x(h.bounds), center_y(h.bounds))
}

/// Walk area-sorted rows, keeping those with positive area whose center no kept smaller row holds.
pub open spec fn suppress_greedy(sorted: Seq<RawHint>) -> Seq<RawHint>
    decreases sorted.len(),
{
    if sorted.len() == 0 {
        sorted
    } else {
        let kept = suppress_greedy(sorted.drop_last());
        let h = sorted.last();
        if area_spec(h) > 0 && !covered_by_smaller(kept, h) {
            kept.push(h)
        } else {
            kept
        }
    }
}

fn area(h: &RawHint) -> (a: i64)
    ensures
        a == area_spec(*h),
{
    proof {
        assert(-2147483648 <= h.bounds.w <= 2147483647);
        assert((h.bounds.w as int) * (h.bounds.h as int) <= 4611686018427387904) by (nonlinear_arith)
            requires -2147483648 <= h.bounds.w <= 2147483647, -2147483648 <= h.bounds.h <= 2147483647;
        assert((h.bounds.w as int) * (h.bounds.h as int) >= -4611686018427387904) by (nonlinear_arith)
            requires -2147483648 <= h.bounds.w <= 2147483647, -2147483648 <= h.bounds.h <= 2147483647;
    }
    h.bounds.w as i64 * h.bounds.h as i64
}

fn kind_priority(k: ElementKind) -> (p: u8)
    ensures
        p == kind_priority_spec(k),
{
    match k {
        ElementKind::Invoke => 6,
        ElementKind::Toggle => 5,
        ElementKind::Select => 5,
        ElementKind::ExpandCollapse => 4,
        ElementKind::Editable => 3,
        ElementKind::GenericClickable => 2,
    }
}

/// True if `a` is at least as good to keep as `b` (same logical target disambiguation).
fn keep_a_over_b(a: &RawHint, b: &RawHint) -> (r: bool)
    ensures
        r == keep_over(*a, *b),
{
    let pa = kind_priority(a.kind);
    let pb = kind_priority(b.kind);
    if pa > pb {
        true
    } else if pa < pb {
        false
    } else {
        let aa = area(a);
        let ab = area(b);
        if aa < ab {
            true
        } else if aa > ab {
            false
        } else {
            a.element_id <= b.element_id
        }
    }
}

/// Position in `idx` of the entry whose key is `k`, if any.
fn find_key(idx: &Vec<usize>, keys: &Vec<DedupeKey>, k: DedupeKey) -> (r: Option<usize>)
    requires
        forall|p: int| 0 <= p < idx@.len() ==> (#[trigger] idx@[p]) < keys@.len(),
    ensures
        r matches Some(p) ==> p < idx@.len() && keys@[idx@[p as int] as int] == k,
        r is None ==> forall|p: int| 0 <= p < idx@.len() ==> keys@[#[trigger] idx@[p] as int] != k,
{
    let mut p: usize = 0;
    while p < idx.len()
        invariant
            forall|q: int| 0 <= q < idx@.len() ==> (#[trigger] idx@[q]) < keys@.len(),
            p <= idx@.len(),
            forall|q: int| 0 <= q < p ==> keys@[#[trigger] idx@[q] as int] != k,
        decreases idx@.len() - p,
    {
        if keys[idx[p]] == k {
            return Some(p);
        }
        p += 1;
    }
    None
}

/// Every row among the first `j` is represented, in `idx`, by a row of the same key
/// that is at least as good to keep.
pub open spec fn represented(cands: Seq<RawHint>, keys: Seq<DedupeKey>, idx: Seq<usize>, j: int) -> bool {
    forall|m: int| 0 <= m < j ==> #[trigger] has_rep(cands, keys, idx, m)
}

/// Row `m` has a representative in `idx`: same key, at least as good to keep.
pub open spec fn has_rep(cands: Seq<RawHint>, keys: Seq<DedupeKey>, idx: Seq<usize>, m: int) -> bool {
    exists|p: int| 0 <= p < idx.len() && keys[#[trigger] idx[p] as int] == keys[m]
        && keep_over(cands[idx[p] as int], cands[m])
}

/// `rep[m]` is the position in `idx` of the row representing row `m`.
pub open spec fn represented_by(cands: Seq<RawHint>, keys: Seq<DedupeKey>, idx: Seq<usize>, rep: Seq<int>, j: int) -> bool {
    &&& rep.len() == j
    &&& forall|m: int| 0 <= m < j ==> 0 <= #[trigger] rep[m] < idx.len()
        && keys[idx[rep[m]] as int] == keys[m] && keep_over(cands[idx[rep[m]] as int], cands[m])
}

pub open spec fn keys_distinct(keys: Seq<DedupeKey>, idx: Seq<usize>) -> bool {
    forall|p: int, q: int| 0 <= p < q < idx.len() ==> keys[#[trigger] idx[p] as int] != keys[#[trigger] idx[q] as int]
}

proof fn lemma_represented(cands: Seq<RawHint>, keys: Seq<DedupeKey>, idx: Seq<usize>, rep: Seq<int>, j: int)
    requires
        represented_by(cands, keys, idx, rep, j),
    ensures
        represented(cands, keys, idx, j),
{
    assert forall|m: int| 0 <= m < j implies #[trigger] has_rep(cands, keys, idx, m) by {
        let p = rep[m];
        assert(keys[idx[p] as int] == keys[m]);
    }
}

/// The state of the best-row scan after its first `j` rows: `idx` holds one position per
/// key seen, each the last best row of its key so far, and `rep` names, for every row
/// seen, the entry standing for it.
pub open spec fn best_scan_inv(cands: Seq<RawHint>, keys: Seq<DedupeKey>, idx: Seq<usize>, rep: Seq<int>, j: int) -> bool {
    &&& keys.len() == cands.len()
    &&& 0 <= j <= cands.len()
    &&& forall|p: int| 0 <= p < idx.len() ==> (#[trigger] idx[p]) < j
    &&& keys_distinct(keys, idx)
    &&& represented_by(cands, keys, idx, rep, j)
    &&& forall|p: int| 0 <= p < idx.len() ==> #[trigger] last_best_upto(cands, keys, idx[p] as int, j)
}

/// Row `j` replaces the entry `p` of its key, being at least as good to keep.
proof fn lemma_scan_replace(cands: Seq<RawHint>, keys: Seq<DedupeKey>, idx: Seq<usize>, rep: Seq<int>, j: int, p: int)
    requires
        best_scan_inv(cands, keys, idx, rep, j),
        j < cands.len(),
        cands.len() <= usize::MAX,
        0 <= p < idx.len(),
        keys[idx[p] as int] == keys[j],
        keep_over(cands[j], cands[idx[p] as int]),
    ensures
        best_scan_inv(cands, keys, idx.update(p, j as usize), rep.push(p), j + 1),
{
    let before = idx;
    let old_best = idx[p] as int;
    assert(j as usize as int == j);
    let idx2 = idx.update(p, j as usize);
    let rep2 = rep.push(p);
    assert forall|r: int| 0 <= r < idx2.len() implies keys[#[trigger] idx2[r] as int] == keys[before[r] as int] by {}
    assert forall|m: int| 0 <= m < j + 1 implies 0 <= #[trigger] rep2[m] < idx2.len()
        && keys[idx2[rep2[m]] as int] == keys[m] && keep_over(cands[idx2[rep2[m]] as int], cands[m]) by {
        if m < j {
            assert(rep2[m] == rep[m]);
            if rep[m] == p {
                lemma_keep_over_transitive(cands[j], cands[old_best], cands[m]);
            }
        }
    }
    assert forall|a: int, b: int| 0 <= a < b < idx2.len() implies keys[#[trigger] idx2[a] as int] != keys[#[trigger] idx2[b] as int] by {
        assert(keys[idx2[a] as int] == keys[before[a] as int]);
        assert(keys[idx2[b] as int] == keys[before[b] as int]);
    }
    assert forall|r: int| 0 <= r < idx2.len() implies #[trigger] last_best_upto(cands, keys, idx2[r] as int, j + 1) by {
        if r == p {
            assert(last_best_upto(cands, keys, before[r] as int, j));
            assert forall|q: int| 0 <= q < j + 1 && keys[q] == keys[j]
                implies keep_over(cands[j], #[trigger] cands[q]) && (q > j ==> !keep_over(cands[q], cands[j])) by {
                if q < j {
                    lemma_keep_over_transitive(cands[j], cands[old_best], cands[q]);
                }
            }
        } else {
            assert(idx2[r] == before[r]);
            assert(last_best_upto(cands, keys, before[r] as int, j));
            if r < p {
                assert(keys[before[r] as int] != keys[before[p] as int]);
            } else {
                assert(keys[before[p] as int] != keys[before[r] as int]);
            }
        }
    }
    assert forall|q: int| 0 <= q < idx2.len() implies (#[trigger] idx2[q]) < j + 1 by {
        if q != p {
            assert(idx2[q] == before[q]);
        }
    }
}

/// Row `j` leaves the entry `p` of its key in place, being worse to keep.
proof fn lemma_scan_keep(cands: Seq<RawHint>, keys: Seq<DedupeKey>, idx: Seq<usize>, rep: Seq<int>, j: int, p: int)
    requires
        best_scan_inv(cands, keys, idx, rep, j),
        j < cands.len(),
        cands.len() <= usize::MAX,
        0 <= p < idx.len(),
        keys[idx[p] as int] == keys[j],
        !keep_over(cands[j], cands[idx[p] as int]),
    ensures
        best_scan_inv(cands, keys, idx, rep.push(p), j + 1),
{
    lemma_keep_over_total(cands[j], cands[idx[p] as int]);
    let rep2 = rep.push(p);
    assert forall|m: int| 0 <= m < j + 1 implies 0 <= #[trigger] rep2[m] < idx.len()
        && keys[idx[rep2[m]] as int] == keys[m] && keep_over(cands[idx[rep2[m]] as int], cands[m]) by {
        if m < j {
            assert(rep2[m] == rep[m]);
        }
    }
    assert forall|r: int| 0 <= r < idx.len() implies #[trigger] last_best_upto(cands, keys, idx[r] as int, j + 1) by {
        assert(last_best_upto(cands, keys, idx[r] as int, j));
        if r != p {
            if r < p {
                assert(keys[idx[r] as int] != keys[idx[p] as int]);
            } else {
                assert(keys[idx[p] as int] != keys[idx[r] as int]);
            }
        }
    }
}

/// Row `j` has a key not seen before: it gets an entry of its own.
proof fn lemma_scan_new(cands: Seq<RawHint>, keys: Seq<DedupeKey>, idx: Seq<usize>, rep: Seq<int>, j: int)
    requires
        best_scan_inv(cands, keys, idx, rep, j),
        j < cands.len(),
        cands.len() <= usize::MAX,
        forall|p: int| 0 <= p < idx.len() ==> keys[#[trigger] idx[p] as int] != keys[j],
    ensures
        best_scan_inv(cands, keys, idx.push(j as usize), rep.push(idx.len() as int), j + 1),
{
    let before = idx;
    assert(j as usize as int == j);
    let idx2 = idx.push(j as usize);
    let rep2 = rep.push(idx.len() as int);
    assert forall|m: int| 0 <= m < j + 1 implies 0 <= #[trigger] rep2[m] < idx2.len()
        && keys[idx2[rep2[m]] as int] == keys[m] && keep_over(cands[idx2[rep2[m]] as int], cands[m]) by {
        if m < j {
            assert(rep2[m] == rep[m]);
            assert(idx2[rep[m]] == before[rep[m]]);
        }
    }
    assert forall|a: int, b: int| 0 <= a < b < idx2.len() implies keys[#[trigger] idx2[a] as int] != keys[#[trigger] idx2[b] as int] by {
        assert(idx2[a] == before[a]);
        if b < before.len() {
            assert(idx2[b] == before[b]);
        }
    }
    assert forall|r: int| 0 <= r < idx2.len() implies #[trigger] last_best_upto(cands, keys, idx2[r] as int, j + 1) by {
        if r < before.len() {
            assert(idx2[r] == before[r]);
            assert(last_best_upto(cands, keys, before[r] as int, j));
            assert(keys[before[r] as int] != keys[j]);
        } else {
            assert forall|q: int| 0 <= q < j + 1 && keys[q] == keys[j]
                implies keep_over(cands[j], #[trigger] cands[q]) && (q > j ==> !keep_over(cands[q], cands[j])) by {
                if q < j {
                    let rp = rep[q];
                    assert(keys[before[rp] as int] == keys[q]);
                }
            }
        }
    }
    assert forall|q: int| 0 <= q < idx2.len() implies (#[trigger] idx2[q]) < j + 1 by {
        if q < before.len() {
            assert(idx2[q] == before[q]);
        }
    }
}

/// Positions of the best row for each distinct key, keys in order of first occurrence.
fn best_per_key(cands: &Vec<RawHint>, keys: &Vec<DedupeKey>) -> (idx: Vec<usize>)
    requires
        keys@.len() == cands@.len(),
    ensures
        forall|p: int| 0 <= p < idx@.len() ==> (#[trigger] idx@[p]) < cands@.len(),
        keys_distinct(keys@, idx@),
        represented(cands@, keys@, idx@, cands@.len() as int),
        forall|p: int| 0 <= p < idx@.len() ==> #[trigger] last_best_upto(cands@, keys@, idx@[p] as int, cands@.len() as int),
{
    let mut idx: Vec<usize> = Vec::new();
    let mut j: usize = 0;
    let ghost mut rep: Seq<int> = Seq::empty();
    while j < cands.len()
        invariant
            best_scan_inv(cands@, keys@, idx@, rep, j as int),
        decreases cands@.len() - j,
    {
        match find_key(&idx, keys, keys[j]) {
            Some(p) => {
                let old_best = idx[p];
                if keep_a_over_b(&cands[j], &cands[old_best]) {
                    proof {
                        lemma_scan_replace(cands@, keys@, idx@, rep, j as int, p as int);
                        rep = rep.push(p as int);
                    }
                    idx.set(p, j);
                } else {
                    proof {
                        lemma_scan_keep(cands@, keys@, idx@, rep, j as int, p as int);
                        rep = rep.push(p as int);
                    }
                }
            },
            None => {
                proof {
                    lemma_scan_new(cands@, keys@, idx@, rep, j as int);
                    rep = rep.push(idx@.len() as int);
                }
                idx.push(j);
            },
        }
        j += 1;
    }
    proof {
        lemma_represented(cands@, keys@, idx@, rep, j as int);
    }
    idx
}

proof fn lemma_best_output(
    cands: Seq<RawHint>,
    keys: Seq<DedupeKey>,
    idx: Seq<usize>,
    out: Seq<RawHint>,
    key: spec_fn(RawHint) -> DedupeKey,
)
    requires
        keys.len() == cands.len(),
        forall|m: int| 0 <= m < cands.len() ==> #[trigger] keys[m] == key(cands[m]),
        forall|p: int| 0 <= p < idx.len() ==> (#[trigger] idx[p]) < cands.len(),
        keys_distinct(keys, idx),
        represented(cands, keys, idx, cands.len() as int),
        out.len() == idx.len(),
        forall|p: int| 0 <= p < idx.len() ==> #[trigger] out[p] == cands[idx[p] as int],
        forall|p: int| 0 <= p < idx.len() ==> #[trigger] last_best_upto(cands, keys, idx[p] as int, cands.len() as int),
    ensures
        is_best_per_key(cands, out, key),
{
    assert forall|i: int| 0 <= i < out.len() implies #[trigger] is_last_best(cands, out[i], key) by {
        let p = idx[i] as int;
        assert(last_best_upto(cands, keys, p, cands.len() as int));
        assert(keys[p] == key(cands[p]));
        assert forall|q: int| 0 <= q < cands.len() && key(#[trigger] cands[q]) == key(cands[p])
            implies keep_over(cands[p], cands[q]) && (q > p ==> !keep_over(cands[q], cands[p])) by {
            assert(keys[q] == key(cands[q]));
        }
        assert(last_best_at(cands, p, key));
        assert(cands[p] == out[i]);
    }
    assert forall|i: int| 0 <= i < out.len() implies cands.contains(#[trigger] out[i]) by {
        assert(cands[idx[i] as int] == out[i]);
    }
    assert forall|i: int, j: int| 0 <= i < j < out.len() implies key(#[trigger] out[i]) != key(#[trigger] out[j]) by {
        assert(keys[idx[i] as int] != keys[idx[j] as int]);
        assert(keys[idx[i] as int] == key(cands[idx[i] as int]));
        assert(keys[idx[j] as int] == key(cands[idx[j] as int]));
    }
    assert forall|j: int| 0 <= j < cands.len() implies #[trigger] has_best(out, cands[j], key) by {
        assert(has_rep(cands, keys, idx, j));
        let p = choose|p: int| 0 <= p < idx.len() && keys[#[trigger] idx[p] as int] == keys[j]
            && keep_over(cands[idx[p] as int], cands[j]);
        assert(out[p] == cands[idx[p] as int]);
        assert(keys[idx[p] as int] == key(cands[idx[p] as int]));
    }
}

/// The rows at the positions `idx` found by a best-row scan.
fn rows_at(cands: &Vec<RawHint>, keys: &Vec<DedupeKey>, idx: &Vec<usize>, Ghost(key): Ghost<spec_fn(RawHint) -> DedupeKey>) -> (out: Vec<RawHint>)
    requires
        keys@.len() == cands@.len(),
        forall|m: int| 0 <= m < cands@.len() ==> #[trigger] keys@[m] == key(cands@[m]),
        forall|p: int| 0 <= p < idx@.len() ==> (#[trigger] idx@[p]) < cands@.len(),
        keys_distinct(keys@, idx@),
        represented(cands@, keys@, idx@, cands@.len() as int),
        forall|p: int| 0 <= p < idx@.len() ==> #[trigger] last_best_upto(cands@, keys@, idx@[p] as int, cands@.len() as int),
    ensures
        is_best_per_key(cands@, out@, key),
{
    let mut out: Vec<RawHint> = Vec::new();
    let mut p: usize = 0;
    while p < idx.len()
        invariant
            forall|q: int| 0 <= q < idx@.len() ==> (#[trigger] idx@[q]) < cands@.len(),
            p <= idx@.len(),
            out@.len() == p,
            forall|q: int| 0 <= q < p ==> #[trigger] out@[q] == cands@[idx@[q] as int],
        decreases idx@.len() - p,
    {
        out.push(cands[idx[p]].clone());
        p += 1;
    }
    proof {
        lemma_best_output(cands@, keys@, idx@, out@, key);
    }
    out
}

/// The best row of every key, keys in order of first occurrence.
fn best_rows(cands: &Vec<RawHint>, keys: &Vec<DedupeKey>, Ghost(key): Ghost<spec_fn(RawHint) -> DedupeKey>) -> (out: Vec<RawHint>)
    requires
        keys@.len() == cands@.len(),
        forall|m: int| 0 <= m < cands@.len() ==> #[trigger] keys@[m] == key(cands@[m]),
    ensures
        is_best_per_key(cands@, out@, key),
{
    let idx = best_per_key(cands, keys);
    rows_at(cands, keys, &idx, Ghost(key))
}

/// Positions of the best row for each fingerprint key (a key made of the fingerprint
/// alone), fingerprints in order of first occurrence; each fingerprint's entry is found
/// through a hash map.
fn best_per_fp(cands: &Vec<RawHint>, keys: &Vec<DedupeKey>) -> (idx: Vec<usize>)
    requires
        keys@.len() == cands@.len(),
        forall|m: int| 0 <= m < keys@.len() ==> (#[trigger] keys@[m]).a == 0 && keys@[m].b == 0
            && keys@[m].c == 0 && keys@[m].d == 0,
    ensures
        forall|p: int| 0 <= p < idx@.len() ==> (#[trigger] idx@[p]) < cands@.len(),
        keys_distinct(keys@, idx@),
        represented(cands@, keys@, idx@, cands@.len() as int),
        forall|p: int| 0 <= p < idx@.len() ==> #[trigger] last_best_upto(cands@, keys@, idx@[p] as int, cands@.len() as int),
{
    broadcast use vstd::std_specs::hash::group_hash_axioms;
    let mut idx: Vec<usize> = Vec::new();
    let mut pos: HashMap<u64, usize> = HashMap::new();
    let mut j: usize = 0;
    let ghost mut rep: Seq<int> = Seq::empty();
    while j < cands.len()
        invariant
            best_scan_inv(cands@, keys@, idx@, rep, j as int),
            forall|m: int| 0 <= m < keys@.len() ==> (#[trigger] keys@[m]).a == 0 && keys@[m].b == 0
                && keys@[m].c == 0 && keys@[m].d == 0,
            forall|f: u64| #[trigger] pos@.contains_key(f) ==> pos@[f] < idx@.len()
                && keys@[idx@[pos@[f] as int] as int].e == f,
            forall|p: int| 0 <= p < idx@.len() ==> pos@.contains_key(keys@[#[trigger] idx@[p] as int].e),
        decreases cands@.len() - j,
    {
        let fp = keys[j].e;
        match pos.get(&fp) {
            Some(pp) => {
                let p = *pp;
                let old_best = idx[p];
                assert(keys@[old_best as int] == keys@[j as int]);
                if keep_a_over_b(&cands[j], &cands[old_best]) {
                    proof {
                        lemma_scan_replace(cands@, keys@, idx@, rep, j as int, p as int);
                        rep = rep.push(p as int);
                    }
                    let ghost before = idx@;
                    idx.set(p, j);
                    proof {
                        assert forall|p2: int| 0 <= p2 < idx@.len() implies pos@.contains_key(keys@[#[trigger] idx@[p2] as int].e) by {
                            if p2 != p as int {
                                assert(idx@[p2] == before[p2]);
                            }
                        }
                        assert forall|f: u64| #[trigger] pos@.contains_key(f) implies pos@[f] < idx@.len()
                            && keys@[idx@[pos@[f] as int] as int].e == f by {
                            if pos@[f] != p {
                                assert(idx@[pos@[f] as int] == before[pos@[f] as int]);
                            }
                        }
                    }
                } else {
                    proof {
                        lemma_scan_keep(cands@, keys@, idx@, rep, j as int, p as int);
                        rep = rep.push(p as int);
                    }
                }
            },
            None => {
                proof {
                    assert forall|p: int| 0 <= p < idx@.len() implies keys@[#[trigger] idx@[p] as int] != keys@[j as int] by {
                        assert(pos@.contains_key(keys@[idx@[p] as int].e));
                    }
                    lemma_scan_new(cands@, keys@, idx@, rep, j as int);
                    rep = rep.push(idx@.len() as int);
                }
                let ghost before = idx@;
                let n = idx.len();
                idx.push(j);
                pos.insert(fp, n);
                proof {
                    assert forall|f: u64| #[trigger] pos@.contains_key(f) implies pos@[f] < idx@.len()
                        && keys@[idx@[pos@[f] as int] as int].e == f by {
                        if f != fp {
                            assert(idx@[pos@[f] as int] == before[pos@[f] as int]);
                        }
                    }
                    assert forall|p: int| 0 <= p < idx@.len() implies pos@.contains_key(keys@[#[trigger] idx@[p] as int].e) by {
                        if p < before.len() {
                            assert(idx@[p] == before[p]);
                        }
                    }
                }
            },
        }
        j += 1;
    }
    proof {
        lemma_represented(cands@, keys@, idx@, rep, j as int);
    }
    idx
}

fn dedupe_by_runtime_fp(candidates: Vec<RawHint>) -> (out: Vec<RawHint>)
    ensures
        runtime_fp_step(candidates@, out@),
{
    let mut rest: Vec<RawHint> = Vec::new();
    let mut keyed: Vec<RawHint> = Vec::new();
    let mut keys: Vec<DedupeKey> = Vec::new();
    let mut i: usize = 0;
    while i < candidates.len()
        invariant
            i <= candidates@.len(),
            rest@ == rows_without_fp(candidates@.take(i as int)),
            keyed@ == rows_with_fp(candidates@.take(i as int)),
            keys@.len() == keyed@.len(),
            forall|m: int| 0 <= m < keyed@.len() ==> #[trigger] keys@[m] == runtime_fp_key(keyed@[m]),
        decreases candidates@.len() - i,
    {
        proof {
            assert(candidates@.take(i as int + 1).drop_last() =~= candidates@.take(i as int));
        }
        match candidates[i].uia_runtime_id_fp {
            Some(fp) => {
                keyed.push(candidates[i].clone());
                keys.push(DedupeKey { a: 0, b: 0, c: 0, d: 0, e: fp });
            },
            None => {
                rest.push(candidates[i].clone());
            },
        }
        i += 1;
    }
    proof {
        assert(candidates@.take(i as int) =~= candidates@);
    }
    let idx = best_per_fp(&keyed, &keys);
    let best = rows_at(&keyed, &keys, &idx, Ghost(|h: RawHint| runtime_fp_key(h)));
    let ghost r = rest@;
    let mut out = rest;
    let mut p: usize = 0;
    while p < best.len()
        invariant
            p <= best@.len(),
            out@ == r + best@.take(p as int),
        decreases best@.len() - p,
    {
        out.push(best[p].clone());
        p += 1;
        proof {
            assert(best@.take(p as int) =~= best@.take(p - 1).push(best@[p - 1]));
        }
    }
    proof {
        assert(best@.take(p as int) =~= best@);
        assert(out@.take(r.len() as int) =~= r);
        assert(out@.skip(r.len() as int) =~= best@);
    }
    out
}

/// FNV-1a of the trimmed, lowercased name (empty when absent).
fn name_fp(n: &Option<String>) -> (h: u64)
    ensures
        h == fnv1a(vstd::utf8::encode_utf8(lowercased(trim_ws(match n {
            Some(s) => s@,
            None => Seq::<char>::empty(),
        })))),
{
    let empty = String::new();
    let s: &str = match n {
        Some(x) => x.as_str(),
        None => empty.as_str(),
    };
    let t = str_trim(s);
    let lower = str_to_lowercase(t);
    fnv1a_bytes(lower.as_str().as_bytes())
}

fn dedupe_by_bounds_and_name(candidates: Vec<RawHint>) -> (out: Vec<RawHint>)
    ensures
        is_best_per_key(candidates@, out@, |h: RawHint| bounds_name_key(h)),
{
    let mut keys: Vec<DedupeKey> = Vec::new();
    let mut i: usize = 0;
    while i < candidates.len()
        invariant
            i <= candidates@.len(),
            keys@.len() == i,
            forall|m: int| 0 <= m < i ==> #[trigger] keys@[m] == bounds_name_key(candidates@[m]),
        decreases candidates@.len() - i,
    {
        let h = &candidates[i];
        let k = DedupeKey {
            a: h.bounds.x as i64,
            b: h.bounds.y as i64,
            c: h.bounds.w as i64,
            d: h.bounds.h as i64,
            e: name_fp(&h.name),
        };
        keys.push(k);
        i += 1;
    }
    best_rows(&candidates, &keys, Ghost(|h: RawHint| bounds_name_key(h)))
}

/// Center of `b`, computed in 64 bits.
fn center(b: &Rect) -> (c: (i64, i64))
    ensures
        c.0 == center_x(*b),
        c.1 == center_y(*b),
{
    (b.x as i64 + (b.w / 2) as i64, b.y as i64 + (b.h / 2) as i64)
}

/// The 4x4 px grid cell holding the center (floor division).
fn center_cell(b: &Rect) -> (c: (i64, i64))
    ensures
        c.0 == center_x(*b) / 4,
        c.1 == center_y(*b) / 4,
{
    let (cx, cy) = center(b);
    let qx = match cx.checked_div_euclid(4) {
        Some(q) => q,
        None => 0,
    };
    let qy = match cy.checked_div_euclid(4) {
        Some(q) => q,
        None => 0,
    };
    (qx, qy)
}

fn dedupe_by_center_grid(candidates: Vec<RawHint>) -> (out: Vec<RawHint>)
    ensures
        is_best_per_key(candidates@, out@, |h: RawHint| center_cell_key(h)),
{
    let mut keys: Vec<DedupeKey> = Vec::new();
    let mut i: usize = 0;
    while i < candidates.len()
        invariant
            i <= candidates@.len(),
            keys@.len() == i,
            forall|m: int| 0 <= m < i ==> #[trigger] keys@[m] == center_cell_key(candidates@[m]),
        decreases candidates@.len() - i,
    {
        let (qx, qy) = center_cell(&candidates[i].bounds);
        keys.push(DedupeKey { a: qx, b: qy, c: 0, d: 0, e: 0 });
        i += 1;
    }
    best_rows(&candidates, &keys, Ghost(|h: RawHint| center_cell_key(h)))
}

fn rect_contains_point(r: Rect, x: i64, y: i64) -> (b: bool)
    ensures
        b == rect_contains_point_spec(r, x as int, y as int),
{
    x >= r.x as i64 && x < r.x as i64 + r.w as i64 && y >= r.y as i64 && y < r.y as i64 + r.h as i64
}

/// Rows in ascending order of area.
pub open spec fn area_sorted(s: Seq<RawHint>) -> bool {
    forall|i: int, j: int| 0 <= i < j < s.len() ==> area_spec(#[trigger] s[i]) <= area_spec(#[trigger] s[j])
}

proof fn lemma_insert_by_area(s: Seq<RawHint>, h: RawHint, pos: int)
    requires
        0 <= pos <= s.len(),
        forall|k: int| 0 <= k < pos ==> area_spec(#[trigger] s[k]) <= area_spec(h),
        forall|k: int| pos <= k < s.len() ==> area_spec(#[trigger] s[k]) > area_spec(h),
    ensures
        insert_by_area(s, h) == s.insert(pos, h),
    decreases s.len(),
{
    if s.len() == 0 {
        assert(s.insert(pos, h) =~= seq![h]);
    } else if area_spec(s.last()) <= area_spec(h) {
        assert(pos == s.len());
        assert(s.insert(pos, h) =~= s.push(h));
    } else {
        let t = s.drop_last();
        assert(pos < s.len());
        assert forall|k: int| 0 <= k < pos implies area_spec(#[trigger] t[k]) <= area_spec(h) by {
            assert(t[k] == s[k]);
        }
        assert forall|k: int| pos <= k < t.len() implies area_spec(#[trigger] t[k]) > area_spec(h) by {
            assert(t[k] == s[k]);
        }
        lemma_insert_by_area(t, h, pos);
        assert(t.insert(pos, h).push(s.last()) =~= s.insert(pos, h));
    }
}

fn sort_rows_by_area(candidates: Vec<RawHint>) -> (sorted: Vec<RawHint>)
    ensures
        sorted@ == sort_by_area(candidates@),
        area_sorted(sorted@),
{
    let mut sorted: Vec<RawHint> = Vec::new();
    let mut i: usize = 0;
    while i < candidates.len()
        invariant
            i <= candidates@.len(),
            sorted@ == sort_by_area(candidates@.take(i as int)),
            area_sorted(sorted@),
        decreases candidates@.len() - i,
    {
        let h = candidates[i].clone();
        let a = area(&h);
        let mut pos = sorted.len();
        while pos > 0 && area(&sorted[pos - 1]) > a
            invariant
                pos <= sorted@.len(),
                area_sorted(sorted@),
                forall|k: int| pos <= k < sorted@.len() ==> area_spec(#[trigger] sorted@[k]) > a,
            decreases pos,
        {
            pos -= 1;
        }
        proof {
            assert forall|k: int| 0 <= k < pos implies area_spec(#[trigger] sorted@[k]) <= a by {
                if k < pos - 1 {
                    assert(area_spec(sorted@[k]) <= area_spec(sorted@[pos - 1]));
                }
            }
            lemma_insert_by_area(sorted@, h, pos as int);
            assert(candidates@.take(i as int + 1).drop_last() =~= candidates@.take(i as int));
            assert(candidates@.take(i as int + 1).last() == candidates@[i as int]);
        }
        let ghost before = sorted@;
        sorted.insert(pos, h);
        proof {
            assert forall|x: int, y: int| 0 <= x < y < sorted@.len() implies area_spec(#[trigger] sorted@[x]) <= area_spec(#[trigger] sorted@[y]) by {
                if y < pos {
                    assert(sorted@[x] == before[x] && sorted@[y] == before[y]);
                } else if y == pos {
                    assert(sorted@[x] == before[x]);
                } else if x > pos {
                    assert(sorted@[x] == before[x - 1] && sorted@[y] == before[y - 1]);
                } else if x == pos {
                    assert(sorted@[y] == before[y - 1]);
                } else {
                    assert(sorted@[x] == before[x] && sorted@[y] == before[y - 1]);
                }
            }
        }
        i += 1;
    }
    proof {
        assert(candidates@.take(i as int) =~= candidates@);
    }
    sorted
}

/// Prefer small, inner rects: drop larger parents whose center a kept smaller element already covers.
fn suppress_fat_parents(candidates: Vec<RawHint>) -> (kept: Vec<RawHint>)
    ensures
        kept@ == suppress_greedy(sort_by_area(candidates@)),
{
    let sorted = sort_rows_by_area(candidates);
    let mut kept: Vec<RawHint> = Vec::new();
    let mut i: usize = 0;
    while i < sorted.len()
        invariant
            i <= sorted@.len(),
            kept@ == suppress_greedy(sorted@.take(i as int)),
        decreases sorted@.len() - i,
    {
        proof {
            assert(sorted@.take(i as int + 1).drop_last() =~= sorted@.take(i as int));
            assert(sorted@.take(i as int + 1).last() == sorted@[i as int]);
        }
        let h = &sorted[i];
        let ah = area(h);
        if ah > 0 {
            let (cx, cy) = center(&h.bounds);
            let mut covered = false;
            let mut p: usize = 0;
            while p < kept.len()
                invariant
                    p <= kept@.len(),
                    ah == area_spec(*h),
                    cx == center_x(h.bounds),
                    cy == center_y(h.bounds),
                    covered ==> covered_by_smaller(kept@, *h),
                    !covered ==> forall|q: int| 0 <= q < p ==> !(area_spec(#[trigger] kept@[q]) < ah
                        && rect_contains_point_spec(kept@[q].bounds, center_x(h.bounds), center_y(h.bounds))),
                ensures
                    covered ==> covered_by_smaller(kept@, *h),
                    !covered ==> !covered_by_smaller(kept@, *h),
                decreases kept@.len() - p + (if covered { 0int } else { 1int }),
            {
                let k = &kept[p];
                let ak = area(k);
                if ak < ah && rect_contains_point(k.bounds, cx, cy) {
                    proof {
                        assert(area_spec(kept@[p as int]) < area_spec(*h));
                        assert(covered_by_smaller(kept@, *h));
                    }
                    covered = true;
                    break;
                }
                assert(!(area_spec(kept@[p as int]) < ah
                    && rect_contains_point_spec(kept@[p as int].bounds, center_x(h.bounds), center_y(h.bounds))));
                p += 1;
            }
            if !covered {
                proof {
                    assert(!covered_by_smaller(kept@, *h));
                }
                kept.push(h.clone());
            }
        }
        i += 1;
    }
    proof {
        assert(sorted@.take(i as int) =~= sorted@);
    }
    kept
}

/// The four dedupe stages, with the intermediate results `m1`, `m2`, `m3`.
pub open spec fn dedupe_pipeline(input: Seq<RawHint>, m1: Seq<RawHint>, m2: Seq<RawHint>, m3: Seq<RawHint>, out: Seq<RawHint>) -> bool {
    &&& runtime_fp_step(input, m1)
    &&& is_best_per_key(m1, m2, |h: RawHint| bounds_name_key(h))
    &&& is_best_per_key(m2, m3, |h: RawHint| center_cell_key(h))
    &&& out == suppress_greedy(sort_by_area(m3))
}

/// Dedupe redundant rows: one row per runtime-id fingerprint, per identical bounds and
/// name, per 4 px center cell (keeping the row with the best kind, then the smallest
/// area, then the smallest id), then drop larger parents whose center a smaller kept
/// row covers. Rows come out in ascending order of area.
pub fn dedupe_raw_hints(candidates: Vec<RawHint>) -> (r: (Vec<RawHint>, DedupeStats))
    ensures
        r.1.before == candidates@.len(),
        r.1.after == r.0@.len(),
        r.1.after <= r.1.before,
        r.1.removed == r.1.before - r.1.after,
        dedupe_result(candidates@, r.0@),
        candidates@.len() >= 2 ==> {
            &&& forall|i: int| 0 <= i < r.0@.len() ==> candidates@.contains(#[trigger] r.0@[i])
            &&& forall|i: int| 0 <= i < r.0@.len() ==> area_spec(#[trigger] r.0@[i]) > 0
            &&& area_sorted(r.0@)
            &&& forall|i: int, j: int| 0 <= i < r.0@.len() && 0 <= j < r.0@.len()
                && area_spec(#[trigger] r.0@[j]) < area_spec(#[trigger] r.0@[i])
                ==> !rect_contains_point_spec(r.0@[j].bounds, center_x(r.0@[i].bounds), center_y(r.0@[i].bounds))
        },
{
    let before = candidates.len();
    if before <= 1 {
        return (candidates, DedupeStats { before, after: before, removed: 0 });
    }
    let ghost v1_view = candidates@;
    let v1 = dedupe_by_runtime_fp(candidates);
    let ghost v1_out = v1@;
    let v2 = dedupe_by_bounds_and_name(v1);
    let ghost m2 = v2@;
    let v3 = dedupe_by_center_grid(v2);
    let ghost m3 = v3@;
    let v = suppress_fat_parents(v3);
    assert(dedupe_pipeline(v1_view, v1_out, m2, m3, v@));
    proof {
        lemma_dedupe_output(v1_view, v1_out, m2, m3, v@);
        lemma_dedupe_result_shrinks(v1_view, v@);
    }
    let after = v.len();
    let removed = before - after;
    (v, DedupeStats { before, after, removed })
}

proof fn lemma_rows_without_fp_from(s: Seq<RawHint>)
    ensures
        forall|i: int| 0 <= i < rows_without_fp(s).len() ==> s.contains(#[trigger] rows_without_fp(s)[i]),
        forall|i: int| 0 <= i < rows_with_fp(s).len() ==> s.contains(#[trigger] rows_with_fp(s)[i]),
    decreases s.len(),
{
    if s.len() > 0 {
        let t = s.drop_last();
        lemma_rows_without_fp_from(t);
        assert forall|i: int| 0 <= i < rows_without_fp(s).len() implies s.contains(#[trigger] rows_without_fp(s)[i]) by {
            if i < rows_without_fp(t).len() {
                let k = choose|k: int| 0 <= k < t.len() && t[k] == rows_without_fp(t)[i];
                assert(s[k] == t[k]);
            } else {
                assert(s[s.len() - 1] == s.last());
            }
        }
        assert forall|i: int| 0 <= i < rows_with_fp(s).len() implies s.contains(#[trigger] rows_with_fp(s)[i]) by {
            if i < rows_with_fp(t).len() {
                let k = choose|k: int| 0 <= k < t.len() && t[k] == rows_with_fp(t)[i];
                assert(s[k] == t[k]);
            } else {
                assert(s[s.len() - 1] == s.last());
            }
        }
    }
}

proof fn lemma_insert_by_area_props(s: Seq<RawHint>, h: RawHint)
    requires
        area_sorted(s),
    ensures
        area_sorted(insert_by_area(s, h)),
        insert_by_area(s, h).len() == s.len() + 1,
        forall|i: int| 0 <= i < insert_by_area(s, h).len() ==> (#[trigger] insert_by_area(s, h)[i] == h || s.contains(insert_by_area(s, h)[i])),
    decreases s.len(),
{
    if s.len() > 0 && area_spec(s.last()) > area_spec(h) {
        let t = s.drop_last();
        assert(area_sorted(t)) by {
            assert forall|i: int, j: int| 0 <= i < j < t.len() implies area_spec(#[trigger] t[i]) <= area_spec(#[trigger] t[j]) by {
                assert(t[i] == s[i] && t[j] == s[j]);
            }
        }
        lemma_insert_by_area_props(t, h);
        let u = insert_by_area(t, h);
        let r = insert_by_area(s, h);
        assert(r == u.push(s.last()));
        assert forall|i: int| 0 <= i < r.len() implies (#[trigger] r[i] == h || s.contains(r[i])) by {
            if i < u.len() {
                assert(r[i] == u[i]);
                if u[i] != h {
                    let k = choose|k: int| 0 <= k < t.len() && t[k] == u[i];
                    assert(s[k] == t[k]);
                }
            } else {
                assert(s[s.len() - 1] == r[i]);
            }
        }
        assert forall|i: int, j: int| 0 <= i < j < r.len() implies area_spec(#[trigger] r[i]) <= area_spec(#[trigger] r[j]) by {
            if j == r.len() - 1 {
                assert(r[j] == s.last());
                if u[i] == h {
                } else {
                    let k = choose|k: int| 0 <= k < t.len() && t[k] == u[i];
                    assert(s[k] == t[k]);
                    assert(area_spec(s[k]) <= area_spec(s[s.len() - 1]));
                }
            } else {
                assert(r[i] == u[i] && r[j] == u[j]);
            }
        }
    } else if s.len() > 0 {
        let r = insert_by_area(s, h);
        assert(r == s.push(h));
        assert forall|i: int| 0 <= i < r.len() implies (#[trigger] r[i] == h || s.contains(r[i])) by {
            if i < s.len() {
                assert(r[i] == s[i]);
            }
        }
        assert forall|i: int, j: int| 0 <= i < j < r.len() implies area_spec(#[trigger] r[i]) <= area_spec(#[trigger] r[j]) by {
            if j == s.len() {
                assert(area_spec(s[i]) <= area_spec(s[s.len() - 1]));
            }
        }
    } else {
        assert(insert_by_area(s, h) =~= seq![h]);
    }
}

proof fn lemma_sort_by_area_props(s: Seq<RawHint>)
    ensures
        area_sorted(sort_by_area(s)),
        forall|i: int| 0 <= i < sort_by_area(s).len() ==> s.contains(#[trigger] sort_by_area(s)[i]),
    decreases s.len(),
{
    if s.len() > 0 {
        let t = s.drop_last();
        lemma_sort_by_area_props(t);
        lemma_insert_by_area_props(sort_by_area(t), s.last());
        let r = sort_by_area(s);
        assert forall|i: int| 0 <= i < r.len() implies s.contains(#[trigger] r[i]) by {
            if r[i] == s.last() {
                assert(s[s.len() - 1] == s.last());
            } else {
                let k = choose|k: int| 0 <= k < sort_by_area(t).len() && sort_by_area(t)[k] == r[i];
                let k2 = choose|k2: int| 0 <= k2 < t.len() && t[k2] == sort_by_area(t)[k];
                assert(s[k2] == t[k2]);
            }
        }
    }
}

/// What the last stage keeps: rows of the input with positive area, in ascending
/// area order, none of whose centers lies in a kept row of strictly smaller area.
proof fn lemma_suppress_greedy_props(s: Seq<RawHint>)
    requires
        area_sorted(s),
    ensures
        ({
            let g = suppress_greedy(s);
            &&& forall|i: int| 0 <= i < g.len() ==> s.contains(#[trigger] g[i])
            &&& forall|i: int| 0 <= i < g.len() ==> area_spec(#[trigger] g[i]) > 0
            &&& area_sorted(g)
            &&& forall|i: int, j: int| 0 <= i < g.len() && 0 <= j < g.len() && area_spec(#[trigger] g[j]) < area_spec(#[trigger] g[i])
                ==> !rect_contains_point_spec(g[j].bounds, center_x(g[i].bounds), center_y(g[i].bounds))
        }),
    decreases s.len(),
{
    if s.len() > 0 {
        let t = s.drop_last();
        assert(area_sorted(t)) by {
            assert forall|i: int, j: int| 0 <= i < j < t.len() implies area_spec(#[trigger] t[i]) <= area_spec(#[trigger] t[j]) by {
                assert(t[i] == s[i] && t[j] == s[j]);
            }
        }
        lemma_suppress_greedy_props(t);
        let k = suppress_greedy(t);
        let g = suppress_greedy(s);
        let h = s.last();
        assert forall|i: int| 0 <= i < k.len() implies s.contains(#[trigger] k[i]) && area_spec(k[i]) <= area_spec(h) by {
            let q = choose|q: int| 0 <= q < t.len() && t[q] == k[i];
            assert(s[q] == t[q]);
            assert(area_spec(s[q]) <= area_spec(s[s.len() - 1]));
        }
        if area_spec(h) > 0 && !covered_by_smaller(k, h) {
            assert(g == k.push(h));
            assert forall|i: int| 0 <= i < g.len() implies s.contains(#[trigger] g[i]) by {
                if i < k.len() {
                    assert(g[i] == k[i]);
                } else {
                    assert(s[s.len() - 1] == h);
                }
            }
            assert forall|i: int, j: int| 0 <= i < g.len() && 0 <= j < g.len() && area_spec(#[trigger] g[j]) < area_spec(#[trigger] g[i])
                implies !rect_contains_point_spec(g[j].bounds, center_x(g[i].bounds), center_y(g[i].bounds)) by {
                if i == k.len() {
                    if j < k.len() {
                        assert(g[j] == k[j]);
                        if rect_contains_point_spec(k[j].bounds, center_x(h.bounds), center_y(h.bounds)) {
                            assert(covered_by_smaller(k, h));
                        }
                    }
                } else if j == k.len() {
                    assert(g[i] == k[i]);
                } else {
                    assert(g[i] == k[i] && g[j] == k[j]);
                }
            }
        }
    }
}

/// Facts about what [`dedupe_raw_hints`] returns, whatever order its grouping stages produce.
pub proof fn lemma_dedupe_output(input: Seq<RawHint>, m1: Seq<RawHint>, m2: Seq<RawHint>, m3: Seq<RawHint>, out: Seq<RawHint>)
    requires
        dedupe_pipeline(input, m1, m2, m3, out),
    ensures
        forall|i: int| 0 <= i < out.len() ==> input.contains(#[trigger] out[i]),
        forall|i: int| 0 <= i < out.len() ==> area_spec(#[trigger] out[i]) > 0,
        area_sorted(out),
        forall|i: int, j: int| 0 <= i < out.len() && 0 <= j < out.len() && area_spec(#[trigger] out[j]) < area_spec(#[trigger] out[i])
            ==> !rect_contains_point_spec(out[j].bounds, center_x(out[i].bounds), center_y(out[i].bounds)),
{
    lemma_rows_without_fp_from(input);
    let r = rows_without_fp(input).len() as int;
    assert forall|i: int| 0 <= i < m1.len() implies input.contains(#[trigger] m1[i]) by {
        if i < r {
            assert(m1.take(r)[i] == m1[i]);
            assert(rows_without_fp(input)[i] == m1[i]);
        } else {
            assert(m1.skip(r)[i - r] == m1[i]);
            let q = choose|q: int| 0 <= q < rows_with_fp(input).len() && rows_with_fp(input)[q] == m1.skip(r)[i - r];
        }
    }
    assert forall|i: int| 0 <= i < m3.len() implies input.contains(#[trigger] m3[i]) by {
        let q = choose|q: int| 0 <= q < m2.len() && m2[q] == m3[i];
        let q2 = choose|q2: int| 0 <= q2 < m1.len() && m1[q2] == m2[q];
    }
    lemma_sort_by_area_props(m3);
    lemma_suppress_greedy_props(sort_by_area(m3));
    assert forall|i: int| 0 <= i < out.len() implies input.contains(#[trigger] out[i]) by {
        let q = choose|q: int| 0 <= q < sort_by_area(m3).len() && sort_by_area(m3)[q] == out[i];
        let q2 = choose|q2: int| 0 <= q2 < m3.len() && m3[q2] == sort_by_area(m3)[q];
    }
}


/// No two rows share a key.
pub open spec fn keys_unique(s: Seq<RawHint>, key: spec_fn(RawHint) -> DedupeKey) -> bool {
    forall|i: int, j: int| 0 <= i < j < s.len() ==> key(#[trigger] s[i]) != key(#[trigger] s[j])
}

/// No two rows carry the same runtime-id fingerprint.
pub open spec fn fps_unique(s: Seq<RawHint>) -> bool {
    forall|i: int, j: int| 0 <= i < s.len() && 0 <= j < s.len() && i != j
        && (#[trigger] s[i]).uia_runtime_id_fp is Some && (#[trigger] s[j]).uia_runtime_id_fp is Some
        ==> s[i].uia_runtime_id_fp != s[j].uia_runtime_id_fp
}

proof fn lemma_same_elements_ms(a: Seq<RawHint>, b: Seq<RawHint>)
    requires
        a.no_duplicates(),
        b.no_duplicates(),
        forall|x: RawHint| a.contains(x) <==> b.contains(x),
    ensures
        a.to_multiset() == b.to_multiset(),
        a.len() == b.len(),
{
    broadcast use vstd::seq_lib::group_to_multiset_ensures;
    a.lemma_multiset_has_no_duplicates();
    b.lemma_multiset_has_no_duplicates();
    assert forall|x: RawHint| a.to_multiset().count(x) == b.to_multiset().count(x) by {
        if a.contains(x) {
            assert(a.to_multiset().count(x) > 0);
            assert(b.to_multiset().count(x) > 0);
        }
    }
    assert(a.to_multiset() =~= b.to_multiset());
    assert(a.len() == a.to_multiset().len());
    assert(b.len() == b.to_multiset().len());
}

proof fn lemma_unique_keys_no_dup(s: Seq<RawHint>, key: spec_fn(RawHint) -> DedupeKey)
    requires
        keys_unique(s, key),
    ensures
        s.no_duplicates(),
{
    assert forall|i: int, j: int| 0 <= i < s.len() && 0 <= j < s.len() && i != j implies s[i] != s[j] by {
        if i < j {
            assert(key(s[i]) != key(s[j]));
        } else {
            assert(key(s[j]) != key(s[i]));
        }
    }
}

proof fn lemma_sub_keys_unique(big: Seq<RawHint>, small: Seq<RawHint>, key: spec_fn(RawHint) -> DedupeKey)
    requires
        keys_unique(big, key),
        small.no_duplicates(),
        forall|x: RawHint| small.contains(x) ==> big.contains(x),
    ensures
        keys_unique(small, key),
{
    assert forall|i: int, j: int| 0 <= i < j < small.len() implies key(#[trigger] small[i]) != key(#[trigger] small[j]) by {
        assert(small.contains(small[i]));
        assert(small.contains(small[j]));
        let a = choose|a: int| 0 <= a < big.len() && big[a] == small[i];
        let b = choose|b: int| 0 <= b < big.len() && big[b] == small[j];
        assert(small[i] != small[j]);
        if a < b {
            assert(key(big[a]) != key(big[b]));
        } else {
            assert(key(big[b]) != key(big[a]));
        }
    }
}

/// When no two input rows share a key, the best row of each key is every row.
proof fn lemma_best_keeps_all(input: Seq<RawHint>, out: Seq<RawHint>, key: spec_fn(RawHint) -> DedupeKey)
    requires
        is_best_per_key(input, out, key),
        keys_unique(input, key),
    ensures
        out.to_multiset() == input.to_multiset(),
        out.len() == input.len(),
        out.no_duplicates(),
        forall|x: RawHint| out.contains(x) <==> input.contains(x),
{
    lemma_unique_keys_no_dup(input, key);
    lemma_unique_keys_no_dup(out, key);
    assert forall|x: RawHint| input.contains(x) implies out.contains(x) by {
        let j = choose|j: int| 0 <= j < input.len() && input[j] == x;
        assert(has_best(out, input[j], key));
        let i = choose|i: int| 0 <= i < out.len() && key(#[trigger] out[i]) == key(input[j]) && keep_over(out[i], input[j]);
        assert(input.contains(out[i]));
        let q = choose|q: int| 0 <= q < input.len() && input[q] == out[i];
        if q < j {
            assert(key(input[q]) != key(input[j]));
        } else if j < q {
            assert(key(input[j]) != key(input[q]));
        }
        assert(out[i] == x);
    }
    assert forall|x: RawHint| out.contains(x) implies input.contains(x) by {
        let i = choose|i: int| 0 <= i < out.len() && out[i] == x;
    }
    lemma_same_elements_ms(out, input);
}


/// The rows without a fingerprint and those with one, taken from `s`, are exactly its
/// rows of each sort.
proof fn lemma_fp_split(s: Seq<RawHint>)
    ensures
        forall|i: int| 0 <= i < rows_without_fp(s).len() ==> (#[trigger] rows_without_fp(s)[i]).uia_runtime_id_fp is None
            && s.contains(rows_without_fp(s)[i]),
        forall|i: int| 0 <= i < rows_with_fp(s).len() ==> (#[trigger] rows_with_fp(s)[i]).uia_runtime_id_fp is Some
            && s.contains(rows_with_fp(s)[i]),
        forall|x: RawHint| s.contains(x) && x.uia_runtime_id_fp is None ==> rows_without_fp(s).contains(x),
        forall|x: RawHint| s.contains(x) && x.uia_runtime_id_fp is Some ==> rows_with_fp(s).contains(x),
        s.no_duplicates() ==> rows_without_fp(s).no_duplicates() && rows_with_fp(s).no_duplicates(),
    decreases s.len(),
{
    lemma_rows_without_fp_from(s);
    if s.len() > 0 {
        let t = s.drop_last();
        let h = s.last();
        lemma_fp_split(t);
        let wo = rows_without_fp(t);
        let wi = rows_with_fp(t);
        assert forall|x: RawHint| s.contains(x) && x.uia_runtime_id_fp is None implies rows_without_fp(s).contains(x) by {
            let k = choose|k: int| 0 <= k < s.len() && s[k] == x;
            if k < t.len() {
                assert(t[k] == x);
                assert(t.contains(x));
                let q = choose|q: int| 0 <= q < wo.len() && wo[q] == x;
                if h.uia_runtime_id_fp is None {
                    assert(rows_without_fp(s) == wo.push(h));
                    assert(rows_without_fp(s)[q] == wo[q]);
                } else {
                    assert(rows_without_fp(s) == wo);
                }
                assert(rows_without_fp(s)[q] == x);
            } else {
                assert(rows_without_fp(s) == wo.push(h));
                assert(rows_without_fp(s)[wo.len() as int] == x);
            }
        }
        assert forall|x: RawHint| s.contains(x) && x.uia_runtime_id_fp is Some implies rows_with_fp(s).contains(x) by {
            let k = choose|k: int| 0 <= k < s.len() && s[k] == x;
            if k < t.len() {
                assert(t[k] == x);
                assert(t.contains(x));
                let q = choose|q: int| 0 <= q < wi.len() && wi[q] == x;
                if h.uia_runtime_id_fp is Some {
                    assert(rows_with_fp(s) == wi.push(h));
                    assert(rows_with_fp(s)[q] == wi[q]);
                } else {
                    assert(rows_with_fp(s) == wi);
                }
                assert(rows_with_fp(s)[q] == x);
            } else {
                assert(rows_with_fp(s) == wi.push(h));
                assert(rows_with_fp(s)[wi.len() as int] == x);
            }
        }
        assert forall|i: int| 0 <= i < rows_without_fp(s).len() implies (#[trigger] rows_without_fp(s)[i]).uia_runtime_id_fp is None by {
            if i < wo.len() {
                assert(rows_without_fp(s)[i] == wo[i]);
            }
        }
        assert forall|i: int| 0 <= i < rows_with_fp(s).len() implies (#[trigger] rows_with_fp(s)[i]).uia_runtime_id_fp is Some by {
            if i < wi.len() {
                assert(rows_with_fp(s)[i] == wi[i]);
            }
        }
        if s.no_duplicates() {
            assert(t.no_duplicates()) by {
                assert forall|i: int, j: int| 0 <= i < t.len() && 0 <= j < t.len() && i != j implies t[i] != t[j] by {
                    assert(t[i] == s[i] && t[j] == s[j]);
                }
            }
            assert(!t.contains(h)) by {
                if t.contains(h) {
                    let k = choose|k: int| 0 <= k < t.len() && t[k] == h;
                    assert(s[k] == s[s.len() - 1]);
                }
            }
            assert(!wo.contains(h)) by {
                if wo.contains(h) {
                    let q = choose|q: int| 0 <= q < wo.len() && wo[q] == h;
                }
            }
            assert(!wi.contains(h)) by {
                if wi.contains(h) {
                    let q = choose|q: int| 0 <= q < wi.len() && wi[q] == h;
                }
            }
            assert(rows_without_fp(s).no_duplicates()) by {
                let r = rows_without_fp(s);
                if h.uia_runtime_id_fp is None {
                    assert(r == wo.push(h));
                    assert forall|i: int, j: int| 0 <= i < r.len() && 0 <= j < r.len() && i != j implies r[i] != r[j] by {
                        if i == wo.len() {
                            assert(r[j] == wo[j]);
                            assert(wo.contains(wo[j]));
                        } else if j == wo.len() {
                            assert(r[i] == wo[i]);
                            assert(wo.contains(wo[i]));
                        } else {
                            assert(r[i] == wo[i] && r[j] == wo[j]);
                        }
                    }
                }
            }
            assert(rows_with_fp(s).no_duplicates()) by {
                let r = rows_with_fp(s);
                if h.uia_runtime_id_fp is Some {
                    assert(r == wi.push(h));
                    assert forall|i: int, j: int| 0 <= i < r.len() && 0 <= j < r.len() && i != j implies r[i] != r[j] by {
                        if i == wi.len() {
                            assert(r[j] == wi[j]);
                            assert(wi.contains(wi[j]));
                        } else if j == wi.len() {
                            assert(r[i] == wi[i]);
                            assert(wi.contains(wi[i]));
                        } else {
                            assert(r[i] == wi[i] && r[j] == wi[j]);
                        }
                    }
                }
            }
        }
    }
}

proof fn lemma_insert_by_area_ms(s: Seq<RawHint>, h: RawHint)
    ensures
        insert_by_area(s, h).to_multiset() == s.to_multiset().insert(h),
    decreases s.len(),
{
    broadcast use vstd::seq_lib::group_to_multiset_ensures;
    broadcast use vstd::multiset::group_multiset_axioms;
    if s.len() == 0 {
        assert(insert_by_area(s, h) =~= s.push(h));
    } else if area_spec(s.last()) <= area_spec(h) {
    } else {
        let t = s.drop_last();
        lemma_insert_by_area_ms(t, h);
        assert(t.push(s.last()) =~= s);
        assert(insert_by_area(s, h).to_multiset() =~= s.to_multiset().insert(h));
    }
}

/// Sorting by area keeps every row, as often as it occurs.
proof fn lemma_sort_by_area_ms(s: Seq<RawHint>)
    ensures
        sort_by_area(s).to_multiset() == s.to_multiset(),
    decreases s.len(),
{
    broadcast use vstd::seq_lib::group_to_multiset_ensures;
    if s.len() > 0 {
        let t = s.drop_last();
        lemma_sort_by_area_ms(t);
        lemma_insert_by_area_ms(sort_by_area(t), s.last());
        assert(t.push(s.last()) =~= s);
    }
}

/// The last stage keeps only rows it is given, and keeps them distinct.
proof fn lemma_suppress_sub(s: Seq<RawHint>)
    ensures
        forall|x: RawHint| suppress_greedy(s).contains(x) ==> s.contains(x),
        s.no_duplicates() ==> suppress_greedy(s).no_duplicates(),
    decreases s.len(),
{
    if s.len() > 0 {
        let t = s.drop_last();
        let h = s.last();
        lemma_suppress_sub(t);
        let k = suppress_greedy(t);
        let g = suppress_greedy(s);
        assert forall|x: RawHint| g.contains(x) implies s.contains(x) by {
            let i = choose|i: int| 0 <= i < g.len() && g[i] == x;
            if i < k.len() {
                assert(g[i] == k[i]);
                assert(k.contains(x));
                assert(t.contains(x));
                let q = choose|q: int| 0 <= q < t.len() && t[q] == x;
                assert(s[q] == x);
            } else {
                assert(s[s.len() - 1] == x);
            }
        }
        if s.no_duplicates() {
            assert(t.no_duplicates()) by {
                assert forall|i: int, j: int| 0 <= i < t.len() && 0 <= j < t.len() && i != j implies t[i] != t[j] by {
                    assert(t[i] == s[i] && t[j] == s[j]);
                }
            }
            assert(!k.contains(h)) by {
                if k.contains(h) {
                    assert(t.contains(h));
                    let q = choose|q: int| 0 <= q < t.len() && t[q] == h;
                    assert(s[q] == s[s.len() - 1]);
                }
            }
            if g != k {
                assert(g == k.push(h));
                assert forall|i: int, j: int| 0 <= i < g.len() && 0 <= j < g.len() && i != j implies g[i] != g[j] by {
                    if i == k.len() {
                        assert(g[j] == k[j]);
                        assert(k.contains(k[j]));
                    } else if j == k.len() {
                        assert(g[i] == k[i]);
                        assert(k.contains(k[i]));
                    } else {
                        assert(g[i] == k[i] && g[j] == k[j]);
                    }
                }
            }
        }
    }
}

/// Rows of positive area none of whose centers lies in a row of strictly smaller area
/// all pass the last stage.
proof fn lemma_suppress_keeps_all(s: Seq<RawHint>)
    requires
        forall|i: int| 0 <= i < s.len() ==> area_spec(#[trigger] s[i]) > 0,
        forall|i: int, j: int| 0 <= i < s.len() && 0 <= j < s.len() && area_spec(#[trigger] s[j]) < area_spec(#[trigger] s[i])
            ==> !rect_contains_point_spec(s[j].bounds, center_x(s[i].bounds), center_y(s[i].bounds)),
    ensures
        suppress_greedy(s) == s,
    decreases s.len(),
{
    if s.len() > 0 {
        let t = s.drop_last();
        let h = s.last();
        assert forall|i: int, j: int| 0 <= i < t.len() && 0 <= j < t.len() && area_spec(#[trigger] t[j]) < area_spec(#[trigger] t[i])
            implies !rect_contains_point_spec(t[j].bounds, center_x(t[i].bounds), center_y(t[i].bounds)) by {
            assert(t[i] == s[i] && t[j] == s[j]);
        }
        assert forall|i: int| 0 <= i < t.len() implies area_spec(#[trigger] t[i]) > 0 by {
            assert(t[i] == s[i]);
        }
        lemma_suppress_keeps_all(t);
        assert(area_spec(s[s.len() - 1]) > 0);
        assert(!covered_by_smaller(t, h)) by {
            if covered_by_smaller(t, h) {
                let k = choose|k: int| 0 <= k < t.len() && area_spec(#[trigger] t[k]) < area_spec(h)
                    && rect_contains_point_spec(t[k].bounds, center_x(h.bounds), center_y(h.bounds));
                assert(t[k] == s[k]);
                assert(area_spec(s[k]) < area_spec(s[s.len() - 1]));
            }
        }
        assert(t.push(h) =~= s);
    }
}


/// What the pipeline returns holds each row once, with no two rows sharing a fingerprint,
/// bounds and name, or center cell.
proof fn lemma_pipeline_out_distinct(input: Seq<RawHint>, m1: Seq<RawHint>, m2: Seq<RawHint>, m3: Seq<RawHint>, out: Seq<RawHint>)
    requires
        dedupe_pipeline(input, m1, m2, m3, out),
    ensures
        out.no_duplicates(),
        forall|x: RawHint| out.contains(x) ==> input.contains(x),
        keys_unique(out, |h: RawHint| bounds_name_key(h)),
        keys_unique(out, |h: RawHint| center_cell_key(h)),
        fps_unique(out),
{
    broadcast use vstd::seq_lib::group_to_multiset_ensures;
    lemma_dedupe_output(input, m1, m2, m3, out);
    assert forall|x: RawHint| out.contains(x) implies input.contains(x) by {
        let i = choose|i: int| 0 <= i < out.len() && out[i] == x;
    }
    let cc = |h: RawHint| center_cell_key(h);
    let bn = |h: RawHint| bounds_name_key(h);
    lemma_unique_keys_no_dup(m3, cc);
    let sorted = sort_by_area(m3);
    lemma_sort_by_area_ms(m3);
    m3.lemma_multiset_has_no_duplicates();
    sorted.lemma_multiset_has_no_duplicates_conv();
    lemma_suppress_sub(sorted);
    assert forall|x: RawHint| out.contains(x) implies m3.contains(x) by {
        assert(sorted.contains(x));
        assert(sorted.to_multiset().count(x) > 0);
    }
    lemma_sub_keys_unique(m3, out, cc);
    assert forall|x: RawHint| out.contains(x) implies m2.contains(x) by {
        assert(m3.contains(x));
        let i = choose|i: int| 0 <= i < m3.len() && m3[i] == x;
    }
    lemma_sub_keys_unique(m2, out, bn);
    // fingerprints: rows with one sit in the grouped part of `m1`
    lemma_fp_split(input);
    let r = rows_without_fp(input).len() as int;
    let g = m1.skip(r);
    assert forall|i: int, j: int| 0 <= i < out.len() && 0 <= j < out.len() && i != j
        && (#[trigger] out[i]).uia_runtime_id_fp is Some && (#[trigger] out[j]).uia_runtime_id_fp is Some
        implies out[i].uia_runtime_id_fp != out[j].uia_runtime_id_fp by {
        assert(out.contains(out[i]) && out.contains(out[j]));
        assert(m2.contains(out[i]) && m2.contains(out[j]));
        let pa = choose|pa: int| 0 <= pa < m2.len() && m2[pa] == out[i];
        let pb = choose|pb: int| 0 <= pb < m2.len() && m2[pb] == out[j];
        assert(m1.contains(m2[pa]) && m1.contains(m2[pb]));
        let a = choose|a: int| 0 <= a < m1.len() && m1[a] == out[i];
        let b = choose|b: int| 0 <= b < m1.len() && m1[b] == out[j];
        if a < r {
            assert(m1.take(r)[a] == m1[a]);
            assert(rows_without_fp(input)[a].uia_runtime_id_fp is None);
        }
        if b < r {
            assert(m1.take(r)[b] == m1[b]);
            assert(rows_without_fp(input)[b].uia_runtime_id_fp is None);
        }
        assert(a >= r && b >= r);
        assert(g[a - r] == m1[a] && g[b - r] == m1[b]);
        assert(out[i] != out[j]);
        assert(a != b);
        if a < b {
            assert(runtime_fp_key(g[a - r]) != runtime_fp_key(g[b - r]));
        } else {
            assert(runtime_fp_key(g[b - r]) != runtime_fp_key(g[a - r]));
        }
    }
}

/// A second pass over rows that a pass returned gives back the same rows.
proof fn lemma_second_pass(o: Seq<RawHint>, n1: Seq<RawHint>, n2: Seq<RawHint>, n3: Seq<RawHint>, o2: Seq<RawHint>)
    requires
        o.no_duplicates(),
        keys_unique(o, |h: RawHint| bounds_name_key(h)),
        keys_unique(o, |h: RawHint| center_cell_key(h)),
        fps_unique(o),
        forall|i: int| 0 <= i < o.len() ==> area_spec(#[trigger] o[i]) > 0,
        forall|i: int, j: int| 0 <= i < o.len() && 0 <= j < o.len() && area_spec(#[trigger] o[j]) < area_spec(#[trigger] o[i])
            ==> !rect_contains_point_spec(o[j].bounds, center_x(o[i].bounds), center_y(o[i].bounds)),
        dedupe_pipeline(o, n1, n2, n3, o2),
    ensures
        o2.to_multiset() == o.to_multiset(),
        o2.len() == o.len(),
{
    broadcast use vstd::seq_lib::group_to_multiset_ensures;
    let cc = |h: RawHint| center_cell_key(h);
    let bn = |h: RawHint| bounds_name_key(h);
    let fk = |h: RawHint| runtime_fp_key(h);
    // stage one
    lemma_fp_split(o);
    let rest = rows_without_fp(o);
    let keyed = rows_with_fp(o);
    let r = rest.len() as int;
    let best = n1.skip(r);
    assert forall|i: int, j: int| 0 <= i < j < keyed.len() implies fk(#[trigger] keyed[i]) != fk(#[trigger] keyed[j]) by {
        assert(keyed[i] != keyed[j]);
        assert(o.contains(keyed[i]) && o.contains(keyed[j]));
        let a = choose|a: int| 0 <= a < o.len() && o[a] == keyed[i];
        let b = choose|b: int| 0 <= b < o.len() && o[b] == keyed[j];
        assert(o[a].uia_runtime_id_fp is Some && o[b].uia_runtime_id_fp is Some);
    }
    lemma_best_keeps_all(keyed, best, fk);
    assert(n1 =~= rest + best) by {
        assert(n1.take(r) == rest);
    }
    assert(n1.no_duplicates()) by {
        assert forall|i: int, j: int| 0 <= i < n1.len() && 0 <= j < n1.len() && i != j implies n1[i] != n1[j] by {
            if i < r && j < r {
                assert(n1[i] == rest[i] && n1[j] == rest[j]);
            } else if i >= r && j >= r {
                assert(n1[i] == best[i - r] && n1[j] == best[j - r]);
            } else if i < r {
                assert(n1[i] == rest[i] && n1[j] == best[j - r]);
                assert(best.contains(best[j - r]));
                assert(keyed.contains(best[j - r]));
                let q = choose|q: int| 0 <= q < keyed.len() && keyed[q] == best[j - r];
            } else {
                assert(n1[j] == rest[j] && n1[i] == best[i - r]);
                assert(best.contains(best[i - r]));
                assert(keyed.contains(best[i - r]));
                let q = choose|q: int| 0 <= q < keyed.len() && keyed[q] == best[i - r];
            }
        }
    }
    assert forall|x: RawHint| n1.contains(x) <==> o.contains(x) by {
        if n1.contains(x) {
            let i = choose|i: int| 0 <= i < n1.len() && n1[i] == x;
            if i < r {
                assert(n1[i] == rest[i]);
            } else {
                assert(n1[i] == best[i - r]);
                assert(best.contains(x));
                assert(keyed.contains(x));
            }
        }
        if o.contains(x) {
            if x.uia_runtime_id_fp is None {
                assert(rest.contains(x));
                let q = choose|q: int| 0 <= q < rest.len() && rest[q] == x;
                assert(n1[q] == x);
            } else {
                assert(keyed.contains(x));
                assert(best.contains(x));
                let q = choose|q: int| 0 <= q < best.len() && best[q] == x;
                assert(n1[r + q] == x);
            }
        }
    }
    lemma_same_elements_ms(n1, o);
    // stage two
    lemma_sub_keys_unique(o, n1, bn);
    lemma_best_keeps_all(n1, n2, bn);
    // stage three
    lemma_sub_keys_unique(o, n2, cc);
    lemma_best_keeps_all(n2, n3, cc);
    // stage four
    let sorted = sort_by_area(n3);
    lemma_sort_by_area_ms(n3);
    assert forall|x: RawHint| sorted.contains(x) implies o.contains(x) by {
        assert(sorted.to_multiset().count(x) > 0);
        assert(n3.contains(x));
    }
    assert forall|i: int| 0 <= i < sorted.len() implies area_spec(#[trigger] sorted[i]) > 0 by {
        assert(o.contains(sorted[i]));
        let a = choose|a: int| 0 <= a < o.len() && o[a] == sorted[i];
    }
    assert forall|i: int, j: int| 0 <= i < sorted.len() && 0 <= j < sorted.len() && area_spec(#[trigger] sorted[j]) < area_spec(#[trigger] sorted[i])
        implies !rect_contains_point_spec(sorted[j].bounds, center_x(sorted[i].bounds), center_y(sorted[i].bounds)) by {
        assert(o.contains(sorted[i]) && o.contains(sorted[j]));
        let a = choose|a: int| 0 <= a < o.len() && o[a] == sorted[i];
        let b = choose|b: int| 0 <= b < o.len() && o[b] == sorted[j];
        assert(area_spec(o[b]) < area_spec(o[a]));
    }
    lemma_suppress_keeps_all(sorted);
    assert(o2 == sorted);
    assert(o2.len() == o2.to_multiset().len());
    assert(o.len() == o.to_multiset().len());
}

/// What [`dedupe_raw_hints`] returns for `input`: a list of at most one row unchanged,
/// else the result of the four stages.
pub open spec fn dedupe_result(input: Seq<RawHint>, out: Seq<RawHint>) -> bool {
    if input.len() <= 1 {
        out == input
    } else {
        exists|m1: Seq<RawHint>, m2: Seq<RawHint>, m3: Seq<RawHint>| #[trigger] dedupe_pipeline(input, m1, m2, m3, out)
    }
}

/// A dedupe result holds each row once and no more rows than its input.
pub proof fn lemma_dedupe_result_shrinks(input: Seq<RawHint>, out: Seq<RawHint>)
    requires
        dedupe_result(input, out),
    ensures
        out.len() <= input.len(),
{
    if input.len() >= 2 {
        let (m1, m2, m3) = choose|m1: Seq<RawHint>, m2: Seq<RawHint>, m3: Seq<RawHint>| #[trigger] dedupe_pipeline(input, m1, m2, m3, out);
        lemma_pipeline_out_distinct(input, m1, m2, m3, out);
        out.unique_seq_to_set();
        input.lemma_cardinality_of_set();
        assert(out.to_set().subset_of(input.to_set()));
        vstd::set_lib::lemma_len_subset(out.to_set(), input.to_set());
    }
}

/// Deduplicating rows that deduplication returned removes nothing: when `out` is what
/// [`dedupe_raw_hints`] returns for some input and `out2` what it returns for `out`, then
/// `out2` is a permutation of `out` (in ascending area order; rows of equal area may change
/// places), so the second call reports `removed == 0`.
pub proof fn lemma_dedupe_idempotent(input: Seq<RawHint>, out: Seq<RawHint>, out2: Seq<RawHint>)
    requires
        dedupe_result(input, out),
        dedupe_result(out, out2),
    ensures
        out2.to_multiset() == out.to_multiset(),
        out2.len() == out.len(),
{
    if out.len() >= 2 {
        assert(input.len() >= 2);
        let (m1, m2, m3) = choose|m1: Seq<RawHint>, m2: Seq<RawHint>, m3: Seq<RawHint>| #[trigger] dedupe_pipeline(input, m1, m2, m3, out);
        let (n1, n2, n3) = choose|n1: Seq<RawHint>, n2: Seq<RawHint>, n3: Seq<RawHint>| #[trigger] dedupe_pipeline(out, n1, n2, n3, out2);
        lemma_pipeline_out_distinct(input, m1, m2, m3, out);
        lemma_dedupe_output(input, m1, m2, m3, out);
        lemma_second_pass(out, n1, n2, n3, out2);
    }
}


/// Kind `a` ranks strictly above kind `b` in the order of what a hint does best:
/// Invoke > Toggle = Select > ExpandCollapse > Editable > GenericClickable.
pub open spec fn kind_outranks(a: ElementKind, b: ElementKind) -> bool {
    match a {
        ElementKind::Invoke => b != ElementKind::Invoke,
        ElementKind::Toggle | ElementKind::Select => b == ElementKind::ExpandCollapse
            || b == ElementKind::Editable || b == ElementKind::GenericClickable,
        ElementKind::ExpandCollapse => b == ElementKind::Editable || b == ElementKind::GenericClickable,
        ElementKind::Editable => b == ElementKind::GenericClickable,
        ElementKind::GenericClickable => false,
    }
}

/// Kinds `a` and `b` rank the same: equal, or Toggle and Select.
pub open spec fn kind_same_rank(a: ElementKind, b: ElementKind) -> bool {
    a == b || (a == ElementKind::Toggle && b == ElementKind::Select) || (a == ElementKind::Select && b == ElementKind::Toggle)
}

/// Which of two rows for the same target is kept: a row of a higher-ranking kind always
/// wins; between kinds of the same rank the smaller area wins, then the smaller id.
pub proof fn lemma_keep_over_by_kind_rank(a: RawHint, b: RawHint)
    ensures
        kind_outranks(a.kind, b.kind) ==> keep_over(a, b) && !keep_over(b, a),
        kind_same_rank(a.kind, b.kind) ==> (keep_over(a, b) <==> (area_spec(a) < area_spec(b)
            || (area_spec(a) == area_spec(b) && a.element_id <= b.element_id))),
        kind_outranks(a.kind, b.kind) || kind_outranks(b.kind, a.kind) || kind_same_rank(a.kind, b.kind),
{
}

/// A grouping stage never keeps a row whose key it shares with a row of a higher-ranking
/// kind.
pub proof fn lemma_best_drops_outranked(input: Seq<RawHint>, out: Seq<RawHint>, key: spec_fn(RawHint) -> DedupeKey, i: int, j: int)
    requires
        is_best_per_key(input, out, key),
        0 <= i < input.len(),
        0 <= j < input.len(),
        key(input[i]) == key(input[j]),
        kind_outranks(input[i].kind, input[j].kind),
    ensures
        !out.contains(input[j]),
{
    lemma_keep_over_by_kind_rank(input[i], input[j]);
    if out.contains(input[j]) {
        let k = choose|k: int| 0 <= k < out.len() && out[k] == input[j];
        assert(has_best(out, input[i], key));
        let m = choose|m: int| 0 <= m < out.len() && key(#[trigger] out[m]) == key(input[i]) && keep_over(out[m], input[i]);
        if k < m {
            assert(key(out[k]) != key(out[m]));
        } else if m < k {
            assert(key(out[m]) != key(out[k]));
        }
        assert(out[m] == input[j]);
    }
}

/// Of two rows without a runtime-id fingerprint that have the same bounds and name, the
/// deduplicated rows never hold the one of lower-ranking kind: a Select row never
/// survives beside an Invoke row with the same bounds and name.
pub proof fn lemma_dedupe_drops_outranked_twin(input: Seq<RawHint>, out: Seq<RawHint>, i: int, j: int)
    requires
        dedupe_result(input, out),
        0 <= i < input.len(),
        0 <= j < input.len(),
        input[i].uia_runtime_id_fp is None,
        input[j].uia_runtime_id_fp is None,
        input[i].bounds == input[j].bounds,
        input[i].name == input[j].name,
        kind_outranks(input[i].kind, input[j].kind),
    ensures
        !out.contains(input[j]),
{
    assert(input[i] != input[j]);
    assert(input.len() >= 2);
    let (m1, m2, m3) = choose|m1: Seq<RawHint>, m2: Seq<RawHint>, m3: Seq<RawHint>| #[trigger] dedupe_pipeline(input, m1, m2, m3, out);
    lemma_fp_split(input);
    let rest = rows_without_fp(input);
    let r = rest.len() as int;
    assert(input.contains(input[i]) && input.contains(input[j]));
    assert(rest.contains(input[i]) && rest.contains(input[j]));
    let a = choose|a: int| 0 <= a < rest.len() && rest[a] == input[i];
    let b = choose|b: int| 0 <= b < rest.len() && rest[b] == input[j];
    assert(m1.take(r) == rest);
    assert(m1[a] == m1.take(r)[a]);
    assert(m1[b] == m1.take(r)[b]);
    let bn = |h: RawHint| bounds_name_key(h);
    assert(bn(m1[a]) == bn(m1[b]));
    lemma_best_drops_outranked(m1, m2, bn, a, b);
    lemma_pipeline_out_distinct(input, m1, m2, m3, out);
    lemma_dedupe_output(input, m1, m2, m3, out);
    if out.contains(input[j]) {
        let sorted = sort_by_area(m3);
        lemma_sort_by_area_ms(m3);
        lemma_suppress_sub(sorted);
        broadcast use vstd::seq_lib::group_to_multiset_ensures;
        assert(sorted.contains(input[j]));
        assert(sorted.to_multiset().count(input[j]) > 0);
        assert(m3.contains(input[j]));
        let q = choose|q: int| 0 <= q < m3.len() && m3[q] == input[j];
        assert(m2.contains(m3[q]));
    }
}

} // verus!
