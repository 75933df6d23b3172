use navigator::dedupe::dedupe_raw_hints;
use navigator::fnv::fnv1a_hash_i32_slice;
use navigator::geom::Rect;
use navigator::hint::{Backend, ElementKind, RawHint};

#[allow(clippy::too_many_arguments)]
fn h(id: u64, x: i32, y: i32, w: i32, h_: i32, kind: ElementKind, fp: Option<u64>, name: Option<&str>) -> RawHint {
    RawHint {
        element_id: id,
        uia_runtime_id_fp: fp,
        uia_invoke_hwnd: None,
        uia_child_index: None,
        bounds: Rect { x, y, w, h: h_ },
        anchor_px: None,
        kind,
        name: name.map(|s| s.to_string()),
        backend: Backend::Uia,
    }
}

#[test]
fn duplicate_runtime_fp_keeps_smaller_invoke() {
    let a = h(0, 0, 0, 100, 100, ElementKind::GenericClickable, Some(42), None);
    let b = h(1, 10, 10, 20, 20, ElementKind::Invoke, Some(42), None);
    let (out, st) = dedupe_raw_hints(vec![a, b]);
    assert_eq!(out.len(), 1);
    assert_eq!(st.removed, 1);
    assert_eq!(out[0].kind, ElementKind::Invoke);
}

#[test]
fn center_grid_merges_overlapping_targets() {
    let a = h(0, 0, 0, 10, 10, ElementKind::Invoke, None, Some("x"));
    let b = h(1, 2, 2, 6, 6, ElementKind::GenericClickable, None, Some("y"));
    let (out, _) = dedupe_raw_hints(vec![a.clone(), b.clone()]);
    assert_eq!(out.len(), 1);
}

#[test]
fn parent_suppressed_when_child_claims_center() {
    let parent = h(0, 0, 0, 200, 200, ElementKind::Invoke, None, None);
    let child = h(1, 80, 80, 40, 40, ElementKind::Invoke, None, None);
    let (out, st) = dedupe_raw_hints(vec![parent, child.clone()]);
    assert_eq!(out.len(), 1, "{out:?}");
    assert_eq!(out[0].element_id, 1);
    assert!(st.removed >= 1);
}

#[test]
fn single_row_passes_through_untouched() {
    let z = h(7, 0, 0, 0, 0, ElementKind::Invoke, None, None);
    let (out, st) = dedupe_raw_hints(vec![z.clone()]);
    assert_eq!(out, vec![z]);
    assert_eq!((st.before, st.after, st.removed), (1, 1, 0));
}

#[test]
fn same_bounds_names_differing_in_case_and_spaces_merge() {
    let a = h(0, 0, 0, 30, 30, ElementKind::GenericClickable, None, Some("  Save "));
    let b = h(1, 0, 0, 30, 30, ElementKind::Toggle, None, Some("save"));
    let far = h(2, 500, 500, 30, 30, ElementKind::Invoke, None, Some("other"));
    let (out, st) = dedupe_raw_hints(vec![a, b, far]);
    assert_eq!(out.len(), 2);
    assert_eq!(st.removed, 1);
    assert!(out.iter().any(|r| r.element_id == 1));
    assert!(out.iter().any(|r| r.element_id == 2));
}

#[test]
fn zero_area_rows_dropped_and_output_sorted_by_area() {
    let big = h(0, 0, 0, 50, 50, ElementKind::Invoke, None, None);
    let small = h(1, 300, 300, 10, 10, ElementKind::Invoke, None, None);
    let empty = h(2, 600, 600, 0, 10, ElementKind::Invoke, None, None);
    let (out, st) = dedupe_raw_hints(vec![big, small, empty]);
    assert_eq!(out.iter().map(|r| r.element_id).collect::<Vec<_>>(), vec![1, 0]);
    assert_eq!((st.before, st.after, st.removed), (3, 2, 1));
}

#[test]
fn fnv_of_no_parts_is_offset_basis() {
    assert_eq!(fnv1a_hash_i32_slice(&[]), 14695981039346656037);
}

#[test]
fn fnv_of_one_part_matches_byte_wise_hash() {
    let mut expect: u64 = 14695981039346656037;
    for b in 7i32.to_le_bytes() {
        expect ^= u64::from(b);
        expect = expect.wrapping_mul(1099511628211);
    }
    assert_eq!(fnv1a_hash_i32_slice(&[7]), expect);
    assert_ne!(fnv1a_hash_i32_slice(&[7]), fnv1a_hash_i32_slice(&[8]));
}

#[test]
fn second_dedupe_pass_removes_nothing() {
    let rows = vec![
        h(0, 0, 0, 100, 100, ElementKind::GenericClickable, Some(42), None),
        h(1, 10, 10, 20, 20, ElementKind::Invoke, Some(42), None),
        h(2, 300, 0, 30, 30, ElementKind::Toggle, None, Some("save")),
        h(3, 300, 0, 30, 30, ElementKind::Invoke, None, Some(" SAVE")),
        h(4, 500, 500, 40, 10, ElementKind::Editable, Some(9), Some("name")),
        h(5, 800, 0, 0, 10, ElementKind::Invoke, None, None),
        h(6, 900, 900, 50, 50, ElementKind::Select, None, None),
    ];
    let (out, st) = dedupe_raw_hints(rows);
    assert!(st.removed > 0);
    let (out2, st2) = dedupe_raw_hints(out.clone());
    assert_eq!(st2.removed, 0);
    assert_eq!(out2.len(), out.len());
    for r in &out {
        assert!(out2.contains(r));
    }
}

#[test]
fn fully_tied_rows_keep_the_later_one() {
    let first = h(5, 0, 0, 20, 20, ElementKind::Invoke, Some(7), Some("first"));
    let second = h(5, 0, 0, 20, 20, ElementKind::Invoke, Some(7), Some("second"));
    let (out, st) = dedupe_raw_hints(vec![first, second.clone()]);
    assert_eq!(out, vec![second]);
    assert_eq!(st.removed, 1);
}
