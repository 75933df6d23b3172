use navigator::geom::Rect;
use navigator::hint::{Backend, ElementKind, Hint, RawHint};
use navigator::render::{clamp_anchor_px, dib_stride_bytes, match_pills_by_label, monitor_index, paint_plan_for,
    partition_debug_rejects, partition_hints, physical_point_in_monitor_rect, resolve_hint_anchor_phys, PaintPlan,
    RenderGate, ScreenRect, SyncAction};
use navigator::uia_debug::UiaDebugReject;

fn hint_at(label: &str, x: i32, y: i32) -> Hint {
    Hint {
        raw: RawHint {
            element_id: 0,
            uia_runtime_id_fp: None,
            uia_invoke_hwnd: None,
            uia_child_index: None,
            bounds: Rect { x, y, w: 10, h: 10 },
            anchor_px: None,
            kind: ElementKind::Invoke,
            name: None,
            backend: Backend::Uia,
        },
        label: label.to_string(),
    }
}

fn monitors() -> Vec<ScreenRect> {
    vec![
        ScreenRect { left: 0, top: 0, right: 1920, bottom: 1080 },
        ScreenRect { left: 1920, top: 0, right: 3840, bottom: 1080 },
    ]
}

#[test]
fn point_in_rect_excludes_right_and_bottom_edges() {
    let r = ScreenRect { left: 0, top: 0, right: 10, bottom: 10 };
    assert!(physical_point_in_monitor_rect(0, 0, &r));
    assert!(!physical_point_in_monitor_rect(10, 5, &r));
    assert!(!physical_point_in_monitor_rect(5, 10, &r));
    assert_eq!(monitor_index(1920, 5, &monitors()), 1);
    assert_eq!(monitor_index(-5, 5, &monitors()), 0);
}

#[test]
fn hints_split_by_monitor_in_order() {
    let hs = vec![hint_at("a", 10, 10), hint_at("b", 2000, 10), hint_at("c", 5000, 10), hint_at("d", 1919, 1079)];
    let parts = partition_hints(&hs, &monitors());
    let labels: Vec<Vec<String>> = parts.iter().map(|p| p.iter().map(|h| h.label.clone()).collect()).collect();
    assert_eq!(labels, vec![vec!["a".to_string(), "c".to_string(), "d".to_string()], vec!["b".to_string()]]);
    assert_eq!(parts.iter().map(|p| p.len()).sum::<usize>(), hs.len());
}

#[test]
fn rejects_split_by_center_and_boundless_dropped() {
    let rs = vec![
        UiaDebugReject { bounds: Some(Rect { x: 1910, y: 0, w: 30, h: 10 }), reason: "x".to_string() },
        UiaDebugReject { bounds: None, reason: "y".to_string() },
        UiaDebugReject { bounds: Some(Rect { x: 0, y: 0, w: 10, h: 10 }), reason: "z".to_string() },
    ];
    let parts = partition_debug_rejects(&rs, &monitors());
    assert_eq!(parts[0].len(), 1);
    assert_eq!(parts[0][0].reason, "z");
    assert_eq!(parts[1].len(), 1);
    assert_eq!(parts[1][0].reason, "x");
}

#[test]
fn dib_stride_is_four_bytes_per_pixel() {
    assert_eq!(dib_stride_bytes(0), 0);
    assert_eq!(dib_stride_bytes(1), 4);
    assert_eq!(dib_stride_bytes(1921), 7684);
}

#[test]
fn pill_anchor_matches_invoke_point() {
    let h = hint_at("a", 10, 10);
    assert_eq!(resolve_hint_anchor_phys(&h), (15, 15));
    assert_eq!(clamp_anchor_px(100, 0, &Rect { x: 0, y: 5, w: 10, h: 10 }), (9, 5));
}

#[test]
fn pill_frames_pair_by_label() {
    let a = vec!["aa".to_string(), "ab".to_string()];
    let b = vec!["ab".to_string(), "aa".to_string()];
    assert_eq!(match_pills_by_label(&a, &b), Some(vec![1, 0]));
    assert_eq!(match_pills_by_label(&a, &vec!["aa".to_string()]), None);
    assert_eq!(match_pills_by_label(&vec!["aa".to_string(), "aa".to_string()], &a), None);
    assert_eq!(match_pills_by_label(&a, &vec!["aa".to_string(), "zz".to_string()]), None);
    assert_eq!(paint_plan_for(true, true), PaintPlan::NoOp);
    assert_eq!(paint_plan_for(true, false), PaintPlan::Full);
}

#[test]
fn render_gate_ignores_stale_and_foreign_sessions() {
    let mut g = RenderGate::new();
    assert!(g.accepts_show(1));
    g.show_presented(1);
    assert!(!g.accepts_show(1));
    assert!(g.accepts_show(2));
    assert!(!g.is_displayed(2));
    assert_eq!(g.on_sync_monitors(true), SyncAction::RepresentLast);
    assert!(!g.hide_session(2));
    assert!(g.hide_session(1));
    assert_eq!(g.displayed_session, None);
    assert_eq!(g.on_sync_monitors(true), SyncAction::ResizeOnly);
    assert_eq!(g.on_sync_monitors(false), SyncAction::Nothing);
    assert_eq!(g.max_show_accepted, 1);
}

