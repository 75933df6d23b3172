use navigator::pattern::{control_suppresses_plain_slash, CONTROL_COMBO_BOX};
use navigator::collect::element_name_brief;
use navigator::collect::is_pattern_cache_build_failure;
use navigator::click::{best_click_point, clamp_point_to_bounds, invoke_click_hint, invoke_click_point,
    left_click_rect_center, resolve_invoke_physical_point};
use navigator::collect::{collect_node, collect_should_stop, consider_subtree_split, merge_subtree_hints,
    partition_children, shallow_options, shallow_pass_suffices, CollectScope, NodeFacts};
use navigator::error::UiaError;
use navigator::fallback::{enum_child_step, msaa_node_hint, rect_from_uia_bounds, role_to_kind, should_take_node, ChildStep};
use navigator::anchor::fallback_anchor_px;
use navigator::invoke::int_text;
use navigator::geom::Rect;
use navigator::hint::{Backend, ElementKind, RawHint};
use navigator::invoke::{bounds_check, child_index_check, explorer_shell_selection_prefers_physical_click,
    invoke_element_index, invoke_route, msaa_invoke_visit, resolve_path, ExpandState, InvokeAction, InvokeDispatch,
    InvokeMode, InvokeReport, InvokeRoute, ResolvePath};
use navigator::ladder::{effective_enum_options, enrich_options, explorer_enrich_due, ladder_next, ladder_start,
    merge_enriched_hints, stage_over_budget, EnumStage, LadderStep};
use navigator::pattern::{classify_interaction_kind, PatternFacts, CONTROL_BUTTON, CONTROL_CUSTOM, CONTROL_EDIT};
use navigator::strategy::{apply_exe_profile, is_chromium_family, is_win32_hwnd_first_candidate,
    resolve_enumeration_behavior, ResolvedLadder, WindowProbe};
use navigator::uia_debug::{UiaCoverageStats, UiaDebugReject};
use navigator::uia_options::{EnumOptions, EnumerationProfile, EnumerationStrategyMode, FallbackPolicy};

fn raw(id: u64, x: i32, y: i32, w: i32, h: i32, kind: ElementKind, anchor: Option<(i32, i32)>) -> RawHint {
    RawHint {
        element_id: id,
        uia_runtime_id_fp: None,
        uia_invoke_hwnd: None,
        uia_child_index: None,
        bounds: Rect { x, y, w, h },
        anchor_px: anchor,
        kind,
        name: None,
        backend: Backend::Uia,
    }
}

#[test]
fn clamp_point_keeps_inside_last_pixel() {
    let r = Rect { x: 10, y: 20, w: 5, h: 5 };
    assert_eq!(clamp_point_to_bounds(0, 100, &r), (10, 24));
    assert_eq!(clamp_point_to_bounds(12, 21, &r), (12, 21));
    assert_eq!(clamp_point_to_bounds(7, 7, &Rect { x: 3, y: 4, w: 0, h: 9 }), (3, 4));
    let edge = Rect { x: i32::MAX - 1, y: 0, w: 10, h: 1 };
    assert_eq!(clamp_point_to_bounds(i32::MAX, 5, &edge), (i32::MAX, 0));
}

#[test]
fn best_click_point_exact_values() {
    assert_eq!(best_click_point(&Rect { x: 0, y: 0, w: 40, h: 20 }), (20, 10));
    assert_eq!(best_click_point(&Rect { x: 0, y: 0, w: 200, h: 20 }), (100, 10));
    assert_eq!(best_click_point(&Rect { x: 5, y: 5, w: 3, h: 30 }), (6, 20));
    assert_eq!(best_click_point(&Rect { x: 5, y: 5, w: 0, h: 30 }), (5, 5));
    assert_eq!(best_click_point(&Rect { x: 0, y: 0, w: 51, h: 10 }), (25, 5));
}

#[test]
fn zero_size_click_is_refused() {
    let e = invoke_click_point(&Rect { x: 1, y: 1, w: 0, h: 5 }).unwrap_err();
    assert!(matches!(e, UiaError::Operation(m) if m == "zero-size bounds for click"));
    assert_eq!(left_click_rect_center(&Rect { x: 0, y: 0, w: 40, h: 20 }).unwrap(), (20, 10));
    let h = raw(0, 0, 0, 0, 0, ElementKind::Invoke, None);
    assert!(invoke_click_hint(&h).is_err());
}

#[test]
fn invoke_point_prefers_own_anchor_clamped() {
    let h = raw(0, 10, 10, 20, 20, ElementKind::Invoke, Some((100, 15)));
    assert_eq!(resolve_invoke_physical_point(&h), (29, 15));
    let f = raw(0, 10, 10, 20, 20, ElementKind::Invoke, None);
    assert_eq!(resolve_invoke_physical_point(&f), (20, 20));
    let e = raw(0, 0, 0, 80, 20, ElementKind::Editable, None);
    assert_eq!(resolve_invoke_physical_point(&e), (20, 10));
    assert_eq!(invoke_click_hint(&e).unwrap(), (20, 10));
}

#[test]
fn exe_profiles_tune_known_applications() {
    let mut o = EnumOptions::default();
    apply_exe_profile("Chrome.EXE", &mut o);
    assert_eq!(o.profile, EnumerationProfile::Full);
    assert!(o.uia_shallow_children_first);
    assert_eq!((o.uia_shallow_min_targets, o.uia_shallow_materialize_budget_ms), (6, 16));
    let mut e = EnumOptions::default();
    apply_exe_profile("explorer.exe", &mut e);
    assert_eq!((e.explorer_enrich_if_below, e.explorer_enrich_materialize_budget_ms), (45, 48));
    assert!(e.clip_uia_to_client_rect && !e.uia_shallow_children_first);
    let mut n = EnumOptions::default();
    apply_exe_profile("notepad.exe", &mut n);
    assert_eq!(n.profile, EnumerationProfile::Fast);
    assert!(!n.uia_shallow_children_first);
}

#[test]
fn window_probe_suggests_ladders() {
    assert!(is_chromium_family("Chrome_WidgetWin_1", "x.exe"));
    assert!(is_chromium_family("Foo", "DEVENV.exe"));
    assert!(!is_chromium_family("Notepad", "notepad.exe"));
    assert!(is_win32_hwnd_first_candidate("Whatever", "EXPLORER.EXE"));
    assert!(is_win32_hwnd_first_candidate("Progman", "x.exe"));
    assert!(!is_win32_hwnd_first_candidate("progman", "x.exe"));
    let p = WindowProbe::new(7, "CabinetWClass".to_string(), "explorer.exe".to_string());
    assert_eq!(p.suggested_ladder, ResolvedLadder::Win32First);
    assert!(!p.suggested_disable_parallel);
    let c = WindowProbe::new(8, "Chrome_WidgetWin_1".to_string(), "chrome.exe".to_string());
    assert_eq!((c.suggested_ladder, c.suggested_disable_parallel), (ResolvedLadder::UiaFirst, true));
    assert_eq!(resolve_enumeration_behavior(EnumerationStrategyMode::Auto, &p), (ResolvedLadder::Win32First, false));
    assert_eq!(resolve_enumeration_behavior(EnumerationStrategyMode::ChromiumFast, &p), (ResolvedLadder::UiaFirst, true));
    assert_eq!(resolve_enumeration_behavior(EnumerationStrategyMode::UiaFirst, &c), (ResolvedLadder::UiaFirst, false));
}

fn facts() -> PatternFacts {
    PatternFacts {
        invoke: false,
        toggle: false,
        selection_item: false,
        expand_collapse: false,
        legacy: false,
        value: false,
        control_type: None,
        keyboard_focusable: None,
        name_nonempty: false,
    }
}

#[test]
fn classification_follows_pattern_priority() {
    assert_eq!(classify_interaction_kind(&PatternFacts { invoke: true, toggle: true, ..facts() }), Some(ElementKind::Invoke));
    assert_eq!(classify_interaction_kind(&PatternFacts { toggle: true, legacy: true, ..facts() }), Some(ElementKind::Toggle));
    assert_eq!(classify_interaction_kind(&PatternFacts { legacy: true, ..facts() }), Some(ElementKind::GenericClickable));
    assert_eq!(
        classify_interaction_kind(&PatternFacts { value: true, control_type: Some(CONTROL_EDIT), ..facts() }),
        Some(ElementKind::Editable)
    );
    assert_eq!(classify_interaction_kind(&PatternFacts { value: true, ..facts() }), None);
    assert_eq!(
        classify_interaction_kind(&PatternFacts { keyboard_focusable: Some(true), control_type: Some(CONTROL_BUTTON), ..facts() }),
        Some(ElementKind::GenericClickable)
    );
    assert_eq!(
        classify_interaction_kind(&PatternFacts { name_nonempty: true, control_type: Some(CONTROL_CUSTOM), ..facts() }),
        Some(ElementKind::GenericClickable)
    );
    assert_eq!(classify_interaction_kind(&PatternFacts { control_type: Some(CONTROL_CUSTOM), ..facts() }), None);
}

#[test]
fn msaa_roles_and_node_filters() {
    assert_eq!(role_to_kind(43), Some(ElementKind::Invoke));
    assert_eq!(role_to_kind(30), Some(ElementKind::Invoke));
    assert_eq!(role_to_kind(46), Some(ElementKind::Editable));
    assert_eq!(role_to_kind(41), None);
    assert_eq!(role_to_kind(999), Some(ElementKind::GenericClickable));
    let o = EnumOptions::default();
    assert!(should_take_node(43, 0, &o, 10, 10));
    assert!(!should_take_node(43, 1, &o, 10, 10));
    assert!(!should_take_node(43, 0x8000, &o, 10, 10));
    assert!(!should_take_node(43, 0, &o, 1, 10));
    assert!(!should_take_node(40, 0, &o, 500, 500));
    let on = EnumOptions { include_offscreen: true, ..EnumOptions::default() };
    assert!(should_take_node(43, 0x10000, &on, 10, 10));
    let h = msaa_node_hint(43, 0, Some(Rect { x: 1, y: 2, w: 10, h: 10 }), &o, 5).unwrap();
    assert_eq!((h.element_id, h.backend, h.kind), (5, Backend::Msaa, ElementKind::Invoke));
    assert!(msaa_node_hint(43, 0, None, &o, 5).is_none());
}

#[test]
fn child_window_walk_steps() {
    assert!(matches!(enum_child_step(3, 3, false, true, true, 9, Some((0, 0, 50, 50))), ChildStep::Stop));
    assert!(matches!(enum_child_step(0, 3, true, true, true, 9, Some((0, 0, 50, 50))), ChildStep::Skip));
    assert!(matches!(enum_child_step(0, 3, false, true, true, 9, Some((0, 0, 3, 50))), ChildStep::Skip));
    match enum_child_step(2, 3, false, true, true, 9, Some((10, 10, 50, 30))) {
        ChildStep::Push(h) => {
            assert_eq!(h.element_id, 2);
            assert_eq!(h.uia_invoke_hwnd, Some(9));
            assert_eq!(h.bounds, Rect { x: 10, y: 10, w: 40, h: 20 });
            assert_eq!(h.anchor_px, Some((30, 20)));
            assert_eq!(h.backend, Backend::RawHwnd);
        }
        _ => panic!("expected a hint"),
    }
    assert_eq!(rect_from_uia_bounds(5, 5, 5, 9), None);
    assert_eq!(rect_from_uia_bounds(5, 5, 8, 9), Some(Rect { x: 5, y: 5, w: 3, h: 4 }));
}

fn node(kind: Option<ElementKind>, edges: Option<(i32, i32, i32, i32)>) -> NodeFacts {
    NodeFacts {
        kind,
        enabled: Some(true),
        offscreen: Some(false),
        bounds_edges: edges,
        name: Some("OK".to_string()),
        runtime_id_fp: Some(77),
    }
}

#[test]
fn collect_node_filters_and_counts() {
    let opts = EnumOptions { debug_overlay: true, profile: EnumerationProfile::Full, ..EnumOptions::default() };
    let scope = CollectScope { root_window: Some((0, 0, 100, 100)), scope_hwnd: None, child_index: Some(3), client_clip: None };
    let mut out = Vec::new();
    let mut rejects: Vec<UiaDebugReject> = Vec::new();
    let mut cov = UiaCoverageStats::default();
    collect_node(4, node(Some(ElementKind::Toggle), Some((10, 10, 30, 30))), &opts, &scope, &mut out, &mut rejects, &mut cov);
    collect_node(5, node(None, Some((10, 10, 30, 30))), &opts, &scope, &mut out, &mut rejects, &mut cov);
    collect_node(6, node(Some(ElementKind::Invoke), Some((10, 10, 13, 30))), &opts, &scope, &mut out, &mut rejects, &mut cov);
    collect_node(7, node(Some(ElementKind::Invoke), Some((150, 10, 170, 30))), &opts, &scope, &mut out, &mut rejects, &mut cov);
    let mut disabled = node(Some(ElementKind::Invoke), Some((10, 10, 30, 30)));
    disabled.enabled = Some(false);
    collect_node(8, disabled, &opts, &scope, &mut out, &mut rejects, &mut cov);
    assert_eq!(out.len(), 1);
    assert_eq!(out[0].element_id, 4);
    assert_eq!(out[0].uia_child_index, Some(3));
    assert_eq!(out[0].uia_runtime_id_fp, Some(77));
    assert_eq!(out[0].bounds, Rect { x: 10, y: 10, w: 20, h: 20 });
    let reasons: Vec<&str> = rejects.iter().map(|r| r.reason.as_str()).collect();
    assert_eq!(reasons, vec!["no_interaction", "tiny_rect", "outside_root_window", "disabled"]);
    assert_eq!(rejects[0].bounds, Some(Rect { x: 10, y: 10, w: 20, h: 20 }));
    assert_eq!(rejects[1].bounds, None);
    assert_eq!((cov.clickable_candidates, cov.visible, cov.after_filter, cov.final_hints), (4, 3, 1, 1));
    assert_eq!(cov.kind_toggle, 1);
}

#[test]
fn collect_loop_control() {
    assert!(collect_should_stop(5, 5, 0, 0));
    assert!(!collect_should_stop(4, 5, 0, 1_000_000));
    assert!(collect_should_stop(0, 5, 30, 30_000));
    assert!(!collect_should_stop(0, 5, 30, 29_999));
    let o = EnumOptions { materialize_hard_budget_ms: 10, uia_shallow_materialize_budget_ms: 12, ..EnumOptions::default() };
    assert_eq!(shallow_options(&o).materialize_hard_budget_ms, 10);
    assert!(shallow_pass_suffices(8, &EnumOptions::default()));
    assert!(!shallow_pass_suffices(7, &EnumOptions::default()));
    assert!(consider_subtree_split(true, 512, &EnumOptions::default()));
    assert!(!consider_subtree_split(false, 5000, &EnumOptions::default()));
}

#[test]
fn children_partition_and_merge() {
    let (hw, none) = partition_children(&vec![Some(5), None, Some(5), Some(0), Some(9), Some(1)], 1);
    assert_eq!(hw, vec![5, 9]);
    assert_eq!(none, vec![1, 3, 5]);
    let a = vec![raw(2, 50, 10, 5, 5, ElementKind::Invoke, None), raw(1, 50, 10, 5, 5, ElementKind::Invoke, None)];
    let b = vec![raw(3, 0, 0, 5, 5, ElementKind::Invoke, None)];
    let merged = merge_subtree_hints(vec![a.clone(), b.clone()], vec![raw(4, 0, 10, 5, 5, ElementKind::Invoke, None)], 3);
    let ids: Vec<u64> = merged.iter().map(|h| h.element_id).collect();
    assert_eq!(ids, vec![3, 4, 1]);
    let e = merge_enriched_hints(a, b, &EnumOptions { max_elements: 10, ..EnumOptions::default() });
    let ids: Vec<u64> = e.iter().map(|h| h.element_id).collect();
    assert_eq!(ids, vec![3, 2, 1]);
}

#[test]
fn ladder_runs_backends_in_order() {
    assert_eq!(ladder_start(FallbackPolicy::Auto, ResolvedLadder::Win32First), EnumStage::Hwnd);
    assert_eq!(ladder_start(FallbackPolicy::MsaaOnly, ResolvedLadder::Win32First), EnumStage::Msaa);
    let u = ResolvedLadder::UiaFirst;
    assert_eq!(ladder_next(FallbackPolicy::Auto, u, EnumStage::Uia, 0, false), LadderStep::Run(EnumStage::Msaa));
    assert_eq!(ladder_next(FallbackPolicy::Auto, u, EnumStage::Uia, 3, false), LadderStep::ReturnUia);
    assert_eq!(ladder_next(FallbackPolicy::Auto, u, EnumStage::Msaa, 0, false), LadderStep::Run(EnumStage::Hwnd));
    assert_eq!(ladder_next(FallbackPolicy::Auto, u, EnumStage::Hwnd, 0, false), LadderStep::ReturnHints(EnumStage::Hwnd, true));
    let w = ResolvedLadder::Win32First;
    assert_eq!(ladder_next(FallbackPolicy::Auto, w, EnumStage::Hwnd, 2, true), LadderStep::Run(EnumStage::ExplorerEnrich));
    assert_eq!(ladder_next(FallbackPolicy::Auto, w, EnumStage::Hwnd, 2, false), LadderStep::ReturnHints(EnumStage::Hwnd, false));
    assert_eq!(ladder_next(FallbackPolicy::Auto, w, EnumStage::Msaa, 0, false), LadderStep::Run(EnumStage::Uia));
    assert_eq!(ladder_next(FallbackPolicy::Auto, w, EnumStage::ExplorerEnrich, 0, false), LadderStep::ReturnEnriched);
    assert_eq!(ladder_next(FallbackPolicy::UiaOnly, w, EnumStage::Uia, 0, false), LadderStep::ReturnUia);
}

#[test]
fn explorer_enrich_rules() {
    let o = EnumOptions { explorer_enrich_if_below: 45, materialize_hard_budget_ms: 30, explorer_enrich_materialize_budget_ms: 48, uia_shallow_children_first: true, ..EnumOptions::default() };
    assert!(explorer_enrich_due(&o, "Explorer.exe", 44));
    assert!(!explorer_enrich_due(&o, "explorer.exe", 45));
    assert!(!explorer_enrich_due(&o, "cmd.exe", 1));
    let e = enrich_options(&o);
    assert_eq!(e.materialize_hard_budget_ms, 30);
    assert!(!e.uia_shallow_children_first);
    let probe = WindowProbe::new(1, "CabinetWClass".to_string(), "explorer.exe".to_string());
    let (eff, ladder) = effective_enum_options(&EnumOptions::default(), &probe);
    assert_eq!(ladder, ResolvedLadder::Win32First);
    assert_eq!(eff.explorer_enrich_if_below, 45);
    assert!(!eff.disable_uia_parallel);
}

#[test]
fn stage_budget_compares_exactly() {
    assert!(!stage_over_budget(1000, 0, 25, 25));
    assert!(stage_over_budget(1000, 0, 26, 25));
    assert!(!stage_over_budget(1000, 0, 1_000_000, 0));
    assert!(!stage_over_budget(0, 0, 1_000_000, 5));
}

#[test]
fn invoke_index_checks_and_messages() {
    assert!(matches!(invoke_element_index(1 << 40), Err(UiaError::Operation(m)) if m == "element_id out of range"));
    assert_eq!(invoke_element_index(7).unwrap(), 7);
    assert!(bounds_check(0, 1).is_ok());
    assert!(matches!(bounds_check(-3, 10), Err(UiaError::Operation(m)) if m == "invoke index -3 out of bounds (len=10)"));
    assert!(matches!(child_index_check(4, 4), Err(UiaError::Operation(m)) if m == "uia_child_index 4 out of bounds (children len=4)"));
    assert!(child_index_check(3, 4).is_ok());
}

#[test]
fn invoke_routes_and_paths() {
    let mut h = raw(0, 0, 0, 5, 5, ElementKind::Invoke, None);
    assert_eq!(resolve_path(&h), ResolvePath::RootDescendants);
    h.uia_child_index = Some(2);
    assert_eq!(resolve_path(&h), ResolvePath::ChildSubtree(2));
    h.uia_invoke_hwnd = Some(77);
    assert_eq!(resolve_path(&h), ResolvePath::ScopedWindow(77));
    assert_eq!(invoke_route(Backend::Msaa), InvokeRoute::MsaaDefaultAction);
    assert_eq!(invoke_route(Backend::RawHwnd), InvokeRoute::PhysicalClick);
    assert!(explorer_shell_selection_prefers_physical_click(ElementKind::Select, &Some("cabinetwclass\0\0".to_string())));
    assert!(!explorer_shell_selection_prefers_physical_click(ElementKind::Invoke, &Some("CabinetWClass".to_string())));
    assert!(!explorer_shell_selection_prefers_physical_click(ElementKind::Select, &None));
}

#[test]
fn msaa_invoke_walk_counts_listed_nodes() {
    let o = EnumOptions::default();
    let mut counted = 0u64;
    let r = Some(Rect { x: 0, y: 0, w: 10, h: 10 });
    assert!(!msaa_invoke_visit(43, 0, r, &o, 1, &mut counted));
    assert_eq!(counted, 1);
    assert!(!msaa_invoke_visit(41, 0, r, &o, 1, &mut counted));
    assert_eq!(counted, 1);
    assert!(msaa_invoke_visit(43, 0, r, &o, 1, &mut counted));
}

#[test]
fn dispatch_tab_item_clicks_first() {
    let mut d = InvokeDispatch::new(ElementKind::Select, false);
    assert_eq!(d.step(InvokeReport::Done(true)), InvokeAction::ReadControlType);
    assert_eq!(d.step(InvokeReport::ControlType(Some(50019))), InvokeAction::Click);
    assert_eq!(d.step(InvokeReport::Done(true)), InvokeAction::Finish(InvokeMode::SendInputClick));
}

#[test]
fn dispatch_ladder_falls_back_to_point_then_click() {
    let mut d = InvokeDispatch::new(ElementKind::Toggle, false);
    assert_eq!(d.step(InvokeReport::Done(true)), InvokeAction::ReadControlType);
    assert_eq!(d.step(InvokeReport::ControlType(None)), InvokeAction::TryToggle);
    assert_eq!(d.step(InvokeReport::Done(false)), InvokeAction::TryInvoke);
    assert_eq!(d.step(InvokeReport::Done(false)), InvokeAction::TryLegacy);
    assert_eq!(d.step(InvokeReport::Done(false)), InvokeAction::TryToggle);
    assert_eq!(d.step(InvokeReport::Done(false)), InvokeAction::ResolveAtPoint);
    assert_eq!(d.step(InvokeReport::Done(true)), InvokeAction::TryToggle);
    assert_eq!(d.step(InvokeReport::Done(false)), InvokeAction::TryInvoke);
    assert_eq!(d.step(InvokeReport::Done(false)), InvokeAction::TryLegacy);
    assert_eq!(d.step(InvokeReport::Done(false)), InvokeAction::TryToggle);
    assert_eq!(d.step(InvokeReport::Done(false)), InvokeAction::Click);
    assert_eq!(d.step(InvokeReport::Done(false)), InvokeAction::Fail);
}

#[test]
fn dispatch_expand_collapse_and_editable() {
    let mut d = InvokeDispatch::new(ElementKind::ExpandCollapse, false);
    d.step(InvokeReport::Done(true));
    assert_eq!(d.step(InvokeReport::ControlType(Some(1))), InvokeAction::ReadExpandState);
    assert_eq!(d.step(InvokeReport::Expand(Some(ExpandState::Collapsed))), InvokeAction::Expand);
    assert_eq!(d.step(InvokeReport::Done(true)), InvokeAction::Finish(InvokeMode::ExpandCollapse));
    let mut e = InvokeDispatch::new(ElementKind::Editable, true);
    e.step(InvokeReport::Done(true));
    assert_eq!(e.step(InvokeReport::ControlType(None)), InvokeAction::Click);
    assert_eq!(e.step(InvokeReport::Done(false)), InvokeAction::TryLegacy);
    assert_eq!(e.step(InvokeReport::Done(false)), InvokeAction::Click);
    assert_eq!(e.step(InvokeReport::Done(false)), InvokeAction::SetFocus);
    assert_eq!(e.step(InvokeReport::Done(true)), InvokeAction::Finish(InvokeMode::SetFocus));
}

#[test]
fn pattern_cache_refusal_is_recognized_by_text() {
    assert!(is_pattern_cache_build_failure("HRESULT 0x80040201 (Pattern not found)"));
    assert!(is_pattern_cache_build_failure("UIA_E_PATTERNNOTFOUND"));
    assert!(!is_pattern_cache_build_failure("element not available"));
}

#[test]
fn diagnose_brief_lines() {
    assert_eq!(element_name_brief(50000, "OK"), "control_type=50000 name=OK");
    assert_eq!(element_name_brief(0, ""), "control_type=0 name=<empty>");
}

#[test]
fn focused_edit_keeps_plain_slash() {
    assert!(control_suppresses_plain_slash(Some(CONTROL_EDIT)));
    assert!(control_suppresses_plain_slash(Some(CONTROL_COMBO_BOX)));
    assert!(!control_suppresses_plain_slash(Some(50030)));
    assert!(!control_suppresses_plain_slash(None));
}

#[test]
fn msaa_invoke_walk_reaches_enumerated_id() {
    let o = EnumOptions::default();
    let nodes: Vec<(i32, i32, Option<Rect>)> = vec![
        (43, 0, Some(Rect { x: 0, y: 0, w: 10, h: 10 })),
        (41, 0, Some(Rect { x: 0, y: 0, w: 10, h: 10 })),
        (43, 1, Some(Rect { x: 0, y: 0, w: 10, h: 10 })),
        (44, 0, None),
        (30, 0, Some(Rect { x: 5, y: 5, w: 20, h: 20 })),
        (46, 0, Some(Rect { x: 9, y: 9, w: 30, h: 30 })),
    ];
    let mut found = Vec::new();
    for (role, state, loc) in &nodes {
        if let Some(h) = msaa_node_hint(*role, *state, *loc, &o, found.len() as u64) {
            found.push(h);
        }
    }
    assert_eq!(found.len(), 3);
    for target in 0..found.len() as u64 {
        let mut counted = 0u64;
        let acted = nodes
            .iter()
            .position(|(role, state, loc)| msaa_invoke_visit(*role, *state, *loc, &o, target, &mut counted))
            .unwrap();
        assert_eq!(nodes[acted].2, Some(found[target as usize].bounds));
    }
}

#[test]
fn center_click_lands_on_the_center() {
    assert_eq!(left_click_rect_center(&Rect { x: 0, y: 0, w: 122, h: 20 }).unwrap(), (61, 10));
    assert_eq!(left_click_rect_center(&Rect { x: 10, y: 30, w: 7, h: 3 }).unwrap(), (13, 31));
    assert!(left_click_rect_center(&Rect { x: 0, y: 0, w: 5, h: 0 }).is_err());
}

#[test]
fn editable_anchor_stays_inside_narrow_fields() {
    assert_eq!(fallback_anchor_px(Rect { x: 0, y: 0, w: 2, h: 10 }, ElementKind::Editable), (1, 5));
    assert_eq!(fallback_anchor_px(Rect { x: 0, y: 0, w: 1, h: 1 }, ElementKind::Editable), (0, 0));
    assert_eq!(fallback_anchor_px(Rect { x: 4, y: 0, w: 3, h: 4 }, ElementKind::Editable), (6, 2));
    assert_eq!(fallback_anchor_px(Rect { x: 0, y: 0, w: 80, h: 20 }, ElementKind::Editable), (20, 10));
    assert_eq!(fallback_anchor_px(Rect { x: 0, y: 0, w: 400, h: 20 }, ElementKind::Editable), (73, 10));
}

#[test]
fn anchor_near_the_top_of_the_coordinate_range() {
    let b = Rect { x: i32::MAX - 10, y: i32::MAX - 10, w: 20, h: 20 };
    assert_eq!(fallback_anchor_px(b, ElementKind::Invoke), (i32::MAX, i32::MAX));
}

#[test]
fn decimal_text_of_integers() {
    assert_eq!(int_text(0), "0");
    assert_eq!(int_text(7), "7");
    assert_eq!(int_text(-120), "-120");
    assert_eq!(int_text(1234567890), "1234567890");
    assert_eq!(int_text(i64::MIN), i64::MIN.to_string());
    assert_eq!(int_text(i64::MAX), i64::MAX.to_string());
}
