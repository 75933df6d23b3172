use navigator::controller::{classify_pipeline, hint_cache_hit, layout_origin, prefetch_wanted, tray_command_event,
    wide_tip, Controller, HintCacheKey, HotkeyOutcome, KeyOutcome, PipelineBudget, PlannedOutcome, TrayEvent};
use navigator::geom::Rect;
use navigator::hint::{Backend, ElementKind, RawHint};
use navigator::input::SessionKey;
use navigator::planner::plan;
use navigator::render::ScreenRect;
use navigator::uia_debug::UiaDebugReject;

fn raw_at(i: u64, x: i32) -> RawHint {
    RawHint {
        element_id: i,
        uia_runtime_id_fp: None,
        uia_invoke_hwnd: None,
        uia_child_index: None,
        bounds: Rect { x, y: 0, w: 20, h: 20 },
        anchor_px: None,
        kind: ElementKind::Invoke,
        name: None,
        backend: Backend::Uia,
    }
}

fn started() -> Controller {
    let alphabet: Vec<char> = "sadfjklewcmpgh".chars().collect();
    let hints = plan(vec![raw_at(1, 0), raw_at(2, 100), raw_at(3, 200)], &alphabet, 0);
    let mut c = Controller::new();
    assert_eq!(c.on_hotkey(42), HotkeyOutcome::Begin { hide_previous: None, session_id: 1 });
    match c.on_planned(hints, vec![], 42) {
        PlannedOutcome::Show { session_id, hints } => {
            assert_eq!(session_id, 1);
            assert_eq!(hints.len(), 3);
        }
        PlannedOutcome::NothingToShow => panic!("expected show"),
    }
    c.on_show_result(true);
    assert!(c.hint_mode);
    c
}

#[test]
fn hotkey_with_null_window_does_nothing() {
    let mut c = Controller::new();
    assert_eq!(c.on_hotkey(0), HotkeyOutcome::SkipNullWindow);
    assert_eq!(c.overlay_session, 0);
}

#[test]
fn typing_a_label_invokes_it_and_goes_idle() {
    let mut c = started();
    let label = c.session.as_ref().unwrap().hints()[1].label.clone();
    let mut out = KeyOutcome::Ignore;
    for ch in label.chars() {
        out = c.on_session_key(SessionKey::Char(ch));
    }
    match out {
        KeyOutcome::HideAndInvoke { show_id, hwnd, hint } => {
            assert_eq!(show_id, 1);
            assert_eq!(hwnd, Some(42));
            assert_eq!(hint.unwrap().raw.element_id, 2);
        }
        other => panic!("unexpected {other:?}"),
    }
    assert!(!c.hint_mode && c.session.is_none() && c.active_show_id.is_none());
    assert!(matches!(c.on_session_key(SessionKey::Char('s')), KeyOutcome::Ignore));
}

#[test]
fn escape_hides_and_second_hotkey_dismisses() {
    let mut c = started();
    assert!(matches!(c.on_session_key(SessionKey::Escape), KeyOutcome::Hide(1)));
    assert!(!c.hint_mode);
    let mut d = started();
    assert_eq!(d.on_hotkey(42), HotkeyOutcome::Dismiss(Some(1)));
    assert!(!d.hint_mode && d.active_show_id.is_none());
}

#[test]
fn non_matching_key_ends_session() {
    let mut c = started();
    assert!(matches!(c.on_session_key(SessionKey::Char('z')), KeyOutcome::Hide(1)));
    assert!(c.session.is_none());
}

#[test]
fn nothing_planned_stays_idle_and_debug_only_takes_escape() {
    let mut c = Controller::new();
    c.on_hotkey(5);
    assert!(matches!(c.on_planned(vec![], vec![], 5), PlannedOutcome::NothingToShow));
    assert!(!c.hint_mode && c.active_show_id.is_none());
    c.on_hotkey(5);
    let rej = vec![UiaDebugReject { bounds: None, reason: "disabled".to_string() }];
    assert!(matches!(c.on_planned(vec![], rej, 5), PlannedOutcome::Show { session_id: 2, .. }));
    assert!(c.overlay_debug_only);
    c.on_show_result(true);
    assert!(matches!(c.on_session_key(SessionKey::Char('a')), KeyOutcome::Ignore));
    assert!(matches!(c.on_session_key(SessionKey::Escape), KeyOutcome::Hide(2)));
}

#[test]
fn failed_show_returns_to_idle() {
    let mut c = Controller::new();
    c.on_hotkey(5);
    let alphabet: Vec<char> = "ab".chars().collect();
    let hints = plan(vec![raw_at(1, 0)], &alphabet, 0);
    c.on_planned(hints, vec![], 5);
    c.on_show_result(false);
    assert!(!c.hint_mode && c.session.is_none() && c.pending.is_none());
}

#[test]
fn repaint_keeps_session_on_ambiguous_prefix() {
    let alphabet: Vec<char> = "ab".chars().collect();
    let hints = plan(vec![raw_at(1, 0), raw_at(2, 10), raw_at(3, 20)], &alphabet, 0);
    let mut c = Controller::new();
    c.on_hotkey(9);
    c.on_planned(hints, vec![], 9);
    c.on_show_result(true);
    let firsts: Vec<char> =
        c.session.as_ref().unwrap().hints().iter().map(|h| h.label.chars().next().unwrap()).collect();
    let first = *firsts.iter().find(|ch| firsts.iter().filter(|d| d == ch).count() >= 2).unwrap();
    let expected = firsts.iter().filter(|d| **d == first).count();
    match c.on_session_key(SessionKey::Char(first)) {
        KeyOutcome::Repaint(id, v) => {
            assert_eq!(id, 1);
            assert_eq!(v.len(), expected);
        }
        other => panic!("unexpected {other:?}"),
    }
    assert!(c.hint_mode);
    match c.on_session_key(SessionKey::Backspace) {
        KeyOutcome::Repaint(_, v) => assert_eq!(v.len(), 3),
        other => panic!("unexpected {other:?}"),
    }
}

#[test]
fn cache_hit_needs_same_window_and_fresh_age() {
    let k = HintCacheKey { hwnd: 1, pid: 2, title_fp: 3, rect: ScreenRect { left: 0, top: 0, right: 10, bottom: 10 } };
    assert!(hint_cache_hit(&Some((k, 999_999)), &k, 1000));
    assert!(!hint_cache_hit(&Some((k, 1_000_000)), &k, 1000));
    assert!(hint_cache_hit(&Some((k, 999)), &k, 0));
    assert!(!hint_cache_hit(&Some((k, 1000)), &k, 0));
    let moved = HintCacheKey { rect: ScreenRect { left: 1, top: 0, right: 10, bottom: 10 }, ..k };
    assert!(!hint_cache_hit(&Some((k, 0)), &moved, 1000));
    assert!(!hint_cache_hit(&None, &k, 1000));
}

#[test]
fn pipeline_budget_hard_before_soft() {
    assert_eq!(classify_pipeline(1000, 0, 31, 25, 30), PipelineBudget::HardExceeded);
    assert_eq!(classify_pipeline(1000, 0, 30, 25, 30), PipelineBudget::SoftExceeded);
    assert_eq!(classify_pipeline(1000, 0, 25, 25, 30), PipelineBudget::Within);
    assert_eq!(classify_pipeline(0, 0, 1_000_000, 25, 30), PipelineBudget::Within);
}

#[test]
fn layout_origin_is_window_rect_or_unit() {
    assert_eq!(layout_origin(Some((10, 20, 110, 20))), Rect { x: 10, y: 20, w: 100, h: 1 });
    assert_eq!(layout_origin(None), Rect { x: 0, y: 0, w: 1, h: 1 });
}

#[test]
fn tray_commands_and_tooltip() {
    assert_eq!(tray_command_event(2001), Some(TrayEvent::Reload));
    assert_eq!(tray_command_event(0x1_0000 + 2005), Some(TrayEvent::Quit));
    assert_eq!(tray_command_event(7), None);
    let t = wide_tip("Navigator");
    assert_eq!(t.len(), 128);
    let expect: Vec<u16> = "Navigator".encode_utf16().collect();
    assert_eq!(&t[..9], &expect[..]);
    assert!(t[9..].iter().all(|&u| u == 0));
    let long: String = "\u{1F600}".repeat(70);
    let w = wide_tip(&long);
    let units: Vec<u16> = long.encode_utf16().take(127).collect();
    assert_eq!(&w[..127], &units[..]);
    assert_eq!(w[127], 0);
}

#[test]
fn prefetch_skips_own_process_and_fresh_repeats() {
    assert!(prefetch_wanted(5, "notepad.exe", 4, 0));
    assert!(!prefetch_wanted(5, "notepad.exe", 5, 799));
    assert!(prefetch_wanted(5, "notepad.exe", 5, 800));
    assert!(!prefetch_wanted(5, "Navigator.exe", 4, 5000));
    assert!(!prefetch_wanted(0, "notepad.exe", 4, 5000));
}
