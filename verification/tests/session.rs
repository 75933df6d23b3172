use navigator::filter::{filter, FilterResult};
use navigator::geom::Rect;
use navigator::hint::{Backend, ElementKind, Hint, RawHint};
use navigator::planner::plan;
use navigator::session::{Session, SessionEvent};

fn raw_at(i: u64, x: i32) -> RawHint {
    RawHint {
        element_id: i,
        uia_runtime_id_fp: None,
        uia_invoke_hwnd: None,
        uia_child_index: None,
        bounds: Rect { x, y: 0, w: 20, h: 20 },
        anchor_px: None,
        kind: ElementKind::Invoke,
        name: None,
        backend: Backend::Uia,
    }
}

fn two_planned_hints() -> (Session, String, String) {
    let alphabet: Vec<char> = "sadfjklewcmpgh".chars().collect();
    let hints = plan(vec![raw_at(1, 0), raw_at(2, 100)], &alphabet, 0);
    let a = hints[0].label.to_string();
    let b = hints[1].label.to_string();
    let mut s = Session::new(0);
    s.ingest(hints);
    (s, a, b)
}

fn sample_hints() -> Vec<Hint> {
    vec![
        Hint { raw: raw_at(0, 0), label: "aa".to_string() },
        Hint { raw: raw_at(0, 0), label: "ab".to_string() },
    ]
}

#[test]
fn empty_prefix_is_all_hints() {
    let hints = sample_hints();
    assert!(matches!(filter(&hints, ""), FilterResult::Many(v) if v.len() == 2));
}

#[test]
fn no_starts_with_prefix_is_none() {
    let hints = sample_hints();
    assert!(matches!(filter(&hints, "z"), FilterResult::NoMatch));
}

#[test]
fn single_match_is_single() {
    let hints = sample_hints();
    assert!(matches!(filter(&hints, "ab"), FilterResult::Single(h) if h.label == "ab"));
}

#[test]
fn visible_to_filtered_emits_render() {
    let hints = vec![
        Hint { raw: raw_at(1, 0), label: "sa".to_string() },
        Hint { raw: raw_at(2, 40), label: "sj".to_string() },
    ];
    let mut s = Session::new(0);
    s.ingest(hints);
    let ev = s.key('s');
    let SessionEvent::Render(ids) = ev else {
        panic!("expected Render, got {ev:?}");
    };
    assert_eq!(ids.len(), 2);
}

#[test]
fn filtered_to_invoke_on_unique_prefix() {
    let (mut s, label_a, _) = two_planned_hints();
    let mut last = SessionEvent::Done;
    for c in label_a.chars() {
        last = s.key(c);
        if matches!(last, SessionEvent::Invoke(_)) {
            break;
        }
    }
    assert!(matches!(last, SessionEvent::Invoke(id) if id.0 == 0));
}

#[test]
fn filtered_to_done_when_no_match() {
    let (mut s, _, _) = two_planned_hints();
    let ev = s.key('z');
    assert!(matches!(ev, SessionEvent::Done));
}

#[test]
fn cancel_emits_done() {
    let (mut s, _, _) = two_planned_hints();
    assert!(matches!(s.cancel(), SessionEvent::Done));
    assert!(matches!(s.key('s'), SessionEvent::Done));
}

#[test]
fn no_hints_ingest_key_done() {
    let mut s = Session::new(0);
    s.ingest(Vec::new());
    assert!(matches!(s.key('a'), SessionEvent::Done));
}

#[test]
fn finished_session_key_is_done() {
    let (mut s, label_a, _) = two_planned_hints();
    for c in label_a.chars() {
        let _ = s.key(c);
    }
    assert!(matches!(s.key('q'), SessionEvent::Done));
}

#[test]
fn backspace_restores_candidates() {
    let alphabet: Vec<char> = "sadfjklewcmpgh".chars().collect();
    let hints_vec = plan(vec![raw_at(1, 0), raw_at(2, 100)], &alphabet, 0);
    let c0 = hints_vec[0].label.chars().next().unwrap();
    let mut s = Session::new(0);
    s.ingest(hints_vec.clone());
    let _ = s.key(c0);
    let _ = s.key('\u{8}');
    match filter(&hints_vec, "") {
        FilterResult::Many(v) => assert_eq!(v.len(), 2),
        o => panic!("{o:?}"),
    }
}

#[test]
fn invoke_then_idle_on_followup_keys() {
    let (mut s, label_a, _) = two_planned_hints();
    for c in label_a.chars() {
        if matches!(s.key(c), SessionEvent::Invoke(_)) {
            break;
        }
    }
    assert!(matches!(s.key('x'), SessionEvent::Done));
}

#[test]
fn hundred_k_random_keys_never_panics() {
    let mut raws = Vec::with_capacity(32);
    for i in 0..32u64 {
        let mut r = raw_at(i, (i as i32) * 8);
        r.bounds.w = 10;
        r.bounds.h = 10;
        raws.push(r);
    }
    let alphabet: Vec<char> = "sadfjklewcmpgh".chars().collect();
    let hints = plan(raws, &alphabet, 0);
    let mut s = Session::new(0);
    s.ingest(hints);
    let keys: Vec<char> = "sadfjklewcmpghzqx".chars().collect();
    for i in 0..100_000 {
        let c = keys[i % keys.len()];
        let _ = s.key(c);
    }
}

#[test]
fn backspace_after_render_restores_full_prefix() {
    let hints = vec![
        Hint { raw: raw_at(1, 0), label: "sa".to_string() },
        Hint { raw: raw_at(2, 40), label: "sj".to_string() },
        Hint { raw: raw_at(3, 80), label: "d".to_string() },
    ];
    let mut s = Session::new(0);
    s.ingest(hints);
    assert_eq!(s.key('s'), SessionEvent::Render(vec![navigator::hint::HintId(0), navigator::hint::HintId(1)]));
    assert_eq!(s.prefix(), "s");
    assert_eq!(s.visible_hints().len(), 2);
    assert_eq!(s.key('\u{7f}'), SessionEvent::Render(vec![
        navigator::hint::HintId(0),
        navigator::hint::HintId(1),
        navigator::hint::HintId(2),
    ]));
    assert_eq!(s.prefix(), "");
    assert_eq!(s.visible_hints().len(), 3);
    assert_eq!(s.key('d'), SessionEvent::Invoke(navigator::hint::HintId(2)));
    assert!(s.visible_hints().is_empty());
}

#[test]
fn plan_gives_short_labels_to_top_ranks() {
    let alphabet: Vec<char> = "sadfjklewcmpgh".chars().collect();
    let raws: Vec<RawHint> = (0..15u64).map(|i| raw_at(i, i as i32 * 30)).collect();
    let hints = plan(raws, &alphabet, 0);
    assert_eq!(hints.len(), 15);
    let lens: Vec<usize> = hints.iter().map(|h| h.label.len()).collect();
    assert_eq!(&lens[..12], &[1; 12]);
    assert_eq!(&lens[12..], &[2; 3]);
    assert_eq!(hints[0].label, "d");
    assert_eq!(hints[0].raw.element_id, 0);
    assert_eq!(hints[12].label, "ss");
}

#[test]
fn plan_caps_at_max_planned() {
    let alphabet: Vec<char> = "sadfjklewcmpgh".chars().collect();
    let raws: Vec<RawHint> = (0..10u64).map(|i| raw_at(i, i as i32 * 30)).collect();
    let hints = plan(raws, &alphabet, 3);
    assert_eq!(hints.iter().map(|h| h.raw.element_id).collect::<Vec<_>>(), vec![0, 1, 2]);
    assert_eq!(hints.iter().map(|h| h.label.clone()).collect::<Vec<_>>(), vec!["s", "a", "d"]);
}

#[test]
fn key_run_names_session_hints_and_invokes_at_most_once() {
    let mut raws = Vec::new();
    for i in 0..20u64 {
        raws.push(raw_at(i, (i as i32) * 30));
    }
    let alphabet: Vec<char> = "sadf".chars().collect();
    let hints = plan(raws, &alphabet, 0);
    let n = hints.len();
    let keys: Vec<char> = "sazq\u{8}dsff\u{7f}ad".chars().collect();
    for start in 0..keys.len() {
        let mut s = Session::new(0);
        s.ingest(hints.clone());
        let mut invokes = 0;
        for k in 0..40 {
            match s.key(keys[(start + k) % keys.len()]) {
                SessionEvent::Render(ids) => assert!(ids.iter().all(|id| (id.0 as usize) < n)),
                SessionEvent::Invoke(id) => {
                    assert!((id.0 as usize) < n);
                    invokes += 1;
                },
                SessionEvent::Done => {},
            }
        }
        assert!(invokes <= 1);
    }
}

#[test]
fn plan_over_an_empty_alphabet_gives_an_empty_label() {
    let hints = plan(vec![raw_at(3, 0), raw_at(4, 50)], &[], 1);
    assert_eq!(hints.len(), 1);
    assert_eq!(hints[0].raw.element_id, 3);
    assert_eq!(hints[0].label, "");
}
