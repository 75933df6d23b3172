//! The application's reactions to input: hotkey, planned hints, render results and keys
//! typed in hint mode.
//!
//! Each method takes one event and returns what the caller does (hide or show the overlay,
//! repaint it, invoke a hint); the caller performs it and reports back where needed.

use vstd::prelude::*;
use crate::filter::{matching_indices, lemma_matching_indices};
use crate::geom::Rect;
use crate::hint::Hint;
use crate::input::SessionKey;
use crate::session::{Session, SessionEvent, edited_prefix, is_erase, hint_labels_prefix_free, lemma_empty_prefix_matches_all,
    lemma_full_label_selects_unique, lemma_prefix_keeps_hint};
use crate::uia_debug::UiaDebugReject;

verus! {

/// Tray menu commands.
#[derive(Clone, Copy, Debug, PartialEq, Eq, Structural)]
pub enum TrayEvent {
    Reload,
    OpenConfigFolder,
    Diagnose,
    About,
    Quit,
}

/// What to do after the hotkey.
#[derive(Debug, PartialEq, Eq)]
pub enum HotkeyOutcome {
    /// Hint mode was on: it is over; hide this overlay session if one is shown.
    Dismiss(Option<u64>),
    /// No foreground window was captured: do nothing.
    SkipNullWindow,
    /// Start a new session: hide the previous overlay if any, enumerate and plan.
    Begin { hide_previous: Option<u64>, session_id: u64 },
}

/// What to do once the hints are planned.
#[derive(Debug)]
pub enum PlannedOutcome {
    /// Nothing to show (no hints and no debug rejects).
    NothingToShow,
    /// Show these hints as overlay session `session_id`, then report with
    /// [`Controller::on_show_result`].
    Show { session_id: u64, hints: Vec<Hint> },
}

/// What to do after a key typed in hint mode.
#[derive(Debug)]
pub enum KeyOutcome {
    /// Nothing.
    Ignore,
    /// Hide overlay session `id`; hint mode is over.
    Hide(u64),
    /// Repaint overlay session `id` with these hints.
    Repaint(u64, Vec<Hint>),
    /// Hide overlay session `show_id` and invoke `hint` in window `hwnd` when both are known.
    HideAndInvoke { show_id: u64, hwnd: Option<usize>, hint: Option<Hint> },
}

/// The application's hint-mode state.
pub struct Controller {
    /// Id of the last overlay session started.
    pub overlay_session: u64,
    /// Overlay session on screen.
    pub active_show_id: Option<u64>,
    /// The hint session taking keys.
    pub session: Option<Session>,
    /// Window the session's hints belong to.
    pub session_hwnd: Option<usize>,
    /// Rejected nodes drawn for debugging.
    pub active_debug_rejects: Vec<UiaDebugReject>,
    /// The overlay shows debug rejects only (no hints): only Esc is handled.
    pub overlay_debug_only: bool,
    /// Keys are captured for the hint session.
    pub hint_mode: bool,
    /// A planned session waiting for the show result, and its window.
    pub pending: Option<(Session, usize)>,
}

/// Nothing is shown and no session takes keys.
pub open spec fn is_idle(c: Controller) -> bool {
    &&& !c.hint_mode
    &&& c.active_show_id is None
    &&& c.session is None
    &&& c.session_hwnd is None
    &&& c.active_debug_rejects@.len() == 0
    &&& !c.overlay_debug_only
}

/// `c` back to idle, keeping its session counter.
pub open spec fn reset_spec(c: Controller, d: Controller) -> bool {
    &&& is_idle(d)
    &&& d.overlay_session == c.overlay_session
}

/// The event category of key `k` in session `s`: `0` done, `1` invoke, `2` render.
pub open spec fn key_category(s: Session, k: SessionKey) -> int {
    match k {
        SessionKey::Escape => 0,
        _ => {
            let c = match k { SessionKey::Char(ch) => ch, _ => '\u{8}' };
            if s.is_finished() || s.hint_seq().len() == 0 {
                0
            } else {
                let m = matching_indices(s.hint_seq(), edited_prefix(s.prefix_seq(), c));
                if m.len() == 0 { 0 } else if m.len() == 1 { 1 } else { 2 }
            }
        },
    }
}

/// The char key `k` types (backspace for [`SessionKey::Backspace`]).
pub open spec fn key_char(k: SessionKey) -> char {
    match k {
        SessionKey::Char(ch) => ch,
        _ => '\u{8}',
    }
}

/// The hints matching the prefix after key `k` in session `s`.
pub open spec fn matches_after(s: Session, k: SessionKey) -> Seq<int> {
    matching_indices(s.hint_seq(), edited_prefix(s.prefix_seq(), key_char(k)))
}

impl Controller {
    /// Idle, no session started yet.
    pub fn new() -> (c: Self)
        ensures
            is_idle(c),
            c.overlay_session == 0,
            c.pending is None,
    {
        Controller {
            overlay_session: 0,
            active_show_id: None,
            session: None,
            session_hwnd: None,
            active_debug_rejects: Vec::new(),
            overlay_debug_only: false,
            hint_mode: false,
            pending: None,
        }
    }

    fn reset(&mut self)
        ensures
            reset_spec(*old(self), *final(self)),
            final(self).pending == old(self).pending,
    {
        self.hint_mode = false;
        self.active_show_id = None;
        self.session = None;
        self.session_hwnd = None;
        self.active_debug_rejects = Vec::new();
        self.overlay_debug_only = false;
    }

    /// The hotkey: a second press closes hint mode; otherwise a new overlay session starts
    /// for the captured foreground window (`0` = none captured).
    pub fn on_hotkey(&mut self, captured_hwnd: usize) -> (r: HotkeyOutcome)
        ensures
            old(self).hint_mode ==> r == HotkeyOutcome::Dismiss(old(self).active_show_id)
                && reset_spec(*old(self), *final(self)) && final(self).pending is None,
            !old(self).hint_mode && captured_hwnd == 0 ==> r == HotkeyOutcome::SkipNullWindow
                && *final(self) == *old(self),
            !old(self).hint_mode && captured_hwnd != 0 ==> ({
                let id = if old(self).overlay_session == u64::MAX { 0u64 } else { (old(self).overlay_session + 1) as u64 };
                &&& r == (HotkeyOutcome::Begin { hide_previous: old(self).active_show_id, session_id: id })
                &&& *final(self) == (Controller { overlay_session: id, ..*old(self) })
            }),
    {
        if self.hint_mode {
            let prev = self.active_show_id;
            self.reset();
            self.pending = None;
            return HotkeyOutcome::Dismiss(prev);
        }
        if captured_hwnd == 0 {
            return HotkeyOutcome::SkipNullWindow;
        }
        self.overlay_session = self.overlay_session.wrapping_add(1);
        HotkeyOutcome::Begin { hide_previous: self.active_show_id, session_id: self.overlay_session }
    }

    /// The planned hints (and debug rejects) of the window `hwnd`: a new session takes them;
    /// it is shown unless there is nothing at all to draw.
    pub fn on_planned(&mut self, hints: Vec<Hint>, debug_rejects: Vec<UiaDebugReject>, hwnd: usize) -> (r: PlannedOutcome)
        ensures
            hints@.len() == 0 && debug_rejects@.len() == 0 ==> r is NothingToShow
                && reset_spec(*old(self), *final(self)) && final(self).pending is None,
            !(hints@.len() == 0 && debug_rejects@.len() == 0) ==> ({
                &&& r matches PlannedOutcome::Show { session_id, hints: shown }
                    && session_id == old(self).overlay_session && shown@ == hints@
                &&& final(self).active_debug_rejects@ == debug_rejects@
                &&& final(self).overlay_debug_only == (hints@.len() == 0)
                &&& final(self).pending matches Some((s, w)) && w == hwnd && s.hint_seq() == hints@
                    && s.prefix_seq() == Seq::<char>::empty() && s.is_finished() == (hints@.len() == 0)
                &&& final(self).overlay_session == old(self).overlay_session
                &&& final(self).hint_mode == old(self).hint_mode
                &&& final(self).active_show_id == old(self).active_show_id
                &&& final(self).session == old(self).session
                &&& final(self).session_hwnd == old(self).session_hwnd
            }),
    {
        let ghost hs = hints@;
        let mut sess = Session::new(self.overlay_session);
        sess.ingest(hints);
        let initial = sess.visible_hints();
        proof {
            if hs.len() > 0 {
                lemma_empty_prefix_matches_all(hs);
                assert(initial@ =~= hs);
            }
        }
        let no_rejects = debug_rejects.len() == 0;
        self.active_debug_rejects = debug_rejects;
        self.overlay_debug_only = initial.len() == 0 && !no_rejects;
        if initial.len() == 0 && no_rejects {
            self.reset();
            self.pending = None;
            return PlannedOutcome::NothingToShow;
        }
        self.pending = Some((sess, hwnd));
        PlannedOutcome::Show { session_id: self.overlay_session, hints: initial }
    }

    /// The overlay show result: on success the pending session takes keys; on failure the
    /// state goes back to idle.
    pub fn on_show_result(&mut self, ok: bool)
        ensures
            !ok || old(self).pending is None ==> reset_spec(*old(self), *final(self)) && final(self).pending is None,
            ok && old(self).pending is Some ==> ({
                let (s, w) = old(self).pending.unwrap();
                &&& final(self).active_show_id == Some(old(self).overlay_session)
                &&& final(self).session == Some(s)
                &&& final(self).session_hwnd == Some(w)
                &&& final(self).hint_mode
                &&& final(self).pending is None
                &&& final(self).overlay_session == old(self).overlay_session
                &&& final(self).active_debug_rejects == old(self).active_debug_rejects
                &&& final(self).overlay_debug_only == old(self).overlay_debug_only
            }),
    {
        let pending = self.pending.take();
        match pending {
            Some((s, w)) => {
                if ok {
                    self.active_show_id = Some(self.overlay_session);
                    self.session = Some(s);
                    self.session_hwnd = Some(w);
                    self.hint_mode = true;
                    return;
                }
                self.reset();
            },
            None => {
                self.reset();
            },
        }
    }

    /// A key typed in hint mode.
    pub fn on_session_key(&mut self, key: SessionKey) -> (r: KeyOutcome)
        ensures
            !old(self).hint_mode ==> r is Ignore && *final(self) == *old(self),
            old(self).hint_mode && old(self).active_show_id is None ==> r is Ignore
                && *final(self) == (Controller { hint_mode: false, ..*old(self) }),
            old(self).hint_mode ==> (old(self).active_show_id matches Some(sid) ==> ({
                if old(self).overlay_debug_only {
                    if key == SessionKey::Escape {
                        r matches KeyOutcome::Hide(h) && h == sid && reset_spec(*old(self), *final(self))
                            && final(self).pending == old(self).pending
                    } else {
                        r is Ignore && *final(self) == *old(self)
                    }
                } else {
                    match old(self).session {
                        None => r matches KeyOutcome::Hide(h) && h == sid && reset_spec(*old(self), *final(self))
                            && final(self).pending == old(self).pending,
                        Some(s) => {
                            let cat = key_category(s, key);
                            let m = matches_after(s, key);
                            if cat == 2 {
                                &&& r matches KeyOutcome::Repaint(h, v) && h == sid && v@.len() == m.len()
                                    && (forall|k: int| 0 <= k < m.len() ==> #[trigger] v@[k] == s.hint_seq()[m[k]])
                                &&& final(self).session matches Some(t) && t.hint_seq() == s.hint_seq()
                                    && t.prefix_seq() == edited_prefix(s.prefix_seq(), key_char(key))
                                    && !t.is_finished()
                                &&& final(self).hint_mode
                                &&& final(self).active_show_id == old(self).active_show_id
                                &&& final(self).session_hwnd == old(self).session_hwnd
                                &&& final(self).overlay_session == old(self).overlay_session
                                &&& final(self).active_debug_rejects == old(self).active_debug_rejects
                                &&& final(self).overlay_debug_only == old(self).overlay_debug_only
                                &&& final(self).pending == old(self).pending
                            } else if cat == 1 {
                                &&& r matches KeyOutcome::HideAndInvoke { show_id, hwnd, hint }
                                    && show_id == sid && hwnd == old(self).session_hwnd
                                    && hint == (if ((m[0] as u32) as int) < s.hint_seq().len() {
                                        Some(s.hint_seq()[(m[0] as u32) as int])
                                    } else {
                                        None::<Hint>
                                    })
                                &&& reset_spec(*old(self), *final(self))
                                &&& final(self).pending == old(self).pending
                            } else {
                                &&& r matches KeyOutcome::Hide(h) && h == sid
                                &&& reset_spec(*old(self), *final(self))
                                &&& final(self).pending == old(self).pending
                            }
                        },
                    }
                }
            })),
    {
        if !self.hint_mode {
            return KeyOutcome::Ignore;
        }
        let sid = match self.active_show_id {
            Some(s) => s,
            None => {
                self.hint_mode = false;
                return KeyOutcome::Ignore;
            },
        };
        if self.overlay_debug_only {
            if key == SessionKey::Escape {
                self.reset();
                return KeyOutcome::Hide(sid);
            }
            return KeyOutcome::Ignore;
        }
        let mut sess = match self.session.take() {
            Some(s) => s,
            None => {
                self.reset();
                return KeyOutcome::Hide(sid);
            },
        };
        let ghost s0 = sess;
        let event = match key {
            SessionKey::Escape => sess.cancel(),
            SessionKey::Backspace => sess.key('\u{8}'),
            SessionKey::Char(c) => sess.key(c),
        };
        proof {
            if key != SessionKey::Escape && !s0.is_finished() && s0.hint_seq().len() > 0 {
                lemma_matching_indices(s0.hint_seq(), edited_prefix(s0.prefix_seq(), key_char(key)));
            }
        }
        match event {
            SessionEvent::Render(_) => {
                let visible = sess.visible_hints();
                self.session = Some(sess);
                KeyOutcome::Repaint(sid, visible)
            },
            SessionEvent::Invoke(id) => {
                let hwnd = self.session_hwnd;
                let hints = sess.hints();
                let idx = id.0 as usize;
                let hint = if idx < hints.len() { Some(hints[idx].clone()) } else { None };
                self.reset();
                KeyOutcome::HideAndInvoke { show_id: sid, hwnd, hint }
            },
            SessionEvent::Done => {
                self.reset();
                KeyOutcome::Hide(sid)
            },
        }
    }
}

/// Typing a hint's label one character at a time never ends the session without an
/// invoke, whenever a key invokes it invokes that hint, and its last character invokes it
/// at the latest (labels prefix-free, none of their characters an erase key).
pub proof fn lemma_typing_label_reaches_hint(s: Session, i: int, k: int)
    requires
        hint_labels_prefix_free(s.hint_seq()),
        0 <= i < s.hint_seq().len(),
        !s.is_finished(),
        0 <= k < s.hint_seq()[i].label@.len(),
        s.prefix_seq() == s.hint_seq()[i].label@.take(k),
        forall|j: int| 0 <= j < s.hint_seq()[i].label@.len() ==> !is_erase(#[trigger] s.hint_seq()[i].label@[j]),
    ensures
        ({
            let key = SessionKey::Char(s.hint_seq()[i].label@[k]);
            &&& key_category(s, key) != 0
            &&& key_category(s, key) == 1 ==> matches_after(s, key)[0] == i
            &&& k + 1 == s.hint_seq()[i].label@.len() ==> key_category(s, key) == 1
        }),
{
    let label = s.hint_seq()[i].label@;
    let c = label[k];
    let key = SessionKey::Char(c);
    assert(!is_erase(c));
    let p = edited_prefix(s.prefix_seq(), c);
    assert(p =~= label.take(k + 1));
    assert(p.is_prefix_of(label));
    lemma_prefix_keeps_hint(s.hint_seq(), i, p);
    lemma_matching_indices(s.hint_seq(), p);
    let m = matches_after(s, key);
    assert(m.contains(i));
    if m.len() == 1 {
        assert(m[0] == i);
    }
    if k + 1 == label.len() {
        assert(p =~= label);
        lemma_full_label_selects_unique(s.hint_seq(), i);
    }
}

/// Identity of a cached enumeration: window, process, title fingerprint and outer rectangle.
#[derive(Clone, Copy, Debug, PartialEq, Eq, Structural)]
pub struct HintCacheKey {
    pub hwnd: usize,
    pub pid: u32,
    pub title_fp: u64,
    /// Outer rectangle of the window.
    pub rect: crate::render::ScreenRect,
}

/// The cache of the last enumeration serves a new activation: same window identity, and
/// younger than the lifetime (at least 1 ms).
pub open spec fn cache_hit_spec(cached: Option<(HintCacheKey, u64)>, now: HintCacheKey, ttl_ms: u64) -> bool {
    match cached {
        Some((k, age_us)) => k == now && age_us < (if ttl_ms >= 1 { ttl_ms as int } else { 1 }) * 1000,
        None => false,
    }
}

/// Whether the cached enumeration (key and age in microseconds) serves this activation.
pub fn hint_cache_hit(cached: &Option<(HintCacheKey, u64)>, now: &HintCacheKey, ttl_ms: u64) -> (b: bool)
    ensures
        b == cache_hit_spec(*cached, *now, ttl_ms),
{
    match cached {
        Some((k, age_us)) => {
            let ttl: u128 = if ttl_ms >= 1 { ttl_ms as u128 } else { 1 };
            *k == *now && (*age_us as u128) < ttl * 1000
        },
        None => false,
    }
}

/// How the hotkey-to-plan time compares with the configured budgets.
#[derive(Clone, Copy, Debug, PartialEq, Eq, Structural)]
pub enum PipelineBudget {
    Within,
    SoftExceeded,
    HardExceeded,
}

/// The pipeline budget verdict for `t1 - t0` counter ticks at `freq` ticks per second
/// (the elapsed time is zero when the frequency is not positive).
pub open spec fn pipeline_budget_spec(freq: int, t0: int, t1: int, soft_ms: int, hard_ms: int) -> PipelineBudget {
    let dt = crate::input::qpc_saturating_delta(t0, t1);
    if freq > 0 && dt * 1000 > hard_ms * freq {
        PipelineBudget::HardExceeded
    } else if freq > 0 && dt * 1000 > soft_ms * freq {
        PipelineBudget::SoftExceeded
    } else {
        PipelineBudget::Within
    }
}

/// Classifies the hotkey-to-plan time against the hard and soft budgets (hard first).
pub fn classify_pipeline(freq: i64, t0: i64, t1: i64, soft_ms: u64, hard_ms: u64) -> (r: PipelineBudget)
    ensures
        r == pipeline_budget_spec(freq as int, t0 as int, t1 as int, soft_ms as int, hard_ms as int),
{
    if freq <= 0 {
        return PipelineBudget::Within;
    }
    let dt = crate::input::qpc_delta(t0, t1) as i128;
    let f = freq as i128;
    let h = hard_ms as i128;
    let s = soft_ms as i128;
    proof {
        assert(h * f <= 0xFFFF_FFFF_FFFF_FFFFi128 * 0x7FFF_FFFF_FFFF_FFFFi128) by (nonlinear_arith)
            requires 0 <= h <= 0xFFFF_FFFF_FFFF_FFFFi128, 0 <= f <= 0x7FFF_FFFF_FFFF_FFFFi128;
        assert(s * f <= 0xFFFF_FFFF_FFFF_FFFFi128 * 0x7FFF_FFFF_FFFF_FFFFi128) by (nonlinear_arith)
            requires 0 <= s <= 0xFFFF_FFFF_FFFF_FFFFi128, 0 <= f <= 0x7FFF_FFFF_FFFF_FFFFi128;
    }
    if dt * 1000 > h * f {
        PipelineBudget::HardExceeded
    } else if dt * 1000 > s * f {
        PipelineBudget::SoftExceeded
    } else {
        PipelineBudget::Within
    }
}

/// The planner's layout origin: the window's outer rectangle (at least 1x1), or a 1x1
/// rectangle at the origin when it could not be read.
pub fn layout_origin(window: Option<(i32, i32, i32, i32)>) -> (r: Rect)
    requires
        window matches Some(w) ==> crate::geom::fits_i32(w.2 - w.0) && crate::geom::fits_i32(w.3 - w.1),
    ensures
        r == (match window {
            Some(w) => Rect {
                x: w.0,
                y: w.1,
                w: if w.2 - w.0 >= 1 { (w.2 - w.0) as i32 } else { 1 },
                h: if w.3 - w.1 >= 1 { (w.3 - w.1) as i32 } else { 1 },
            },
            None => Rect { x: 0, y: 0, w: 1, h: 1 },
        }),
{
    match window {
        Some((l, t, r, b)) => {
            let w = r - l;
            let h = b - t;
            Rect { x: l, y: t, w: if w >= 1 { w } else { 1 }, h: if h >= 1 { h } else { 1 } }
        },
        None => Rect { x: 0, y: 0, w: 1, h: 1 },
    }
}

/// Tray menu command ids.
pub const IDM_RELOAD: usize = 2001;
pub const IDM_OPEN: usize = 2002;
pub const IDM_DIAG: usize = 2003;
pub const IDM_ABOUT: usize = 2004;
pub const IDM_EXIT: usize = 2005;

/// The tray event of a menu command (`wparam` of `WM_COMMAND`; its low word is the id).
pub fn tray_command_event(wparam: usize) -> (r: Option<TrayEvent>)
    ensures
        r == (if wparam % 0x10000 == IDM_RELOAD {
            Some(TrayEvent::Reload)
        } else if wparam % 0x10000 == IDM_OPEN {
            Some(TrayEvent::OpenConfigFolder)
        } else if wparam % 0x10000 == IDM_DIAG {
            Some(TrayEvent::Diagnose)
        } else if wparam % 0x10000 == IDM_ABOUT {
            Some(TrayEvent::About)
        } else if wparam % 0x10000 == IDM_EXIT {
            Some(TrayEvent::Quit)
        } else {
            None
        }),
{
    let id = wparam & 0xffff;
    proof {
        assert(wparam & 0xffff == wparam % 0x10000) by (bit_vector);
    }
    if id == IDM_RELOAD {
        Some(TrayEvent::Reload)
    } else if id == IDM_OPEN {
        Some(TrayEvent::OpenConfigFolder)
    } else if id == IDM_DIAG {
        Some(TrayEvent::Diagnose)
    } else if id == IDM_ABOUT {
        Some(TrayEvent::About)
    } else if id == IDM_EXIT {
        Some(TrayEvent::Quit)
    } else {
        None
    }
}

/// UTF-16 code units of one char (a surrogate pair above the basic plane).
pub open spec fn utf16_units(c: char) -> Seq<u16> {
    let v = c as u32;
    if v < 0x10000 {
        seq![v as u16]
    } else {
        let w = (v - 0x10000) as int;
        seq![(0xD800 + w / 0x400) as u16, (0xDC00 + w % 0x400) as u16]
    }
}

/// UTF-16 encoding of a string.
pub open spec fn utf16_of(s: Seq<char>) -> Seq<u16>
    decreases s.len(),
{
    if s.len() == 0 {
        Seq::empty()
    } else {
        utf16_of(s.drop_last()) + utf16_units(s.last())
    }
}

/// The tray tooltip buffer: the first 127 UTF-16 units of `s`, then zeros, 128 units in all.
pub open spec fn wide_tip_spec(s: Seq<char>) -> Seq<u16> {
    let u = utf16_of(s);
    Seq::new(128, |i: int| if i < 127 && i < u.len() { u[i] } else { 0u16 })
}

fn char_utf16(c: char) -> (r: (u16, Option<u16>))
    ensures
        utf16_units(c) == (match r.1 { Some(lo) => seq![r.0, lo], None => seq![r.0] }),
{
    let v = c as u32;
    if v < 0x10000 {
        (v as u16, None)
    } else {
        let w = v - 0x10000;
        proof {
            assert(w <= 0xFFFFF);
        }
        ((0xD800 + w / 0x400) as u16, Some((0xDC00 + w % 0x400) as u16))
    }
}

/// The tray tooltip text as a zero-padded 128-unit UTF-16 buffer (cut at 127 units).
pub fn wide_tip(s: &str) -> (r: Vec<u16>)
    ensures
        r@ == wide_tip_spec(s@),
{
    let n = s.unicode_len();
    let mut buf: Vec<u16> = Vec::new();
    let mut i: usize = 0;
    while i < n && buf.len() < 127
        invariant
            n == s@.len(),
            i <= n,
            buf.len() <= 127,
            buf.len() < 127 ==> buf@ == utf16_of(s@.take(i as int)),
            buf.len() >= 127 ==> buf@ == utf16_of(s@.take(i as int)).take(buf.len() as int),
            buf.len() >= 127 ==> buf.len() <= utf16_of(s@.take(i as int)).len(),
        decreases n - i,
    {
        let c = s.get_char(i);
        let (hi, lo) = char_utf16(c);
        proof {
            assert(s@.take(i as int + 1).drop_last() =~= s@.take(i as int));
            assert(s@.take(i as int + 1).last() == c);
        }
        let ghost before = buf@;
        buf.push(hi);
        match lo {
            Some(l) => {
                if buf.len() < 127 {
                    buf.push(l);
                }
            },
            None => {},
        }
        proof {
            let full = utf16_of(s@.take(i as int + 1));
            assert(full == before + utf16_units(c));
            if buf.len() < 127 {
                assert(buf@ =~= full);
            } else {
                assert(buf@ =~= full.take(buf.len() as int));
            }
        }
        i += 1;
    }
    let ghost u = utf16_of(s@);
    proof {
        if buf.len() < 127 {
            assert(s@.take(i as int) =~= s@);
        } else {
            lemma_utf16_prefix(s@, i as int);
        }
    }
    let ghost kept = buf@;
    assert(forall|k: int| 0 <= k < kept.len() ==> k < u.len() && #[trigger] kept[k] == u[k]);
    assert(kept.len() < 127 ==> kept.len() == u.len());
    while buf.len() < 128
        invariant
            kept.len() <= buf.len() <= 128,
            buf@.take(kept.len() as int) == kept,
            forall|k: int| kept.len() <= k < buf.len() ==> buf@[k] == 0u16,
        decreases 128 - buf.len(),
    {
        buf.push(0u16);
        proof {
            assert(buf@.take(kept.len() as int) =~= kept);
        }
    }
    proof {
        assert forall|k: int| 0 <= k < 128 implies #[trigger] buf@[k] == wide_tip_spec(s@)[k] by {
            if k < kept.len() {
                assert(buf@[k] == buf@.take(kept.len() as int)[k]);
            }
        }
        assert(buf@ =~= wide_tip_spec(s@));
    }
    buf
}

proof fn lemma_utf16_prefix(s: Seq<char>, i: int)
    requires
        0 <= i <= s.len(),
    ensures
        utf16_of(s.take(i)).is_prefix_of(utf16_of(s)),
    decreases s.len() - i,
{
    if i < s.len() {
        lemma_utf16_prefix(s, i + 1);
        assert(s.take(i + 1).drop_last() =~= s.take(i));
        let a = utf16_of(s.take(i));
        let b = utf16_of(s.take(i + 1));
        assert(b == a + utf16_units(s[i]));
        assert(a.is_prefix_of(b));
    } else {
        assert(s.take(i) =~= s);
    }
}

/// Whether the prefetcher enumerates the foreground window `hwnd` now: a real window, not
/// this application's own, and either a different window than last time or the last
/// enumeration is at least 800 ms old.
pub fn prefetch_wanted(hwnd: usize, exe_basename: &str, last_hwnd: usize, since_last_ms: u64) -> (b: bool)
    ensures
        b == (hwnd != 0
            && crate::text::ascii_lower(exe_basename@) != crate::text::ascii_lower("nav-app"@)
            && crate::text::ascii_lower(exe_basename@) != crate::text::ascii_lower("navigator.exe"@)
            && (hwnd != last_hwnd || since_last_ms >= 800)),
{
    if hwnd == 0 {
        return false;
    }
    if crate::strategy::eq_ignore_ascii_case(exe_basename, "nav-app")
        || crate::strategy::eq_ignore_ascii_case(exe_basename, "navigator.exe") {
        return false;
    }
    let stale = since_last_ms >= 800;
    !(hwnd == last_hwnd && !stale)
}

} // verus!
