//! Hint-session state: ingest planned hints, apply keystrokes, emit render / invoke / done events.

use vstd::prelude::*;
use crate::filter::{FilterResult, filter, matching_indices, matching_positions, lemma_matching_indices, label_matches};
use crate::hint::{Hint, HintId};
use crate::text::{string_push, string_pop};

verus! {

/// Session state after a hotkey triggers planning.
pub struct Session {
    seed: u64,
    hints: Vec<Hint>,
    prefix: String,
    finished: bool,
}

/// What the orchestrator should do after a keystroke.
#[derive(Debug, PartialEq, Eq)]
pub enum SessionEvent {
    /// Several hints still match: draw exactly these.
    Render(Vec<HintId>),
    /// Exactly one hint matches: act on it.
    Invoke(HintId),
    /// The session is over.
    Done,
}

/// Backspace (`U+0008`) or delete (`U+007F`): both remove the last typed char.
pub open spec fn is_erase(c: char) -> bool {
    c == '\u{8}' || c == '\u{7f}'
}

/// The typed prefix after key `c`.
pub open spec fn edited_prefix(p: Seq<char>, c: char) -> Seq<char> {
    if is_erase(c) {
        if p.len() == 0 {
            p
        } else {
            p.drop_last()
        }
    } else {
        p.push(c)
    }
}

/// What one keystroke `c` does to session `s`, giving `t` and the event `ev`: the hints
/// stay; a finished or empty session answers `Done`; otherwise the prefix is edited and the
/// hints matching it decide (none: done; one: invoke it; more: render them).
pub open spec fn key_post(s: Session, c: char, t: Session, ev: SessionEvent) -> bool {
    &&& t.hint_seq() == s.hint_seq()
    &&& t.seed_spec() == s.seed_spec()
    &&& s.is_finished() ==> ev is Done && t.is_finished() && t.prefix_seq() == s.prefix_seq()
    &&& !s.is_finished() && s.hint_seq().len() == 0 ==> ev is Done
        && t.is_finished() && t.prefix_seq() == s.prefix_seq()
    &&& !s.is_finished() && s.hint_seq().len() > 0 ==> ({
        let p = edited_prefix(s.prefix_seq(), c);
        let m = matching_indices(s.hint_seq(), p);
        &&& t.prefix_seq() == p
        &&& (m.len() == 0 ==> ev is Done && t.is_finished())
        &&& (m.len() == 1 ==> ev == SessionEvent::Invoke(HintId(m[0] as u32)) && t.is_finished())
        &&& (m.len() >= 2 ==> (ev matches SessionEvent::Render(ids) && ids@.len() == m.len()
            && (forall|k: int| 0 <= k < m.len() ==> (#[trigger] ids@[k]).0 == m[k] as u32))
            && !t.is_finished())
    })
}

impl Session {
    /// The hints of this session, in planner order.
    pub closed spec fn hint_seq(&self) -> Seq<Hint> {
        self.hints@
    }

    /// The prefix typed so far.
    pub closed spec fn prefix_seq(&self) -> Seq<char> {
        self.prefix@
    }

    /// The session has ended (after an invoke, a cancel or a non-matching key).
    pub closed spec fn is_finished(&self) -> bool {
        self.finished
    }

    pub closed spec fn seed_spec(&self) -> u64 {
        self.seed
    }

    /// Creates an empty session; `seed` is kept for deterministic tie-breaks.
    pub fn new(seed: u64) -> (s: Self)
        ensures
            s.hint_seq() == Seq::<Hint>::empty(),
            s.prefix_seq() == Seq::<char>::empty(),
            !s.is_finished(),
            s.seed_spec() == seed,
    {
        Session { seed, hints: Vec::new(), prefix: String::new(), finished: false }
    }

    /// Replaces the working hint set and clears the typed prefix.
    pub fn ingest(&mut self, hints: Vec<Hint>)
        ensures
            final(self).hint_seq() == hints@,
            final(self).prefix_seq() == Seq::<char>::empty(),
            final(self).is_finished() == (hints@.len() == 0),
            final(self).seed_spec() == old(self).seed_spec(),
    {
        self.hints = hints;
        self.prefix = String::new();
        self.finished = self.hints.len() == 0;
    }

    /// Applies one keystroke; backspace / delete pops one char.
    ///
    /// After an `Invoke` or a terminal `Done`, further keys yield `Done` and change nothing.
    pub fn key(&mut self, c: char) -> (ev: SessionEvent)
        ensures
            key_post(*old(self), c, *final(self), ev),
    {
        if self.finished {
            return SessionEvent::Done;
        }
        if self.hints.len() == 0 {
            self.finished = true;
            return SessionEvent::Done;
        }
        if c == '\u{8}' || c == '\u{7f}' {
            let _ = string_pop(&mut self.prefix);
            return self.after_prefix_change();
        }
        string_push(&mut self.prefix, c);
        self.after_prefix_change()
    }

    /// User cancelled: ends the session.
    pub fn cancel(&mut self) -> (ev: SessionEvent)
        ensures
            ev is Done,
            final(self).is_finished(),
            final(self).hint_seq() == old(self).hint_seq(),
            final(self).prefix_seq() == old(self).prefix_seq(),
            final(self).seed_spec() == old(self).seed_spec(),
    {
        self.finished = true;
        SessionEvent::Done
    }

    /// Current hint list.
    pub fn hints(&self) -> (h: &[Hint])
        ensures
            h@ == self.hint_seq(),
    {
        self.hints.as_slice()
    }

    /// Prefix typed so far.
    pub fn prefix(&self) -> (p: &str)
        ensures
            p@ == self.prefix_seq(),
    {
        self.prefix.as_str()
    }

    /// Hints to draw for the current prefix: none once finished, else those matching the prefix.
    pub fn visible_hints(&self) -> (v: Vec<Hint>)
        ensures
            self.is_finished() || self.hint_seq().len() == 0 ==> v@.len() == 0,
            !(self.is_finished() || self.hint_seq().len() == 0) ==> ({
                let m = matching_indices(self.hint_seq(), self.prefix_seq());
                &&& v@.len() == m.len()
                &&& forall|k: int| 0 <= k < m.len() ==> #[trigger] v@[k] == self.hint_seq()[m[k]]
            }),
    {
        let mut out: Vec<Hint> = Vec::new();
        if self.finished || self.hints.len() == 0 {
            return out;
        }
        match filter(self.hints.as_slice(), self.prefix.as_str()) {
            FilterResult::NoMatch => {},
            FilterResult::Single(h) => {
                out.push(h.clone());
            },
            FilterResult::Many(v) => {
                let mut k: usize = 0;
                while k < v.len()
                    invariant
                        k <= v@.len(),
                        out@.len() == k,
                        forall|j: int| 0 <= j < k ==> #[trigger] out@[j] == *v@[j],
                    decreases v@.len() - k,
                {
                    out.push(v[k].clone());
                    k += 1;
                }
            },
        }
        out
    }

    fn after_prefix_change(&mut self) -> (ev: SessionEvent)
        requires
            old(self).hint_seq().len() > 0,
        ensures
            final(self).hint_seq() == old(self).hint_seq(),
            final(self).prefix_seq() == old(self).prefix_seq(),
            final(self).seed_spec() == old(self).seed_spec(),
            ({
                let m = matching_indices(old(self).hint_seq(), old(self).prefix_seq());
                &&& (m.len() == 0 ==> ev is Done && final(self).is_finished())
                &&& (m.len() == 1 ==> ev == SessionEvent::Invoke(HintId(m[0] as u32)) && final(self).is_finished())
                &&& (m.len() >= 2 ==> (ev matches SessionEvent::Render(ids) && ids@.len() == m.len()
                    && (forall|k: int| 0 <= k < m.len() ==> (#[trigger] ids@[k]).0 == m[k] as u32))
                    && final(self).is_finished() == old(self).is_finished())
            }),
    {
        let pos = matching_positions(self.hints.as_slice(), self.prefix.as_str());
        if pos.len() == 0 {
            self.finished = true;
            return SessionEvent::Done;
        }
        if pos.len() == 1 {
            self.finished = true;
            return SessionEvent::Invoke(HintId(pos[0] as u32));
        }
        let mut out: Vec<HintId> = Vec::new();
        let mut k: usize = 0;
        while k < pos.len()
            invariant
                k <= pos@.len(),
                out@.len() == k,
                forall|j: int| 0 <= j < k ==> (#[trigger] out@[j]).0 == pos@[j] as u32,
            decreases pos@.len() - k,
        {
            out.push(HintId(pos[k] as u32));
            k += 1;
        }
        SessionEvent::Render(out)
    }
}

/// Every hint matches the empty prefix: a fresh session shows all of its hints, in order.
pub proof fn lemma_empty_prefix_matches_all(hints: Seq<Hint>)
    ensures
        matching_indices(hints, Seq::<char>::empty()) == Seq::new(hints.len(), |i: int| i),
    decreases hints.len(),
{
    if hints.len() > 0 {
        lemma_empty_prefix_matches_all(hints.drop_last());
        assert(Seq::<char>::empty().is_prefix_of(hints.last().label@));
        assert(Seq::new(hints.drop_last().len(), |i: int| i).push(hints.len() - 1) =~= Seq::new(hints.len(), |i: int| i));
    } else {
        assert(Seq::new(0, |i: int| i) =~= Seq::<int>::empty());
    }
}

/// Typing a character and then backspace gives back the prefix typed before.
pub proof fn lemma_backspace_undoes(p: Seq<char>, c: char)
    requires
        !is_erase(c),
    ensures
        edited_prefix(edited_prefix(p, c), '\u{8}') == p,
{
    assert(p.push(c).drop_last() =~= p);
}

/// No hint's label is a prefix of another hint's label.
pub open spec fn hint_labels_prefix_free(hints: Seq<Hint>) -> bool {
    forall|i: int, k: int| 0 <= i < hints.len() && 0 <= k < hints.len() && i != k
        ==> !(#[trigger] hints[i]).label@.is_prefix_of((#[trigger] hints[k]).label@)
}

/// With prefix-free labels, typing a hint's whole label selects exactly that hint.
pub proof fn lemma_full_label_selects_unique(hints: Seq<Hint>, i: int)
    requires
        0 <= i < hints.len(),
        hint_labels_prefix_free(hints),
    ensures
        matching_indices(hints, hints[i].label@) == seq![i],
{
    lemma_matching_indices(hints, hints[i].label@);
    let m = matching_indices(hints, hints[i].label@);
    assert(label_matches(hints[i], hints[i].label@));
    assert(m.contains(i));
    assert forall|k: int| 0 <= k < m.len() implies #[trigger] m[k] == i by {
        let j = m[k];
        assert(label_matches(hints[j], hints[i].label@));
        if j != i {
            assert(hints[i].label@.is_prefix_of(hints[j].label@));
        }
    }
    assert(m.len() == 1) by {
        if m.len() > 1 {
            assert(m[0] < m[1]);
        }
    }
    assert(m =~= seq![i]);
}

/// A typed prefix of some hint's label keeps that hint among the matches.
pub proof fn lemma_prefix_keeps_hint(hints: Seq<Hint>, i: int, p: Seq<char>)
    requires
        0 <= i < hints.len(),
        p.is_prefix_of(hints[i].label@),
    ensures
        matching_indices(hints, p).contains(i),
{
    lemma_matching_indices(hints, p);
    assert(label_matches(hints[i], p));
}


/// Every hint id that event `ev` names is below `n`.
pub open spec fn event_ids_below(ev: SessionEvent, n: int) -> bool {
    match ev {
        SessionEvent::Render(ids) => forall|k: int| 0 <= k < ids@.len() ==> (#[trigger] ids@[k]).0 < n,
        SessionEvent::Invoke(id) => id.0 < n,
        SessionEvent::Done => true,
    }
}

/// How many of the events invoke a hint.
pub open spec fn invoke_count(evs: Seq<SessionEvent>) -> nat
    decreases evs.len(),
{
    if evs.len() == 0 {
        0
    } else {
        invoke_count(evs.drop_last()) + (if evs.last() is Invoke { 1nat } else { 0nat })
    }
}

/// A run of keystrokes on one session: `ss[i + 1]` and `evs[i]` come from key `cs[i]`
/// on `ss[i]`.
pub open spec fn key_run(ss: Seq<Session>, cs: Seq<char>, evs: Seq<SessionEvent>) -> bool {
    &&& ss.len() == cs.len() + 1
    &&& evs.len() == cs.len()
    &&& forall|i: int| 0 <= i < cs.len() ==> #[trigger] key_post(ss[i], cs[i], ss[i + 1], evs[i])
}

proof fn lemma_key_run_prefix(ss: Seq<Session>, cs: Seq<char>, evs: Seq<SessionEvent>, n: int)
    requires
        key_run(ss, cs, evs),
        0 <= n <= cs.len(),
    ensures
        ss[n].hint_seq() == ss[0].hint_seq(),
        forall|i: int| 0 <= i < n ==> event_ids_below(#[trigger] evs[i], ss[0].hint_seq().len() as int),
        invoke_count(evs.take(n)) <= 1,
        invoke_count(evs.take(n)) == 1 ==> ss[n].is_finished(),
    decreases n,
{
    if n > 0 {
        lemma_key_run_prefix(ss, cs, evs, n - 1);
        let i = n - 1;
        assert(key_post(ss[i], cs[i], ss[i + 1], evs[i]));
        assert(evs.take(n).drop_last() =~= evs.take(i));
        let hs = ss[i].hint_seq();
        if !ss[i].is_finished() && hs.len() > 0 {
            let m = matching_indices(hs, edited_prefix(ss[i].prefix_seq(), cs[i]));
            lemma_matching_indices(hs, edited_prefix(ss[i].prefix_seq(), cs[i]));
            match evs[i] {
                SessionEvent::Render(ids) => {
                    assert forall|k: int| 0 <= k < ids@.len() implies (#[trigger] ids@[k]).0 < hs.len() by {
                        assert(ids@[k].0 == m[k] as u32);
                        assert(0 <= m[k] < hs.len());
                    }
                },
                SessionEvent::Invoke(id) => {
                    assert(0 <= m[0] < hs.len());
                },
                SessionEvent::Done => {},
            }
        }
    }
}

/// Over any run of [`Session::key`] calls on one session (whatever hints it was given with
/// `ingest`, and whatever chars are typed), every `Render` and `Invoke` names only ids below
/// the session's hint count, and at most one call returns `Invoke` (after it the session
/// is finished and answers `Done`).
pub proof fn lemma_key_run_invokes_at_most_once(ss: Seq<Session>, cs: Seq<char>, evs: Seq<SessionEvent>)
    requires
        key_run(ss, cs, evs),
    ensures
        forall|i: int| 0 <= i < evs.len() ==> event_ids_below(#[trigger] evs[i], ss[0].hint_seq().len() as int),
        invoke_count(evs) <= 1,
{
    lemma_key_run_prefix(ss, cs, evs, cs.len() as int);
    assert(evs.take(cs.len() as int) =~= evs);
}

} // verus!
