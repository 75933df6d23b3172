//! Acting on a chosen hint: re-locating its element and the ladder of interactions tried
//! on it (pattern, legacy default action, physical click, focus).
//!
//! The caller performs each interaction and reports whether it worked; [`InvokeDispatch`]
//! decides what to try next.

use vstd::prelude::*;
use crate::error::UiaError;
use crate::fallback::{ROLE_GRAPHIC, ROLE_STATICTEXT, take_node_spec, should_take_node};
use crate::geom::Rect;
use crate::hint::{Backend, ElementKind, RawHint};
use crate::pattern::CONTROL_TAB_ITEM;
use crate::strategy::eq_ignore_ascii_case;
use crate::text::{ascii_lower, string_push};
use crate::uia_options::EnumOptions;

verus! {

/// The decimal text of an integer, with a leading `-` when negative.
pub open spec fn decimal_text(n: int) -> Seq<char>
    decreases (if n < 0 { -n + 1 } else { n }),
{
    if n < 0 {
        seq!['-'] + decimal_text(-n)
    } else if n < 10 {
        seq![(n + 48) as char]
    } else {
        decimal_text(n / 10).push(((n % 10) + 48) as char)
    }
}

/// Appends the decimal digits of `n` to `out`.
fn push_decimal(out: &mut String, n: u64)
    ensures
        final(out)@ == old(out)@ + decimal_text(n as int),
    decreases n,
{
    if n >= 10 {
        push_decimal(out, n / 10);
    }
    let d: u8 = (n % 10) as u8;
    let c: char = (48u8 + d) as char;
    proof {
        assert(c == ((n % 10) + 48) as char);
    }
    string_push(out, c);
    proof {
        if n >= 10 {
            assert(decimal_text(n as int) == decimal_text((n / 10) as int).push(((n % 10) + 48) as char));
        } else {
            assert(decimal_text(n as int) == seq![((n % 10) + 48) as char]);
        }
        assert(final(out)@ =~= old(out)@ + decimal_text(n as int));
    }
}

/// Decimal text of `n` (with a leading `-` when negative).
pub fn int_text(n: i64) -> (r: String)
    ensures
        r@ == decimal_text(n as int),
{
    let mut out = String::new();
    if n < 0 {
        string_push(&mut out, '-');
        let m: u64 = (-(n as i128)) as u64;
        push_decimal(&mut out, m);
        assert(out@ =~= seq!['-'] + decimal_text(-(n as int)));
    } else {
        push_decimal(&mut out, n as u64);
        assert(out@ =~= decimal_text(n as int));
    }
    out
}

fn text(s: &str) -> (r: String)
    ensures
        r@ == s@,
{
    s.to_owned()
}

/// The search-result index of a hint's element, refused beyond `i32::MAX`.
pub fn invoke_element_index(element_id: u64) -> (r: Result<i32, UiaError>)
    ensures
        element_id <= i32::MAX ==> r == Ok::<i32, UiaError>(element_id as i32),
        element_id > i32::MAX ==> (r matches Err(UiaError::Operation(m)) && m@ == "element_id out of range"@),
{
    if element_id > i32::MAX as u64 {
        return Err(UiaError::Operation(text("element_id out of range")));
    }
    Ok(element_id as i32)
}

/// The message of an out-of-range invoke index.
pub open spec fn index_error_text(idx: int, len: int) -> Seq<char> {
    "invoke index "@ + decimal_text(idx) + " out of bounds (len="@ + decimal_text(len) + ")"@
}

/// `idx` must index a search result of `len` elements.
pub fn bounds_check(idx: i32, len: i32) -> (r: Result<(), UiaError>)
    ensures
        0 <= idx < len ==> r is Ok,
        !(0 <= idx < len) ==> (r matches Err(UiaError::Operation(m)) && m@ == index_error_text(idx as int, len as int)),
{
    if idx < 0 || idx >= len {
        let mut m = text("invoke index ");
        m.append(int_text(idx as i64).as_str());
        m.append(" out of bounds (len=");
        m.append(int_text(len as i64).as_str());
        m.append(")");
        return Err(UiaError::Operation(m));
    }
    Ok(())
}

/// The message of an out-of-range child index.
pub open spec fn child_index_error_text(ci: int, len: int) -> Seq<char> {
    "uia_child_index "@ + decimal_text(ci) + " out of bounds (children len="@ + decimal_text(len) + ")"@
}

/// A child index must lie below the number of children, compared as `i32` (an index past
/// `i32::MAX` wraps negative and passes the comparison).
pub fn child_index_check(ci: u32, len: i32) -> (r: Result<(), UiaError>)
    ensures
        (ci as i32) < len ==> r is Ok,
        (ci as i32) >= len ==> (r matches Err(UiaError::Operation(m)) && m@ == child_index_error_text(ci as int, len as int)),
{
    let as_i32 = ci as i32;
    if as_i32 >= len {
        let mut m = text("uia_child_index ");
        m.append(int_text(ci as i64).as_str());
        m.append(" out of bounds (children len=");
        m.append(int_text(len as i64).as_str());
        m.append(")");
        return Err(UiaError::Operation(m));
    }
    Ok(())
}

/// How a hint's element is found again at invoke time.
#[derive(Clone, Copy, Debug, PartialEq, Eq, Structural)]
pub enum ResolvePath {
    /// Descendant search from this native child window.
    ScopedWindow(usize),
    /// Descendant search from this direct child of the session root.
    ChildSubtree(u32),
    /// Descendant search from the session root.
    RootDescendants,
}

/// How a hint's element is found again: its own window first, then its child subtree,
/// else the session root.
pub fn resolve_path(raw: &RawHint) -> (r: ResolvePath)
    ensures
        r == (match raw.uia_invoke_hwnd {
            Some(h) => ResolvePath::ScopedWindow(h),
            None => match raw.uia_child_index {
                Some(ci) => ResolvePath::ChildSubtree(ci),
                None => ResolvePath::RootDescendants,
            },
        }),
{
    match raw.uia_invoke_hwnd {
        Some(h) => ResolvePath::ScopedWindow(h),
        None => match raw.uia_child_index {
            Some(ci) => ResolvePath::ChildSubtree(ci),
            None => ResolvePath::RootDescendants,
        },
    }
}

/// Which route an invoke takes for the backend that found the hint.
#[derive(Clone, Copy, Debug, PartialEq, Eq, Structural)]
pub enum InvokeRoute {
    /// Re-locate the element and run [`InvokeDispatch`].
    Patterns,
    /// Walk the MSAA tree to the hint's index and do its default action.
    MsaaDefaultAction,
    /// Click the hint's point.
    PhysicalClick,
}

/// The invoke route of a backend.
pub fn invoke_route(backend: Backend) -> (r: InvokeRoute)
    ensures
        r == (match backend {
            Backend::Uia => InvokeRoute::Patterns,
            Backend::Msaa => InvokeRoute::MsaaDefaultAction,
            Backend::RawHwnd => InvokeRoute::PhysicalClick,
        }),
{
    match backend {
        Backend::Uia => InvokeRoute::Patterns,
        Backend::Msaa => InvokeRoute::MsaaDefaultAction,
        Backend::RawHwnd => InvokeRoute::PhysicalClick,
    }
}

/// One node of the MSAA invoke walk: nodes that enumeration would list are counted in walk
/// order; the one numbered `target` is acted on. Returns whether to act on this node.
pub fn msaa_invoke_visit(role: i32, state: i32, loc: Option<Rect>, opts: &EnumOptions, target: u64, counted: &mut u64) -> (act: bool)
    requires
        loc matches Some(b) ==> ((role == ROLE_STATICTEXT || role == ROLE_GRAPHIC) && b.w >= 2
            && b.h >= 2 ==> b.w * b.h <= i32::MAX),
        *old(counted) < u64::MAX,
    ensures
        ({
            let listed = loc matches Some(b) && b.w >= 1 && b.h >= 1
                && take_node_spec(role, state, opts.include_offscreen, b.w, b.h);
            &&& act == (listed && *old(counted) == target)
            &&& *final(counted) == if listed && *old(counted) != target { (*old(counted) + 1) as u64 } else { *old(counted) }
        }),
{
    match loc {
        Some(b) => {
            if b.w >= 1 && b.h >= 1 && should_take_node(role, state, opts, b.w, b.h) {
                if *counted == target {
                    return true;
                }
                *counted = *counted + 1;
            }
            false
        },
        None => false,
    }
}

/// What the MSAA walk reads of one node.
#[derive(Clone, Copy, Debug, PartialEq, Eq, Structural)]
pub struct MsaaNode {
    pub role: i32,
    pub state: i32,
    pub loc: Option<Rect>,
}

/// The node is listed by MSAA enumeration (and counted by the invoke walk).
pub open spec fn msaa_listed(n: MsaaNode, include_offscreen: bool) -> bool {
    n.loc matches Some(b) && b.w >= 1 && b.h >= 1 && take_node_spec(n.role, n.state, include_offscreen, b.w, b.h)
}

/// How many of the first `k` nodes (in walk order) are listed.
pub open spec fn count_listed(nodes: Seq<MsaaNode>, include_offscreen: bool, k: int) -> int
    decreases k,
{
    if k <= 0 {
        0
    } else {
        count_listed(nodes, include_offscreen, k - 1) + if msaa_listed(nodes[k - 1], include_offscreen) { 1int } else { 0int }
    }
}

/// The invoke walk after the first `k` nodes: how many listed nodes it counted, and the
/// node it acted on, if any (each step as [`msaa_invoke_visit`] does).
pub open spec fn invoke_walk_state(nodes: Seq<MsaaNode>, include_offscreen: bool, target: int, k: int) -> (int, Option<int>)
    decreases k,
{
    if k <= 0 {
        (0, None)
    } else {
        let (counted, acted) = invoke_walk_state(nodes, include_offscreen, target, k - 1);
        if acted is Some {
            (counted, acted)
        } else if msaa_listed(nodes[k - 1], include_offscreen) {
            if counted == target { (counted, Some(k - 1)) } else { (counted + 1, None) }
        } else {
            (counted, None)
        }
    }
}

proof fn lemma_count_listed_mono(nodes: Seq<MsaaNode>, inc: bool, a: int, b: int)
    requires
        0 <= a <= b,
    ensures
        count_listed(nodes, inc, a) <= count_listed(nodes, inc, b),
    decreases b - a,
{
    if a < b {
        lemma_count_listed_mono(nodes, inc, a, b - 1);
    }
}

proof fn lemma_walk_before(nodes: Seq<MsaaNode>, inc: bool, target: int, j: int, k: int)
    requires
        0 <= k <= j < nodes.len(),
        count_listed(nodes, inc, j) == target,
    ensures
        invoke_walk_state(nodes, inc, target, k) == (count_listed(nodes, inc, k), None::<int>),
    decreases k,
{
    if k > 0 {
        lemma_walk_before(nodes, inc, target, j, k - 1);
        if msaa_listed(nodes[k - 1], inc) {
            lemma_count_listed_mono(nodes, inc, k, j);
        }
    }
}

/// The MSAA invoke walk acts on exactly the node that enumeration numbered `target`:
/// both visit the nodes in the same order and count the same listed nodes.
pub proof fn lemma_msaa_invoke_finds_enumerated(nodes: Seq<MsaaNode>, include_offscreen: bool, target: u64, j: int)
    requires
        0 <= j < nodes.len(),
        msaa_listed(nodes[j], include_offscreen),
        count_listed(nodes, include_offscreen, j) == target,
    ensures
        crate::fallback::msaa_node_spec(nodes[j].role, nodes[j].state, nodes[j].loc, include_offscreen, target)
            matches Some(h) && h.element_id == target,
        invoke_walk_state(nodes, include_offscreen, target as int, j + 1).1 == Some(j),
{
    lemma_walk_before(nodes, include_offscreen, target as int, j, j);
}

/// `s` without trailing NUL characters.
pub open spec fn trim_trailing_nul(s: Seq<char>) -> Seq<char>
    decreases s.len(),
{
    if s.len() > 0 && s.last() == '\0' {
        trim_trailing_nul(s.drop_last())
    } else {
        s
    }
}

/// Explorer shell windows select items without activating them: a selection hint there is
/// clicked first. `class_name` is the session window's class, when it could be read.
pub open spec fn explorer_click_first_spec(kind: ElementKind, class_name: Option<Seq<char>>) -> bool {
    kind == ElementKind::Select && match class_name {
        Some(c) => {
            let l = ascii_lower(trim_trailing_nul(c));
            l == ascii_lower("CabinetWClass"@) || l == ascii_lower("ExploreWClass"@)
        },
        None => false,
    }
}

/// Whether a selection hint in an Explorer shell window is clicked before patterns are tried.
pub fn explorer_shell_selection_prefers_physical_click(kind: ElementKind, class_name: &Option<String>) -> (r: bool)
    ensures
        r == explorer_click_first_spec(kind, match class_name { Some(c) => Some(c@), None => None }),
{
    if kind != ElementKind::Select {
        return false;
    }
    match class_name {
        None => false,
        Some(c) => {
            let s = c.as_str();
            let mut n = s.unicode_len();
            proof {
                assert(s@.take(n as int) =~= s@);
            }
            while n > 0 && s.get_char(n - 1) == '\0'
                invariant
                    n <= s@.len(),
                    trim_trailing_nul(s@) == trim_trailing_nul(s@.take(n as int)),
                decreases n,
            {
                proof {
                    assert(s@.take(n as int).drop_last() =~= s@.take(n as int - 1));
                }
                n -= 1;
            }
            proof {
                if n > 0 {
                    assert(s@.take(n as int).last() == s@[n as int - 1]);
                }
            }
            let t = s.substring_char(0, n);
            proof {
                assert(t@ =~= s@.take(n as int));
                if n > 0 {
                    assert(s@.take(n as int).last() != '\0');
                }
            }
            eq_ignore_ascii_case(t, "CabinetWClass") || eq_ignore_ascii_case(t, "ExploreWClass")
        },
    }
}

/// `ExpandCollapseState` of an element.
#[derive(Clone, Copy, Debug, PartialEq, Eq, Structural)]
pub enum ExpandState {
    Collapsed,
    Expanded,
    PartiallyExpanded,
    LeafNode,
}

/// How an invoke succeeded.
#[derive(Clone, Copy, Debug, PartialEq, Eq, Structural)]
pub enum InvokeMode {
    SendInputClick,
    InvokePattern,
    Toggle,
    SelectionItem,
    ExpandCollapse,
    LegacyIAccessible,
    SetFocus,
}

/// What the caller does next.
#[derive(Clone, Copy, Debug, PartialEq, Eq, Structural)]
pub enum InvokeAction {
    /// Read the element's control type; report [`InvokeReport::ControlType`].
    ReadControlType,
    /// Physical click at the hint's invoke point.
    Click,
    /// Invoke pattern's `Invoke`.
    TryInvoke,
    /// Toggle pattern's `Toggle`.
    TryToggle,
    /// Selection-item pattern's `Select`.
    TrySelect,
    /// Legacy accessible pattern's default action.
    TryLegacy,
    /// Read the expand/collapse state; report [`InvokeReport::Expand`].
    ReadExpandState,
    Expand,
    Collapse,
    /// Give the element keyboard focus.
    SetFocus,
    /// Re-resolve the element under the hint's invoke point; further actions apply to it.
    ResolveAtPoint,
    /// Done: the invoke succeeded this way.
    Finish(InvokeMode),
    /// Done: every way failed; the last click's error is the result.
    Fail,
}

/// What the caller reports back after an action.
#[derive(Clone, Copy, Debug, PartialEq, Eq, Structural)]
pub enum InvokeReport {
    /// The action succeeded (`true`) or failed.
    Done(bool),
    /// The control type, when it could be read.
    ControlType(Option<i32>),
    /// The expand/collapse state, when the pattern and state could be read.
    Expand(Option<ExpandState>),
}

/// Where the dispatch stands.
#[derive(Clone, Copy, Debug, PartialEq, Eq, Structural)]
pub enum InvokePhase {
    Start,
    AwaitControlType,
    TabClick,
    ExplorerClick,
    /// Kind-first attempt number `n` on the element (`again`: the one under the point).
    Primary(bool, u8),
    /// Generic ladder attempt number `n`.
    Ladder(bool, u8),
    AwaitResolve,
    FinalClick,
    Over,
}

/// The interaction ladder of one invoke.
#[derive(Clone, Copy, Debug, PartialEq, Eq, Structural)]
pub struct InvokeDispatch {
    pub kind: ElementKind,
    /// See [`explorer_shell_selection_prefers_physical_click`].
    pub explorer_click_first: bool,
    pub phase: InvokePhase,
}

/// The first kind-first action for `kind`.
pub open spec fn primary_first(kind: ElementKind) -> InvokeAction {
    match kind {
        ElementKind::Invoke => InvokeAction::TryInvoke,
        ElementKind::Toggle => InvokeAction::TryToggle,
        ElementKind::Select => InvokeAction::TrySelect,
        ElementKind::ExpandCollapse => InvokeAction::ReadExpandState,
        ElementKind::GenericClickable => InvokeAction::TryInvoke,
        ElementKind::Editable => InvokeAction::TryLegacy,
    }
}

/// The mode a successful kind-first attempt `n` means.
pub open spec fn primary_mode(kind: ElementKind, n: u8) -> InvokeMode {
    match kind {
        ElementKind::Invoke => InvokeMode::InvokePattern,
        ElementKind::Toggle => InvokeMode::Toggle,
        ElementKind::Select => InvokeMode::SelectionItem,
        ElementKind::ExpandCollapse => if n == 1 { InvokeMode::SendInputClick } else { InvokeMode::ExpandCollapse },
        ElementKind::GenericClickable => if n == 0 {
            InvokeMode::InvokePattern
        } else if n == 1 {
            InvokeMode::LegacyIAccessible
        } else {
            InvokeMode::SendInputClick
        },
        ElementKind::Editable => if n == 0 {
            InvokeMode::LegacyIAccessible
        } else if n == 1 {
            InvokeMode::SendInputClick
        } else {
            InvokeMode::SetFocus
        },
    }
}

/// The action after an expand/collapse state was read.
pub open spec fn expand_action(s: ExpandState) -> InvokeAction {
    match s {
        ExpandState::LeafNode => InvokeAction::Click,
        ExpandState::Collapsed | ExpandState::PartiallyExpanded => InvokeAction::Expand,
        ExpandState::Expanded => InvokeAction::Collapse,
    }
}

/// The step after kind-first attempt `n` on element `again` reported `rep`.
pub open spec fn primary_step(kind: ElementKind, again: bool, n: u8, rep: InvokeReport) -> (InvokePhase, InvokeAction) {
    let ladder = (InvokePhase::Ladder(again, 0), InvokeAction::TryInvoke);
    match kind {
        ElementKind::ExpandCollapse => if n == 0 {
            match rep {
                InvokeReport::Expand(Some(s)) => if s == ExpandState::LeafNode {
                    (InvokePhase::Primary(again, 1), InvokeAction::Click)
                } else {
                    (InvokePhase::Primary(again, 2), expand_action(s))
                },
                _ => ladder,
            }
        } else if rep == InvokeReport::Done(true) {
            (InvokePhase::Over, InvokeAction::Finish(primary_mode(kind, n)))
        } else {
            ladder
        },
        ElementKind::GenericClickable => if rep == InvokeReport::Done(true) {
            (InvokePhase::Over, InvokeAction::Finish(primary_mode(kind, n)))
        } else if n == 0 {
            (InvokePhase::Primary(again, 1), InvokeAction::TryLegacy)
        } else if n == 1 {
            (InvokePhase::Primary(again, 2), InvokeAction::Click)
        } else {
            ladder
        },
        ElementKind::Editable => if rep == InvokeReport::Done(true) {
            (InvokePhase::Over, InvokeAction::Finish(primary_mode(kind, n)))
        } else if n == 0 {
            (InvokePhase::Primary(again, 1), InvokeAction::Click)
        } else if n == 1 {
            (InvokePhase::Primary(again, 2), InvokeAction::SetFocus)
        } else {
            ladder
        },
        _ => if rep == InvokeReport::Done(true) {
            (InvokePhase::Over, InvokeAction::Finish(primary_mode(kind, n)))
        } else {
            ladder
        },
    }
}

/// The step once the generic ladder is exhausted on element `again`.
pub open spec fn exhausted_step(again: bool) -> (InvokePhase, InvokeAction) {
    if again {
        (InvokePhase::FinalClick, InvokeAction::Click)
    } else {
        (InvokePhase::AwaitResolve, InvokeAction::ResolveAtPoint)
    }
}

/// The step after generic-ladder attempt `n` on element `again` reported `rep`:
/// Invoke, then legacy default action, then the kind's own pattern.
pub open spec fn ladder_step(kind: ElementKind, again: bool, n: u8, rep: InvokeReport) -> (InvokePhase, InvokeAction) {
    if n == 0 {
        if rep == InvokeReport::Done(true) {
            (InvokePhase::Over, InvokeAction::Finish(InvokeMode::InvokePattern))
        } else {
            (InvokePhase::Ladder(again, 1), InvokeAction::TryLegacy)
        }
    } else if n == 1 {
        if rep == InvokeReport::Done(true) {
            (InvokePhase::Over, InvokeAction::Finish(InvokeMode::LegacyIAccessible))
        } else {
            match kind {
                ElementKind::Toggle => (InvokePhase::Ladder(again, 2), InvokeAction::TryToggle),
                ElementKind::Select => (InvokePhase::Ladder(again, 2), InvokeAction::TrySelect),
                ElementKind::ExpandCollapse => (InvokePhase::Ladder(again, 3), InvokeAction::ReadExpandState),
                _ => exhausted_step(again),
            }
        }
    } else if n == 2 {
        if rep == InvokeReport::Done(true) {
            (InvokePhase::Over, InvokeAction::Finish(
                if kind == ElementKind::Toggle {
                    InvokeMode::Toggle
                } else if kind == ElementKind::Select {
                    InvokeMode::SelectionItem
                } else {
                    InvokeMode::ExpandCollapse
                },
            ))
        } else {
            exhausted_step(again)
        }
    } else {
        match rep {
            InvokeReport::Expand(Some(s)) => if s == ExpandState::LeafNode {
                exhausted_step(again)
            } else {
                (InvokePhase::Ladder(again, 2), expand_action(s))
            },
            _ => exhausted_step(again),
        }
    }
}

/// The dispatch's next phase and action after `rep` (ignored in [`InvokePhase::Start`]).
pub open spec fn dispatch_step(d: InvokeDispatch, rep: InvokeReport) -> (InvokePhase, InvokeAction) {
    let to_primary = (InvokePhase::Primary(false, 0), primary_first(d.kind));
    let after_tab = if d.explorer_click_first {
        (InvokePhase::ExplorerClick, InvokeAction::Click)
    } else {
        to_primary
    };
    match d.phase {
        InvokePhase::Start => (InvokePhase::AwaitControlType, InvokeAction::ReadControlType),
        InvokePhase::AwaitControlType => if rep == InvokeReport::ControlType(Some(CONTROL_TAB_ITEM)) {
            (InvokePhase::TabClick, InvokeAction::Click)
        } else {
            after_tab
        },
        InvokePhase::TabClick => if rep == InvokeReport::Done(true) {
            (InvokePhase::Over, InvokeAction::Finish(InvokeMode::SendInputClick))
        } else {
            after_tab
        },
        InvokePhase::ExplorerClick => if rep == InvokeReport::Done(true) {
            (InvokePhase::Over, InvokeAction::Finish(InvokeMode::SendInputClick))
        } else {
            to_primary
        },
        InvokePhase::Primary(again, n) => primary_step(d.kind, again, n, rep),
        InvokePhase::Ladder(again, n) => ladder_step(d.kind, again, n, rep),
        InvokePhase::AwaitResolve => if rep == InvokeReport::Done(true) {
            (InvokePhase::Primary(true, 0), primary_first(d.kind))
        } else {
            (InvokePhase::FinalClick, InvokeAction::Click)
        },
        InvokePhase::FinalClick => if rep == InvokeReport::Done(true) {
            (InvokePhase::Over, InvokeAction::Finish(InvokeMode::SendInputClick))
        } else {
            (InvokePhase::Over, InvokeAction::Fail)
        },
        InvokePhase::Over => (InvokePhase::Over, InvokeAction::Fail),
    }
}

/// Steps left at most before the dispatch is over.
pub open spec fn phase_rank(p: InvokePhase) -> int {
    match p {
        InvokePhase::Start => 30,
        InvokePhase::AwaitControlType => 29,
        InvokePhase::TabClick => 28,
        InvokePhase::ExplorerClick => 27,
        InvokePhase::Primary(again, n) => (if again { 6int } else { 20int }) + 3 - n as int,
        InvokePhase::Ladder(again, n) => (if again { 2int } else { 16int }) + (if n == 0 { 4int } else if n == 1 { 3int } else if n == 3 { 2int } else { 1int }),
        InvokePhase::AwaitResolve => 10,
        InvokePhase::FinalClick => 1,
        InvokePhase::Over => 0,
    }
}

/// A phase the dispatch can be in.
pub open spec fn phase_valid(p: InvokePhase) -> bool {
    match p {
        InvokePhase::Primary(_, n) => n <= 2,
        InvokePhase::Ladder(_, n) => n <= 3,
        _ => true,
    }
}

impl InvokeDispatch {
    /// A dispatch for a hint of `kind`.
    pub fn new(kind: ElementKind, explorer_click_first: bool) -> (r: Self)
        ensures
            r.kind == kind,
            r.explorer_click_first == explorer_click_first,
            r.phase == InvokePhase::Start,
    {
        InvokeDispatch { kind, explorer_click_first, phase: InvokePhase::Start }
    }

    /// Advances the dispatch with the report of the last action and returns the next one.
    pub fn step(&mut self, rep: InvokeReport) -> (a: InvokeAction)
        requires
            phase_valid(old(self).phase),
        ensures
            (final(self).phase, a) == dispatch_step(*old(self), rep),
            final(self).kind == old(self).kind,
            final(self).explorer_click_first == old(self).explorer_click_first,
            phase_valid(final(self).phase),
    {
        let to_primary_action = self.primary_first_action();
        let (phase, action) = match self.phase {
            InvokePhase::Start => (InvokePhase::AwaitControlType, InvokeAction::ReadControlType),
            InvokePhase::AwaitControlType => {
                if rep == InvokeReport::ControlType(Some(CONTROL_TAB_ITEM)) {
                    (InvokePhase::TabClick, InvokeAction::Click)
                } else if self.explorer_click_first {
                    (InvokePhase::ExplorerClick, InvokeAction::Click)
                } else {
                    (InvokePhase::Primary(false, 0), to_primary_action)
                }
            },
            InvokePhase::TabClick => {
                if rep == InvokeReport::Done(true) {
                    (InvokePhase::Over, InvokeAction::Finish(InvokeMode::SendInputClick))
                } else if self.explorer_click_first {
                    (InvokePhase::ExplorerClick, InvokeAction::Click)
                } else {
                    (InvokePhase::Primary(false, 0), to_primary_action)
                }
            },
            InvokePhase::ExplorerClick => {
                if rep == InvokeReport::Done(true) {
                    (InvokePhase::Over, InvokeAction::Finish(InvokeMode::SendInputClick))
                } else {
                    (InvokePhase::Primary(false, 0), to_primary_action)
                }
            },
            InvokePhase::Primary(again, n) => Self::primary_next(self.kind, again, n, rep),
            InvokePhase::Ladder(again, n) => Self::ladder_next(self.kind, again, n, rep),
            InvokePhase::AwaitResolve => {
                if rep == InvokeReport::Done(true) {
                    (InvokePhase::Primary(true, 0), to_primary_action)
                } else {
                    (InvokePhase::FinalClick, InvokeAction::Click)
                }
            },
            InvokePhase::FinalClick => {
                if rep == InvokeReport::Done(true) {
                    (InvokePhase::Over, InvokeAction::Finish(InvokeMode::SendInputClick))
                } else {
                    (InvokePhase::Over, InvokeAction::Fail)
                }
            },
            InvokePhase::Over => (InvokePhase::Over, InvokeAction::Fail),
        };
        self.phase = phase;
        action
    }

    fn primary_first_action(&self) -> (a: InvokeAction)
        ensures
            a == primary_first(self.kind),
    {
        match self.kind {
            ElementKind::Invoke => InvokeAction::TryInvoke,
            ElementKind::Toggle => InvokeAction::TryToggle,
            ElementKind::Select => InvokeAction::TrySelect,
            ElementKind::ExpandCollapse => InvokeAction::ReadExpandState,
            ElementKind::GenericClickable => InvokeAction::TryInvoke,
            ElementKind::Editable => InvokeAction::TryLegacy,
        }
    }

    fn expand_next(s: ExpandState) -> (a: InvokeAction)
        ensures
            a == expand_action(s),
    {
        match s {
            ExpandState::LeafNode => InvokeAction::Click,
            ExpandState::Collapsed | ExpandState::PartiallyExpanded => InvokeAction::Expand,
            ExpandState::Expanded => InvokeAction::Collapse,
        }
    }

    fn primary_next(kind: ElementKind, again: bool, n: u8, rep: InvokeReport) -> (r: (InvokePhase, InvokeAction))
        requires
            n <= 2,
        ensures
            r == primary_step(kind, again, n, rep),
            phase_valid(r.0),
    {
        let ok = rep == InvokeReport::Done(true);
        let ladder = (InvokePhase::Ladder(again, 0), InvokeAction::TryInvoke);
        match kind {
            ElementKind::ExpandCollapse => {
                if n == 0 {
                    match rep {
                        InvokeReport::Expand(Some(s)) => {
                            if s == ExpandState::LeafNode {
                                (InvokePhase::Primary(again, 1), InvokeAction::Click)
                            } else {
                                (InvokePhase::Primary(again, 2), Self::expand_next(s))
                            }
                        },
                        _ => ladder,
                    }
                } else if ok {
                    let mode = if n == 1 { InvokeMode::SendInputClick } else { InvokeMode::ExpandCollapse };
                    (InvokePhase::Over, InvokeAction::Finish(mode))
                } else {
                    ladder
                }
            },
            ElementKind::GenericClickable => {
                if ok {
                    let mode = if n == 0 {
                        InvokeMode::InvokePattern
                    } else if n == 1 {
                        InvokeMode::LegacyIAccessible
                    } else {
                        InvokeMode::SendInputClick
                    };
                    (InvokePhase::Over, InvokeAction::Finish(mode))
                } else if n == 0 {
                    (InvokePhase::Primary(again, 1), InvokeAction::TryLegacy)
                } else if n == 1 {
                    (InvokePhase::Primary(again, 2), InvokeAction::Click)
                } else {
                    ladder
                }
            },
            ElementKind::Editable => {
                if ok {
                    let mode = if n == 0 {
                        InvokeMode::LegacyIAccessible
                    } else if n == 1 {
                        InvokeMode::SendInputClick
                    } else {
                        InvokeMode::SetFocus
                    };
                    (InvokePhase::Over, InvokeAction::Finish(mode))
                } else if n == 0 {
                    (InvokePhase::Primary(again, 1), InvokeAction::Click)
                } else if n == 1 {
                    (InvokePhase::Primary(again, 2), InvokeAction::SetFocus)
                } else {
                    ladder
                }
            },
            ElementKind::Invoke => {
                if ok { (InvokePhase::Over, InvokeAction::Finish(InvokeMode::InvokePattern)) } else { ladder }
            },
            ElementKind::Toggle => {
                if ok { (InvokePhase::Over, InvokeAction::Finish(InvokeMode::Toggle)) } else { ladder }
            },
            ElementKind::Select => {
                if ok { (InvokePhase::Over, InvokeAction::Finish(InvokeMode::SelectionItem)) } else { ladder }
            },
        }
    }

    fn exhausted(again: bool) -> (r: (InvokePhase, InvokeAction))
        ensures
            r == exhausted_step(again),
    {
        if again {
            (InvokePhase::FinalClick, InvokeAction::Click)
        } else {
            (InvokePhase::AwaitResolve, InvokeAction::ResolveAtPoint)
        }
    }

    fn ladder_next(kind: ElementKind, again: bool, n: u8, rep: InvokeReport) -> (r: (InvokePhase, InvokeAction))
        requires
            n <= 3,
        ensures
            r == ladder_step(kind, again, n, rep),
            phase_valid(r.0),
    {
        let ok = rep == InvokeReport::Done(true);
        if n == 0 {
            if ok {
                (InvokePhase::Over, InvokeAction::Finish(InvokeMode::InvokePattern))
            } else {
                (InvokePhase::Ladder(again, 1), InvokeAction::TryLegacy)
            }
        } else if n == 1 {
            if ok {
                (InvokePhase::Over, InvokeAction::Finish(InvokeMode::LegacyIAccessible))
            } else {
                match kind {
                    ElementKind::Toggle => (InvokePhase::Ladder(again, 2), InvokeAction::TryToggle),
                    ElementKind::Select => (InvokePhase::Ladder(again, 2), InvokeAction::TrySelect),
                    ElementKind::ExpandCollapse => (InvokePhase::Ladder(again, 3), InvokeAction::ReadExpandState),
                    _ => Self::exhausted(again),
                }
            }
        } else if n == 2 {
            if ok {
                let mode = if kind == ElementKind::Toggle {
                    InvokeMode::Toggle
                } else if kind == ElementKind::Select {
                    InvokeMode::SelectionItem
                } else {
                    InvokeMode::ExpandCollapse
                };
                (InvokePhase::Over, InvokeAction::Finish(mode))
            } else {
                Self::exhausted(again)
            }
        } else {
            match rep {
                InvokeReport::Expand(Some(s)) => {
                    if s == ExpandState::LeafNode {
                        Self::exhausted(again)
                    } else {
                        (InvokePhase::Ladder(again, 2), Self::expand_next(s))
                    }
                },
                _ => Self::exhausted(again),
            }
        }
    }
}

/// Every step of a dispatch that is not over brings it closer to the end: a dispatch
/// finishes or fails within thirty steps, whatever the interactions report.
pub proof fn lemma_dispatch_terminates(d: InvokeDispatch, rep: InvokeReport)
    requires
        phase_valid(d.phase),
        d.phase != InvokePhase::Over,
    ensures
        phase_rank(dispatch_step(d, rep).0) < phase_rank(d.phase),
        phase_rank(dispatch_step(d, rep).0) >= 0,
        dispatch_step(d, rep).0 == InvokePhase::Over <==> (dispatch_step(d, rep).1 is Finish || dispatch_step(d, rep).1 is Fail),
{
}

/// A successful physical click ends the dispatch: the click is never repeated after it worked.
pub proof fn lemma_click_success_finishes(d: InvokeDispatch)
    requires
        phase_valid(d.phase),
        d.phase == InvokePhase::TabClick || d.phase == InvokePhase::ExplorerClick
            || d.phase == InvokePhase::FinalClick,
    ensures
        dispatch_step(d, InvokeReport::Done(true)).1 == InvokeAction::Finish(InvokeMode::SendInputClick),
{
}


/// Once an expand/collapse element's state has been read, the next action flips it: an
/// expanded element is collapsed, a collapsed or partly expanded one is expanded, and a
/// leaf is neither expanded nor collapsed (the kind-first attempt clicks it instead).
pub proof fn lemma_expand_state_flips(d: InvokeDispatch, s: ExpandState)
    requires
        (d.kind == ElementKind::ExpandCollapse && d.phase matches InvokePhase::Primary(_, 0))
            || d.phase matches InvokePhase::Ladder(_, 3),
    ensures
        s == ExpandState::Expanded ==> dispatch_step(d, InvokeReport::Expand(Some(s))).1 == InvokeAction::Collapse,
        s == ExpandState::Collapsed || s == ExpandState::PartiallyExpanded
            ==> dispatch_step(d, InvokeReport::Expand(Some(s))).1 == InvokeAction::Expand,
        s == ExpandState::LeafNode ==> dispatch_step(d, InvokeReport::Expand(Some(s))).1 != InvokeAction::Expand
            && dispatch_step(d, InvokeReport::Expand(Some(s))).1 != InvokeAction::Collapse,
        s == ExpandState::LeafNode && d.phase is Primary ==> dispatch_step(d, InvokeReport::Expand(Some(s))).1 == InvokeAction::Click,
{
}

} // verus!
