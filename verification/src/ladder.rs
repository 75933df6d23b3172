//! The enumeration ladder: which backend runs next and what the enumeration returns.
//!
//! With [`FallbackPolicy::Auto`] the UI Automation-first ladder tries UI Automation, then
//! MSAA when it found nothing, then child windows; the Win32-first ladder runs child
//! windows, then MSAA, then UI Automation, and for Explorer may enrich a thin child-window
//! result with a bounded UI Automation pass. The caller runs each stage.

use vstd::prelude::*;
use crate::collect::{merge_in_reading_order, merge_sorted_spec, pos_sorted};
use crate::hint::RawHint;
use crate::strategy::{ResolvedLadder, WindowProbe, apply_exe_profile, eq_ignore_ascii_case,
    exe_profile_spec, resolve_enumeration_behavior, resolve_spec};
use crate::text::ascii_lower;
use crate::uia_options::{EnumOptions, FallbackPolicy};

verus! {

/// One enumeration backend run.
#[derive(Clone, Copy, Debug, PartialEq, Eq, Structural)]
pub enum EnumStage {
    /// UI Automation search.
    Uia,
    /// MSAA walk.
    Msaa,
    /// Child-window walk.
    Hwnd,
    /// Bounded UI Automation pass merged into a thin child-window result (Explorer).
    ExplorerEnrich,
}

/// What the ladder does after a stage.
#[derive(Clone, Copy, Debug, PartialEq, Eq, Structural)]
pub enum LadderStep {
    /// Run this stage next.
    Run(EnumStage),
    /// Return the UI Automation result as it is (hints, rejects, timings, counters).
    ReturnUia,
    /// Return the hints of this stage; keep the UI Automation rejects when the flag is
    /// set, else none.
    ReturnHints(EnumStage, bool),
    /// Return the child-window hints merged with the enrich pass (see
    /// [`merge_enriched_hints`]) and the enrich pass's rejects and timings.
    ReturnEnriched,
}

/// The options a window is enumerated with: the built-in tuning of its executable, and the
/// ladder and parallelism resolved from the configured mode and the probe.
pub fn effective_enum_options(opts: &EnumOptions, probe: &WindowProbe) -> (r: (EnumOptions, ResolvedLadder))
    ensures
        r.0 == (EnumOptions {
            disable_uia_parallel: resolve_spec(opts.strategy_mode, *probe).1,
            ..exe_profile_spec(ascii_lower(probe.exe_basename@), *opts)
        }),
        r.1 == resolve_spec(opts.strategy_mode, *probe).0,
{
    let mut eff = *opts;
    apply_exe_profile(probe.exe_basename.as_str(), &mut eff);
    let (ladder, disable_parallel) = resolve_enumeration_behavior(opts.strategy_mode, probe);
    eff.disable_uia_parallel = disable_parallel;
    (eff, ladder)
}

/// The first stage of the ladder.
pub open spec fn ladder_start_spec(policy: FallbackPolicy, ladder: ResolvedLadder) -> EnumStage {
    match policy {
        FallbackPolicy::MsaaOnly => EnumStage::Msaa,
        FallbackPolicy::UiaOnly => EnumStage::Uia,
        FallbackPolicy::Auto => match ladder {
            ResolvedLadder::UiaFirst => EnumStage::Uia,
            ResolvedLadder::Win32First => EnumStage::Hwnd,
        },
    }
}

/// The first stage of the ladder.
pub fn ladder_start(policy: FallbackPolicy, ladder: ResolvedLadder) -> (r: EnumStage)
    ensures
        r == ladder_start_spec(policy, ladder),
{
    match policy {
        FallbackPolicy::MsaaOnly => EnumStage::Msaa,
        FallbackPolicy::UiaOnly => EnumStage::Uia,
        FallbackPolicy::Auto => match ladder {
            ResolvedLadder::UiaFirst => EnumStage::Uia,
            ResolvedLadder::Win32First => EnumStage::Hwnd,
        },
    }
}

/// The step after `done` found `found` hints (`enrich_due`: see [`explorer_enrich_due`]).
pub open spec fn ladder_next_spec(policy: FallbackPolicy, ladder: ResolvedLadder, done: EnumStage, found: usize, enrich_due: bool) -> LadderStep {
    match policy {
        FallbackPolicy::MsaaOnly => LadderStep::ReturnHints(EnumStage::Msaa, false),
        FallbackPolicy::UiaOnly => LadderStep::ReturnUia,
        FallbackPolicy::Auto => match ladder {
            ResolvedLadder::UiaFirst => match done {
                EnumStage::Uia => if found > 0 { LadderStep::ReturnUia } else { LadderStep::Run(EnumStage::Msaa) },
                EnumStage::Msaa => if found > 0 {
                    LadderStep::ReturnHints(EnumStage::Msaa, true)
                } else {
                    LadderStep::Run(EnumStage::Hwnd)
                },
                _ => LadderStep::ReturnHints(EnumStage::Hwnd, true),
            },
            ResolvedLadder::Win32First => match done {
                EnumStage::Hwnd => if found > 0 {
                    if enrich_due { LadderStep::Run(EnumStage::ExplorerEnrich) } else { LadderStep::ReturnHints(EnumStage::Hwnd, false) }
                } else {
                    LadderStep::Run(EnumStage::Msaa)
                },
                EnumStage::ExplorerEnrich => LadderStep::ReturnEnriched,
                EnumStage::Msaa => if found > 0 {
                    LadderStep::ReturnHints(EnumStage::Msaa, false)
                } else {
                    LadderStep::Run(EnumStage::Uia)
                },
                EnumStage::Uia => LadderStep::ReturnUia,
            },
        },
    }
}

/// What the ladder does after stage `done` found `found` hints.
pub fn ladder_next(policy: FallbackPolicy, ladder: ResolvedLadder, done: EnumStage, found: usize, enrich_due: bool) -> (r: LadderStep)
    ensures
        r == ladder_next_spec(policy, ladder, done, found, enrich_due),
{
    match policy {
        FallbackPolicy::MsaaOnly => LadderStep::ReturnHints(EnumStage::Msaa, false),
        FallbackPolicy::UiaOnly => LadderStep::ReturnUia,
        FallbackPolicy::Auto => match ladder {
            ResolvedLadder::UiaFirst => match done {
                EnumStage::Uia => if found > 0 { LadderStep::ReturnUia } else { LadderStep::Run(EnumStage::Msaa) },
                EnumStage::Msaa => if found > 0 {
                    LadderStep::ReturnHints(EnumStage::Msaa, true)
                } else {
                    LadderStep::Run(EnumStage::Hwnd)
                },
                _ => LadderStep::ReturnHints(EnumStage::Hwnd, true),
            },
            ResolvedLadder::Win32First => match done {
                EnumStage::Hwnd => if found > 0 {
                    if enrich_due { LadderStep::Run(EnumStage::ExplorerEnrich) } else { LadderStep::ReturnHints(EnumStage::Hwnd, false) }
                } else {
                    LadderStep::Run(EnumStage::Msaa)
                },
                EnumStage::ExplorerEnrich => LadderStep::ReturnEnriched,
                EnumStage::Msaa => if found > 0 {
                    LadderStep::ReturnHints(EnumStage::Msaa, false)
                } else {
                    LadderStep::Run(EnumStage::Uia)
                },
                EnumStage::Uia => LadderStep::ReturnUia,
            },
        },
    }
}

/// A thin Explorer child-window result gets a UI Automation enrich pass.
pub open spec fn enrich_due_spec(opts: EnumOptions, exe: Seq<char>, found: usize) -> bool {
    opts.explorer_enrich_if_below > 0 && ascii_lower(exe) == "explorer.exe"@
        && found < opts.explorer_enrich_if_below
}

/// Whether a child-window result of `found` hints in `exe` is enriched.
pub fn explorer_enrich_due(opts: &EnumOptions, exe_basename: &str, found: usize) -> (r: bool)
    ensures
        r == enrich_due_spec(*opts, exe_basename@, found),
{
    let is_explorer = eq_ignore_ascii_case(exe_basename, "explorer.exe");
    proof {
        assert(ascii_lower("explorer.exe"@) == "explorer.exe"@) by {
            reveal_strlit("explorer.exe");
            assert(ascii_lower("explorer.exe"@) =~= "explorer.exe"@);
        }
    }
    opts.explorer_enrich_if_below > 0 && is_explorer && found < opts.explorer_enrich_if_below
}

/// Options of the enrich pass: its own materialization budget capped by the overall one,
/// and no children-only pass first.
pub fn enrich_options(opts: &EnumOptions) -> (r: EnumOptions)
    ensures
        r == (EnumOptions {
            materialize_hard_budget_ms: if opts.explorer_enrich_materialize_budget_ms <= opts.materialize_hard_budget_ms {
                opts.explorer_enrich_materialize_budget_ms
            } else {
                opts.materialize_hard_budget_ms
            },
            uia_shallow_children_first: false,
            ..*opts
        }),
{
    let m = if opts.explorer_enrich_materialize_budget_ms <= opts.materialize_hard_budget_ms {
        opts.explorer_enrich_materialize_budget_ms
    } else {
        opts.materialize_hard_budget_ms
    };
    EnumOptions { materialize_hard_budget_ms: m, uia_shallow_children_first: false, ..*opts }
}

/// Child-window hints followed by the enrich hints, in reading order (top to bottom, then
/// left to right; stable), cut to `max_elements`.
pub fn merge_enriched_hints(hwnd_hints: Vec<RawHint>, enrich_hints: Vec<RawHint>, opts: &EnumOptions) -> (r: Vec<RawHint>)
    ensures
        r@ == merge_sorted_spec(hwnd_hints@, enrich_hints@, false, opts.max_elements as int),
        pos_sorted(r@, false),
        r@.len() <= opts.max_elements,
{
    merge_in_reading_order(hwnd_hints, enrich_hints, false, opts.max_elements)
}

/// A stage that took `t1 - t0` counter ticks at `freq` ticks per second exceeded a
/// positive budget of `budget_ms` milliseconds.
pub open spec fn over_budget_spec(freq: int, t0: int, t1: int, budget_ms: int) -> bool {
    let dt = crate::input::qpc_saturating_delta(t0, t1);
    budget_ms != 0 && freq > 0 && dt * 1000 > budget_ms * freq
}

/// Whether a stage ran over its soft budget (`0` = no budget).
pub fn stage_over_budget(freq: i64, t0: i64, t1: i64, budget_ms: u64) -> (r: bool)
    ensures
        r == over_budget_spec(freq as int, t0 as int, t1 as int, budget_ms as int),
{
    if budget_ms == 0 || freq <= 0 {
        return false;
    }
    let dt = crate::input::qpc_delta(t0, t1);
    let b = budget_ms as i128;
    let f = freq as i128;
    proof {
        assert(b * f <= 0xFFFF_FFFF_FFFF_FFFFi128 * 0x7FFF_FFFF_FFFF_FFFFi128) by (nonlinear_arith)
            requires 0 <= b <= 0xFFFF_FFFF_FFFF_FFFFi128, 0 <= f <= 0x7FFF_FFFF_FFFF_FFFFi128;
    }
    (dt as i128) * 1000 > b * f
}

} // verus!
