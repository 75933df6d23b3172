//! Enumeration options.

use vstd::prelude::*;

verus! {

/// Soft cap (ms) for the UI Automation stage in [`FallbackPolicy::Auto`].
pub const M9_DEFAULT_BUDGET_UIA_MS: u64 = 25;
/// Soft cap (ms) for the MSAA stage in [`FallbackPolicy::Auto`].
pub const M9_DEFAULT_BUDGET_MSAA_MS: u64 = 8;
/// Soft cap (ms) for the raw child-window stage in [`FallbackPolicy::Auto`].
pub const M9_DEFAULT_BUDGET_HWND_MS: u64 = 5;

/// Which enumeration backends run.
#[derive(Clone, Copy, Debug, PartialEq, Eq, Hash, Structural)]
pub enum FallbackPolicy {
    Auto,
    UiaOnly,
    MsaaOnly,
}

/// Tree match breadth: `Fast` = explicit patterns only; `Full` = also focusable controls.
#[derive(Clone, Copy, Debug, PartialEq, Eq, Hash, Structural)]
pub enum EnumerationProfile {
    Fast,
    Full,
}

impl Default for EnumerationProfile {
    fn default() -> (r: Self)
        ensures
            r == EnumerationProfile::Fast,
    {
        EnumerationProfile::Fast
    }
}

/// Per-window enumeration ladder override.
#[derive(Clone, Copy, Debug, PartialEq, Eq, Structural)]
pub enum EnumerationStrategyMode {
    /// Probe the window class / executable.
    Auto,
    /// Always UIA, then MSAA, then child windows.
    UiaFirst,
    /// Child windows, then MSAA, then UIA (Explorer / classic Win32).
    Win32First,
    /// UIA first without parallel subtree fan-out (Chromium / Electron).
    ChromiumFast,
}

impl Default for EnumerationStrategyMode {
    fn default() -> (r: Self)
        ensures
            r == EnumerationStrategyMode::Auto,
    {
        EnumerationStrategyMode::Auto
    }
}

/// Controls what the enumerator returns.
#[derive(Clone, Copy, Debug)]
pub struct EnumOptions {
    /// Hard cap on returned rows.
    pub max_elements: usize,
    pub include_offscreen: bool,
    pub include_disabled: bool,
    pub fallback: FallbackPolicy,
    pub profile: EnumerationProfile,
    /// Stop materialization after this wall time (partial list is fine).
    pub materialize_hard_budget_ms: u64,
    pub budget_uia_ms: u64,
    pub budget_msaa_ms: u64,
    pub budget_hwnd_ms: u64,
    /// Log each skipped node.
    pub debug_uia: bool,
    /// Record skipped nodes with bounds for a visual debug overlay.
    pub debug_overlay: bool,
    pub strategy_mode: EnumerationStrategyMode,
    /// Skip the parallel per-window subtree path.
    pub disable_uia_parallel: bool,
    /// Run a cheap children-only pass first and stop if it finds enough rows.
    pub uia_shallow_children_first: bool,
    /// Minimum rows from the shallow pass before the deep pass is skipped.
    pub uia_shallow_min_targets: usize,
    pub uia_shallow_materialize_budget_ms: u64,
    /// Explorer Win32-first: below this many child-window rows, run a bounded UIA enrich pass (0 = off).
    pub explorer_enrich_if_below: usize,
    pub explorer_enrich_materialize_budget_ms: u64,
    /// Drop UIA rows that do not intersect the root window's client rectangle.
    pub clip_uia_to_client_rect: bool,
}

impl EnumOptions {
    /// The option values of [`EnumOptions::default`].
    pub open spec fn is_default(self) -> bool {
        &&& self.max_elements == 2048
        &&& !self.include_offscreen
        &&& !self.include_disabled
        &&& self.fallback == FallbackPolicy::Auto
        &&& self.profile == EnumerationProfile::Fast
        &&& self.materialize_hard_budget_ms == 30
        &&& self.budget_uia_ms == M9_DEFAULT_BUDGET_UIA_MS
        &&& self.budget_msaa_ms == M9_DEFAULT_BUDGET_MSAA_MS
        &&& self.budget_hwnd_ms == M9_DEFAULT_BUDGET_HWND_MS
        &&& !self.debug_uia
        &&& !self.debug_overlay
        &&& self.strategy_mode == EnumerationStrategyMode::Auto
        &&& !self.disable_uia_parallel
        &&& !self.uia_shallow_children_first
        &&& self.uia_shallow_min_targets == 8
        &&& self.uia_shallow_materialize_budget_ms == 12
        &&& self.explorer_enrich_if_below == 0
        &&& self.explorer_enrich_materialize_budget_ms == 28
        &&& !self.clip_uia_to_client_rect
    }
}

impl Default for EnumOptions {
    fn default() -> (r: Self)
        ensures
            r.is_default(),
    {
        EnumOptions {
            max_elements: 2048,
            include_offscreen: false,
            include_disabled: false,
            fallback: FallbackPolicy::Auto,
            profile: EnumerationProfile::default(),
            materialize_hard_budget_ms: 30,
            budget_uia_ms: M9_DEFAULT_BUDGET_UIA_MS,
            budget_msaa_ms: M9_DEFAULT_BUDGET_MSAA_MS,
            budget_hwnd_ms: M9_DEFAULT_BUDGET_HWND_MS,
            debug_uia: false,
            debug_overlay: false,
            strategy_mode: EnumerationStrategyMode::default(),
            disable_uia_parallel: false,
            uia_shallow_children_first: false,
            uia_shallow_min_targets: 8,
            uia_shallow_materialize_budget_ms: 12,
            explorer_enrich_if_below: 0,
            explorer_enrich_materialize_budget_ms: 28,
            clip_uia_to_client_rect: false,
        }
    }
}

} // verus!
