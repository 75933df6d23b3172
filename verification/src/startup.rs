//! Turning the loaded configuration and command-line switches into enumeration options.

use vstd::prelude::*;
use crate::config::Config;
use crate::text::{ascii_lower, trim_ws, str_trim, to_ascii_lowercase, str_eq};
use crate::uia_options::{EnumOptions, EnumerationProfile, EnumerationStrategyMode};

verus! {

/// Command-line switches that feed the enumeration options.
#[derive(Clone, Copy, Debug)]
pub struct CliSnapshot {
    pub debug_uia: bool,
    pub debug_overlay: bool,
}

/// A configuration word: trimmed and ASCII-lowercased.
pub open spec fn normalized(s: Seq<char>) -> Seq<char> {
    ascii_lower(trim_ws(s))
}

/// The profile a `[hints].enumeration_profile` value names (`full`, else fast).
pub open spec fn profile_from_name(s: Seq<char>) -> EnumerationProfile {
    if normalized(s) == "full"@ {
        EnumerationProfile::Full
    } else {
        EnumerationProfile::Fast
    }
}

/// The ladder a `[hints].enumeration_ladder` value names (unknown words mean `auto`).
pub open spec fn ladder_from_name(s: Seq<char>) -> EnumerationStrategyMode {
    let n = normalized(s);
    if n == "uia_first"@ || n == "uiafirst"@ || n == "uia"@ {
        EnumerationStrategyMode::UiaFirst
    } else if n == "win32_first"@ || n == "win32first"@ || n == "hwnd_first"@ || n == "win32"@ {
        EnumerationStrategyMode::Win32First
    } else if n == "chromium_fast"@ || n == "chromium"@ || n == "electron"@ {
        EnumerationStrategyMode::ChromiumFast
    } else {
        EnumerationStrategyMode::Auto
    }
}

/// Parses `[hints].enumeration_profile`, case-insensitively and ignoring surrounding space.
pub fn parse_enumeration_profile(s: &str) -> (r: EnumerationProfile)
    ensures
        r == profile_from_name(s@),
{
    let n = to_ascii_lowercase(str_trim(s));
    if str_eq(n.as_str(), "full") {
        EnumerationProfile::Full
    } else {
        EnumerationProfile::Fast
    }
}

/// Parses `[hints].enumeration_ladder`, case-insensitively and ignoring surrounding space.
pub fn parse_enumeration_ladder(s: &str) -> (r: EnumerationStrategyMode)
    ensures
        r == ladder_from_name(s@),
{
    let n = to_ascii_lowercase(str_trim(s));
    let t = n.as_str();
    if str_eq(t, "uia_first") || str_eq(t, "uiafirst") || str_eq(t, "uia") {
        EnumerationStrategyMode::UiaFirst
    } else if str_eq(t, "win32_first") || str_eq(t, "win32first") || str_eq(t, "hwnd_first")
        || str_eq(t, "win32") {
        EnumerationStrategyMode::Win32First
    } else if str_eq(t, "chromium_fast") || str_eq(t, "chromium") || str_eq(t, "electron") {
        EnumerationStrategyMode::ChromiumFast
    } else {
        EnumerationStrategyMode::Auto
    }
}

/// Enumeration options from the configuration and command line; the rest are defaults.
pub fn build_enum_opts(cfg: &Config, cli: &CliSnapshot) -> (r: EnumOptions)
    ensures
        r.max_elements == cfg.hints.max_elements,
        r.profile == profile_from_name(cfg.hints.enumeration_profile@),
        r.materialize_hard_budget_ms == cfg.hints.materialize_budget_ms,
        r.strategy_mode == ladder_from_name(cfg.hints.enumeration_ladder@),
        r.budget_uia_ms == cfg.fallback.budget_ms.uia,
        r.budget_msaa_ms == cfg.fallback.budget_ms.msaa,
        r.budget_hwnd_ms == cfg.fallback.budget_ms.hwnd,
        r.debug_uia == cli.debug_uia,
        r.debug_overlay == cli.debug_overlay,
        !r.include_offscreen,
        !r.include_disabled,
        r.fallback == crate::uia_options::FallbackPolicy::Auto,
        !r.disable_uia_parallel,
        !r.uia_shallow_children_first,
        r.uia_shallow_min_targets == 8,
        r.uia_shallow_materialize_budget_ms == 12,
        r.explorer_enrich_if_below == 0,
        r.explorer_enrich_materialize_budget_ms == 28,
        !r.clip_uia_to_client_rect,
{
    let d = EnumOptions::default();
    EnumOptions {
        max_elements: cfg.hints.max_elements,
        profile: parse_enumeration_profile(cfg.hints.enumeration_profile.as_str()),
        materialize_hard_budget_ms: cfg.hints.materialize_budget_ms,
        strategy_mode: parse_enumeration_ladder(cfg.hints.enumeration_ladder.as_str()),
        budget_uia_ms: cfg.fallback.budget_ms.uia,
        budget_msaa_ms: cfg.fallback.budget_ms.msaa,
        budget_hwnd_ms: cfg.fallback.budget_ms.hwnd,
        debug_uia: cli.debug_uia,
        debug_overlay: cli.debug_overlay,
        ..d
    }
}

/// The effective log level: the command line wins over the configuration.
pub fn effective_log_level(cli_level: Option<String>, cfg: &Config) -> (r: Option<String>)
    ensures
        match cli_level {
            Some(l) => r == Some(l),
            None => match cfg.log.level {
                Some(l) => r matches Some(x) && x@ == l@,
                None => r is None,
            },
        },
{
    match cli_level {
        Some(l) => Some(l),
        None => match &cfg.log.level {
            Some(l) => Some(l.clone()),
            None => None,
        },
    }
}

} // verus!
