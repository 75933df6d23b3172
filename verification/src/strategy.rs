//! Enumeration tuning per application and the choice of backend ladder for a window.

use vstd::prelude::*;
use crate::text::{ascii_lower, has_substring, str_contains, str_eq, to_ascii_lowercase};
use crate::uia_options::{EnumOptions, EnumerationProfile, EnumerationStrategyMode};

verus! {

/// Shallow-first tuning for an application: full matching, children pass first.
pub open spec fn shallow_first(o: EnumOptions, min_targets: usize, budget_ms: u64) -> EnumOptions {
    EnumOptions {
        profile: EnumerationProfile::Full,
        uia_shallow_children_first: true,
        uia_shallow_min_targets: min_targets,
        uia_shallow_materialize_budget_ms: budget_ms,
        ..o
    }
}

/// The options after the built-in tuning for the executable `e` (already lowercased).
pub open spec fn exe_profile_spec(e: Seq<char>, o: EnumOptions) -> EnumOptions {
    if e == "chrome.exe"@ || e == "msedge.exe"@ || e == "brave.exe"@ || e == "vivaldi.exe"@
        || e == "opera.exe"@ {
        shallow_first(o, 6, 16)
    } else if e == "discord.exe"@ || e == "slack.exe"@ || e == "teams.exe"@ || e == "electron.exe"@ {
        shallow_first(o, 6, 14)
    } else if e == "cursor.exe"@ || e == "code.exe"@ {
        shallow_first(o, 8, 16)
    } else if e == "wispr flow.exe"@ || e == "wisprflow.exe"@ {
        shallow_first(o, 6, 12)
    } else if e == "windowsterminal.exe"@ || e == "wt.exe"@ {
        shallow_first(o, 6, 12)
    } else if e == "explorer.exe"@ {
        EnumOptions {
            profile: EnumerationProfile::Full,
            explorer_enrich_if_below: 45,
            explorer_enrich_materialize_budget_ms: 48,
            clip_uia_to_client_rect: true,
            ..o
        }
    } else {
        o
    }
}

/// Merges built-in tuning for known applications into `opts` (the ladder chosen by the
/// user is left alone). The executable name is compared case-insensitively (ASCII).
pub fn apply_exe_profile(exe_basename: &str, opts: &mut EnumOptions)
    ensures
        *final(opts) == exe_profile_spec(ascii_lower(exe_basename@), *old(opts)),
{
    let e_s = to_ascii_lowercase(exe_basename);
    let e = e_s.as_str();
    if str_eq(e, "chrome.exe") || str_eq(e, "msedge.exe") || str_eq(e, "brave.exe")
        || str_eq(e, "vivaldi.exe") || str_eq(e, "opera.exe") {
        opts.profile = EnumerationProfile::Full;
        opts.uia_shallow_children_first = true;
        opts.uia_shallow_min_targets = 6;
        opts.uia_shallow_materialize_budget_ms = 16;
    } else if str_eq(e, "discord.exe") || str_eq(e, "slack.exe") || str_eq(e, "teams.exe")
        || str_eq(e, "electron.exe") {
        opts.profile = EnumerationProfile::Full;
        opts.uia_shallow_children_first = true;
        opts.uia_shallow_min_targets = 6;
        opts.uia_shallow_materialize_budget_ms = 14;
    } else if str_eq(e, "cursor.exe") || str_eq(e, "code.exe") {
        opts.profile = EnumerationProfile::Full;
        opts.uia_shallow_children_first = true;
        opts.uia_shallow_min_targets = 8;
        opts.uia_shallow_materialize_budget_ms = 16;
    } else if str_eq(e, "wispr flow.exe") || str_eq(e, "wisprflow.exe") {
        opts.profile = EnumerationProfile::Full;
        opts.uia_shallow_children_first = true;
        opts.uia_shallow_min_targets = 6;
        opts.uia_shallow_materialize_budget_ms = 12;
    } else if str_eq(e, "windowsterminal.exe") || str_eq(e, "wt.exe") {
        opts.profile = EnumerationProfile::Full;
        opts.uia_shallow_children_first = true;
        opts.uia_shallow_min_targets = 6;
        opts.uia_shallow_materialize_budget_ms = 12;
    } else if str_eq(e, "explorer.exe") {
        opts.profile = EnumerationProfile::Full;
        opts.explorer_enrich_if_below = 45;
        opts.explorer_enrich_materialize_budget_ms = 48;
        opts.clip_uia_to_client_rect = true;
    }
}

/// Backend ordering for [`crate::uia_options::FallbackPolicy::Auto`].
#[derive(Clone, Copy, Debug, PartialEq, Eq, Structural)]
pub enum ResolvedLadder {
    /// UI Automation, then MSAA, then child windows.
    UiaFirst,
    /// Child windows, then MSAA, then UI Automation (Explorer / classic Win32).
    Win32First,
}

/// Chromium, Electron and similar hosts, by window class or executable.
pub open spec fn is_chromium_family_spec(class: Seq<char>, exe: Seq<char>) -> bool {
    let c = ascii_lower(class);
    let e = ascii_lower(exe);
    ||| has_substring(c, "chrome_widgetwin"@)
    ||| has_substring(c, "chromium"@)
    ||| has_substring(c, "webview"@)
    ||| e == "chrome.exe"@ || e == "msedge.exe"@ || e == "brave.exe"@ || e == "vivaldi.exe"@
    ||| e == "opera.exe"@ || e == "discord.exe"@ || e == "slack.exe"@ || e == "teams.exe"@
    ||| e == "code.exe"@ || e == "cursor.exe"@ || e == "devenv.exe"@ || e == "electron.exe"@
}

/// Whether the window belongs to a Chromium / Electron style host.
pub fn is_chromium_family(class: &str, exe_base: &str) -> (r: bool)
    ensures
        r == is_chromium_family_spec(class@, exe_base@),
{
    let c_s = to_ascii_lowercase(class);
    let c = c_s.as_str();
    if str_contains(c, "chrome_widgetwin") || str_contains(c, "chromium") || str_contains(c, "webview") {
        return true;
    }
    let e_s = to_ascii_lowercase(exe_base);
    let e = e_s.as_str();
    str_eq(e, "chrome.exe") || str_eq(e, "msedge.exe") || str_eq(e, "brave.exe")
        || str_eq(e, "vivaldi.exe") || str_eq(e, "opera.exe") || str_eq(e, "discord.exe")
        || str_eq(e, "slack.exe") || str_eq(e, "teams.exe") || str_eq(e, "code.exe")
        || str_eq(e, "cursor.exe") || str_eq(e, "devenv.exe") || str_eq(e, "electron.exe")
}

/// Shell windows whose useful targets are child windows (Explorer, desktop).
pub open spec fn is_win32_first_spec(class: Seq<char>, exe: Seq<char>) -> bool {
    ||| ascii_lower(exe) == "explorer.exe"@
    ||| class == "CabinetWClass"@ || class == "ExploreWClass"@ || class == "Progman"@
    ||| class == "WorkerW"@
}

/// `a` and `b` are equal ignoring ASCII case.
pub fn eq_ignore_ascii_case(a: &str, b: &str) -> (r: bool)
    ensures
        r == (ascii_lower(a@) == ascii_lower(b@)),
{
    let la = to_ascii_lowercase(a);
    let lb = to_ascii_lowercase(b);
    str_eq(la.as_str(), lb.as_str())
}

/// Whether the window should be enumerated child windows first.
pub fn is_win32_hwnd_first_candidate(class: &str, exe_base: &str) -> (r: bool)
    ensures
        r == is_win32_first_spec(class@, exe_base@),
{
    if eq_ignore_ascii_case(exe_base, "explorer.exe") {
        proof {
            assert(ascii_lower("explorer.exe"@) == "explorer.exe"@) by {
                reveal_strlit("explorer.exe");
                assert(ascii_lower("explorer.exe"@) =~= "explorer.exe"@);
            }
        }
        return true;
    }
    proof {
        assert(ascii_lower("explorer.exe"@) == "explorer.exe"@) by {
            reveal_strlit("explorer.exe");
            assert(ascii_lower("explorer.exe"@) =~= "explorer.exe"@);
        }
    }
    str_eq(class, "CabinetWClass") || str_eq(class, "ExploreWClass") || str_eq(class, "Progman")
        || str_eq(class, "WorkerW")
}

/// What a probe of the foreground window found, and the ladder it suggests.
#[derive(Clone, Debug)]
pub struct WindowProbe {
    pub pid: u32,
    pub class_name: String,
    pub exe_basename: String,
    pub suggested_ladder: ResolvedLadder,
    /// Prefer single-threaded UI Automation materialization (heavy Chromium trees).
    pub suggested_disable_parallel: bool,
}

impl WindowProbe {
    /// The ladder suggested for a window class and executable.
    pub open spec fn suggestion(class: Seq<char>, exe: Seq<char>) -> (ResolvedLadder, bool) {
        if is_chromium_family_spec(class, exe) {
            (ResolvedLadder::UiaFirst, true)
        } else if is_win32_first_spec(class, exe) {
            (ResolvedLadder::Win32First, false)
        } else {
            (ResolvedLadder::UiaFirst, false)
        }
    }

    /// Builds the probe of a window from its process id, class name and executable name.
    pub fn new(pid: u32, class_name: String, exe_basename: String) -> (r: Self)
        ensures
            r.pid == pid,
            r.class_name == class_name,
            r.exe_basename == exe_basename,
            (r.suggested_ladder, r.suggested_disable_parallel)
                == Self::suggestion(class_name@, exe_basename@),
    {
        let mut suggested_ladder = ResolvedLadder::UiaFirst;
        let mut suggested_disable_parallel = false;
        if is_chromium_family(class_name.as_str(), exe_basename.as_str()) {
            suggested_ladder = ResolvedLadder::UiaFirst;
            suggested_disable_parallel = true;
        } else if is_win32_hwnd_first_candidate(class_name.as_str(), exe_basename.as_str()) {
            suggested_ladder = ResolvedLadder::Win32First;
        }
        WindowProbe { pid, class_name, exe_basename, suggested_ladder, suggested_disable_parallel }
    }
}

/// The ladder and "disable parallel" flag for a configured mode and a probed window.
pub open spec fn resolve_spec(mode: EnumerationStrategyMode, probe: WindowProbe) -> (ResolvedLadder, bool) {
    match mode {
        EnumerationStrategyMode::Auto => (probe.suggested_ladder, probe.suggested_disable_parallel),
        EnumerationStrategyMode::UiaFirst => (ResolvedLadder::UiaFirst, false),
        EnumerationStrategyMode::Win32First => (ResolvedLadder::Win32First, false),
        EnumerationStrategyMode::ChromiumFast => (ResolvedLadder::UiaFirst, true),
    }
}

/// Merges the configured ladder with the probe's suggestion: `Auto` follows the probe,
/// the others override it. Returns `(ladder, disable_uia_parallel)`.
pub fn resolve_enumeration_behavior(mode: EnumerationStrategyMode, probe: &WindowProbe) -> (r: (ResolvedLadder, bool))
    ensures
        r == resolve_spec(mode, *probe),
{
    match mode {
        EnumerationStrategyMode::Auto => (probe.suggested_ladder, probe.suggested_disable_parallel),
        EnumerationStrategyMode::UiaFirst => (ResolvedLadder::UiaFirst, false),
        EnumerationStrategyMode::Win32First => (ResolvedLadder::Win32First, false),
        EnumerationStrategyMode::ChromiumFast => (ResolvedLadder::UiaFirst, true),
    }
}

} // verus!
