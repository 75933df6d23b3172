//! Configuration model, its defaults and the discovery of the configuration file.
//!
//! Discovery when no explicit path is given: the `NAVIGATOR_CONFIG` variable, then the
//! per-user application-data file, then the file beside the executable, then built-in
//! defaults. Reading files and the environment is the caller's part; this module decides.

use vstd::prelude::*;
use crate::error::NavConfigError;
use crate::text::{is_white_space, char_is_whitespace, str_eq, string_push};

verus! {

/// Default label alphabet, in priority order.
pub fn default_alphabet() -> (r: String)
    ensures
        r@ == "sadfjklewcmpgh"@,
{
    "sadfjklewcmpgh".to_owned()
}

/// Default hard cap on enumerated elements per session.
pub fn default_max_elements() -> (r: usize)
    ensures
        r == 2048,
{
    2048
}

/// Default enumeration profile name.
pub fn default_enumeration_profile() -> (r: String)
    ensures
        r@ == "fast"@,
{
    "fast".to_owned()
}

/// Default materialization budget in milliseconds.
pub fn default_materialize_budget_ms() -> (r: u64)
    ensures
        r == 30,
{
    30
}

/// Default lifetime of the per-window hint cache in milliseconds.
pub fn default_hint_cache_ttl_ms() -> (r: u64)
    ensures
        r == 1000,
{
    1000
}

/// Default cap on hints handed to the planner.
pub fn default_planner_label_cap() -> (r: usize)
    ensures
        r == 60,
{
    60
}

/// Default soft budget of the hotkey-to-plan pipeline in milliseconds.
pub fn default_pipeline_soft_budget_ms() -> (r: u64)
    ensures
        r == 25,
{
    25
}

/// Default hard budget of the hotkey-to-plan pipeline in milliseconds.
pub fn default_pipeline_hard_budget_ms() -> (r: u64)
    ensures
        r == 30,
{
    30
}

/// Default enumeration ladder name.
pub fn default_enumeration_ladder() -> (r: String)
    ensures
        r@ == "auto"@,
{
    "auto".to_owned()
}

/// Default activation chord.
pub fn default_hotkey_chord() -> (r: String)
    ensures
        r@ == "alt+/"@,
{
    "alt+/".to_owned()
}

/// Default soft budget of the UI Automation stage (ms).
pub fn default_budget_uia() -> (r: u64)
    ensures
        r == 25,
{
    25
}

/// Default soft budget of the MSAA stage (ms).
pub fn default_budget_msaa() -> (r: u64)
    ensures
        r == 8,
{
    8
}

/// Default soft budget of the child-window stage (ms).
pub fn default_budget_hwnd() -> (r: u64)
    ensures
        r == 5,
{
    5
}

/// Overlay pill rendering options (`[render]`).
#[derive(Debug, Clone, Copy)]
pub struct RenderConfig {
    /// Draw pill-to-target connector lines.
    pub debug_connectors: bool,
    /// Dot at the resolved invoke anchor.
    pub debug_target_dot: bool,
    /// Outline around element bounding rectangles.
    pub debug_target_rect: bool,
    /// Distance from pill center to invoke anchor.
    pub debug_distance: bool,
}

impl Default for RenderConfig {
    fn default() -> (r: Self)
        ensures
            !r.debug_connectors && !r.debug_target_dot && !r.debug_target_rect && !r.debug_distance,
    {
        RenderConfig {
            debug_connectors: false,
            debug_target_dot: false,
            debug_target_rect: false,
            debug_distance: false,
        }
    }
}

/// Hint generation and enumeration options (`[hints]`).
#[derive(Debug, Clone)]
pub struct HintsConfig {
    /// Label characters in priority order (white space is ignored).
    pub alphabet: String,
    /// Hard cap on enumerated / labelled elements per session.
    pub max_elements: usize,
    /// `fast` = patterns-only matching; `full` = also keyboard-focusable controls.
    pub enumeration_profile: String,
    /// Stop materialization after this many milliseconds.
    pub materialize_budget_ms: u64,
    /// Backend ordering: `auto`, `uia_first`, `win32_first`, `chromium_fast`.
    pub enumeration_ladder: String,
    /// Re-use the last enumeration of the same window within this window of time.
    pub hint_cache_ttl_ms: u64,
    /// Warn when hotkey-to-plan exceeds this many milliseconds.
    pub pipeline_soft_budget_ms: u64,
    /// Hard ceiling for pipeline diagnostics.
    pub pipeline_hard_budget_ms: u64,
    /// Max hints passed to the planner (`0` = no extra cap).
    pub planner_label_cap: usize,
}

impl HintsConfig {
    /// The values of [`HintsConfig::default`].
    pub open spec fn is_default(self) -> bool {
        &&& self.alphabet@ == "sadfjklewcmpgh"@
        &&& self.max_elements == 2048
        &&& self.enumeration_profile@ == "fast"@
        &&& self.materialize_budget_ms == 30
        &&& self.enumeration_ladder@ == "auto"@
        &&& self.hint_cache_ttl_ms == 1000
        &&& self.pipeline_soft_budget_ms == 25
        &&& self.pipeline_hard_budget_ms == 30
        &&& self.planner_label_cap == 60
    }
}

impl Default for HintsConfig {
    fn default() -> (r: Self)
        ensures
            r.is_default(),
    {
        HintsConfig {
            alphabet: default_alphabet(),
            max_elements: default_max_elements(),
            enumeration_profile: default_enumeration_profile(),
            materialize_budget_ms: default_materialize_budget_ms(),
            enumeration_ladder: default_enumeration_ladder(),
            hint_cache_ttl_ms: default_hint_cache_ttl_ms(),
            pipeline_soft_budget_ms: default_pipeline_soft_budget_ms(),
            pipeline_hard_budget_ms: default_pipeline_hard_budget_ms(),
            planner_label_cap: default_planner_label_cap(),
        }
    }
}

/// Global activation chord (`[hotkey]`).
#[derive(Debug, Clone)]
pub struct HotkeyConfig {
    /// e.g. `alt+/`, `ctrl+shift+a`.
    pub chord: String,
}

impl Default for HotkeyConfig {
    fn default() -> (r: Self)
        ensures
            r.chord@ == "alt+/"@,
    {
        HotkeyConfig { chord: default_hotkey_chord() }
    }
}

/// Logging options (`[log]`).
#[derive(Debug, Clone)]
pub struct LogConfig {
    pub level: Option<String>,
}

impl Default for LogConfig {
    fn default() -> (r: Self)
        ensures
            r.level is None,
    {
        LogConfig { level: None }
    }
}

/// Per-stage soft time budgets in milliseconds.
#[derive(Debug, Clone, Copy)]
pub struct BudgetMs {
    pub uia: u64,
    pub msaa: u64,
    pub hwnd: u64,
}

impl Default for BudgetMs {
    fn default() -> (r: Self)
        ensures
            r.uia == 25 && r.msaa == 8 && r.hwnd == 5,
    {
        BudgetMs { uia: default_budget_uia(), msaa: default_budget_msaa(), hwnd: default_budget_hwnd() }
    }
}

/// Enumeration fallback options (`[fallback]`).
#[derive(Debug, Clone, Copy)]
pub struct FallbackConfig {
    pub budget_ms: BudgetMs,
}

impl Default for FallbackConfig {
    fn default() -> (r: Self)
        ensures
            r.budget_ms.uia == 25 && r.budget_ms.msaa == 8 && r.budget_ms.hwnd == 5,
    {
        FallbackConfig { budget_ms: BudgetMs::default() }
    }
}

/// The whole configuration file.
#[derive(Debug, Clone)]
pub struct Config {
    pub hints: HintsConfig,
    pub hotkey: HotkeyConfig,
    pub log: LogConfig,
    pub render: RenderConfig,
    pub fallback: FallbackConfig,
}

impl Config {
    /// The values of [`Config::default`].
    pub open spec fn is_default(self) -> bool {
        &&& self.hints.is_default()
        &&& self.hotkey.chord@ == "alt+/"@
        &&& self.log.level is None
        &&& !self.render.debug_connectors
        &&& !self.render.debug_target_dot
        &&& !self.render.debug_target_rect
        &&& !self.render.debug_distance
        &&& self.fallback.budget_ms.uia == 25
        &&& self.fallback.budget_ms.msaa == 8
        &&& self.fallback.budget_ms.hwnd == 5
    }
}

impl Default for Config {
    fn default() -> (r: Self)
        ensures
            r.is_default(),
    {
        Config {
            hints: HintsConfig::default(),
            hotkey: HotkeyConfig::default(),
            log: LogConfig::default(),
            render: RenderConfig::default(),
            fallback: FallbackConfig::default(),
        }
    }
}

/// A character that is kept in the label alphabet.
pub open spec fn is_alphabet_char(c: char) -> bool {
    !is_white_space(c)
}

/// The label alphabet of a configuration: its `[hints].alphabet` without white space.
pub open spec fn alphabet_spec(s: Seq<char>) -> Seq<char> {
    s.filter(|c: char| is_alphabet_char(c))
}

/// The configured label alphabet with white space removed, in order.
pub fn alphabet_chars(cfg: &Config) -> (r: Vec<char>)
    ensures
        r@ == alphabet_spec(cfg.hints.alphabet@),
{
    let s = cfg.hints.alphabet.as_str();
    let n = s.unicode_len();
    let mut out: Vec<char> = Vec::new();
    let mut i: usize = 0;
    while i < n
        invariant
            n == s@.len(),
            s@ == cfg.hints.alphabet@,
            i <= n,
            out@ == alphabet_spec(s@.subrange(0, i as int)),
        decreases n - i,
    {
        let c = s.get_char(i);
        proof {
            let t = s@.subrange(0, i as int + 1);
            assert(t.drop_last() =~= s@.subrange(0, i as int));
            assert(t.last() == c);
            reveal_with_fuel(Seq::filter, 1);
        }
        if !char_is_whitespace(c) {
            out.push(c);
        }
        i += 1;
    }
    assert(s@.subrange(0, n as int) =~= s@);
    out
}

/// Whether `x` occurs in `v`, by string content.
fn contains_str(v: &Vec<String>, x: &str) -> (r: bool)
    ensures
        r == exists|i: int| 0 <= i < v.len() && #[trigger] v@[i]@ == x@,
{
    let mut i: usize = 0;
    while i < v.len()
        invariant
            i <= v.len(),
            forall|k: int| 0 <= k < i ==> #[trigger] v@[k]@ != x@,
        decreases v.len() - i,
    {
        if str_eq(v[i].as_str(), x) {
            return true;
        }
        i += 1;
    }
    false
}

/// The candidate list built from `s`: each path once, at its first position.
pub open spec fn dedup_paths(s: Seq<Seq<char>>) -> Seq<Seq<char>>
    decreases s.len(),
{
    if s.len() == 0 {
        s
    } else {
        let r = dedup_paths(s.drop_last());
        if r.contains(s.last()) {
            r
        } else {
            r.push(s.last())
        }
    }
}

/// The sources of discovery in order: explicit path, `NAVIGATOR_CONFIG` (trimmed), the
/// per-user application-data file, the file beside the executable.
pub open spec fn candidate_sources(
    cli: Option<Seq<char>>,
    env_config: Option<Seq<char>>,
    appdata_config: Option<Seq<char>>,
    exe_dir_config: Option<Seq<char>>,
) -> Seq<Seq<char>> {
    let a = match cli { Some(p) => seq![p], None => Seq::empty() };
    let b = match env_config { Some(p) => seq![crate::text::trim_ws(p)], None => Seq::empty() };
    let c = match appdata_config { Some(p) => seq![p], None => Seq::empty() };
    let d = match exe_dir_config { Some(p) => seq![p], None => Seq::empty() };
    a + b + c + d
}

fn push_unique(out: &mut Vec<String>, p: String)
    ensures
        views(final(out)@) == dedup_push(views(old(out)@), p@),
{
    if !contains_str(out, p.as_str()) {
        proof {
            assert forall|i: int| 0 <= i < old(out)@.len() implies #[trigger] views(old(out)@)[i] != p@ by {
                assert(old(out)@[i]@ != p@);
            }
        }
        out.push(p);
        proof {
            assert(views(final(out)@) =~= views(old(out)@).push(p@));
        }
    } else {
        proof {
            let i = choose|i: int| 0 <= i < old(out)@.len() && #[trigger] old(out)@[i]@ == p@;
            assert(views(old(out)@)[i] == p@);
        }
    }
}

/// The string views of a list of paths.
pub open spec fn views(v: Seq<String>) -> Seq<Seq<char>> {
    v.map_values(|s: String| s@)
}

/// The string views of an optional path.
pub open spec fn opt_view(o: &Option<String>) -> Option<Seq<char>> {
    match o {
        Some(p) => Some(p@),
        None => None,
    }
}

/// `r` extended by `x` unless `x` already occurs in it.
pub open spec fn dedup_push(r: Seq<Seq<char>>, x: Seq<char>) -> Seq<Seq<char>> {
    if r.contains(x) { r } else { r.push(x) }
}

/// Ordered discovery list: each candidate once, the explicit path first when given.
///
/// `env_config` is the raw value of `NAVIGATOR_CONFIG`; `appdata_config` and
/// `exe_dir_config` are the per-user and beside-the-executable file paths when they
/// could be formed.
pub fn discovery_candidates(
    cli: Option<String>,
    env_config: Option<String>,
    appdata_config: Option<String>,
    exe_dir_config: Option<String>,
) -> (r: Vec<String>)
    ensures
        views(r@) == dedup_paths(candidate_sources(
            opt_view(&cli),
            opt_view(&env_config),
            opt_view(&appdata_config),
            opt_view(&exe_dir_config),
        )),
{
    let ghost cli_v = opt_view(&cli);
    let ghost env_v = opt_view(&env_config);
    let ghost app_v = opt_view(&appdata_config);
    let ghost exe_v = opt_view(&exe_dir_config);
    let ghost src = candidate_sources(cli_v, env_v, app_v, exe_v);
    let mut out: Vec<String> = Vec::new();
    let ghost mut taken: Seq<Seq<char>> = Seq::empty();
    proof {
        assert(views(out@) =~= dedup_paths(taken));
    }
    match cli {
        Some(p) => {
            proof { lemma_dedup_push(taken, p@); taken = taken.push(p@); }
            push_unique(&mut out, p);
        },
        None => {},
    }
    match env_config {
        Some(p) => {
            let t = crate::text::str_trim(p.as_str()).to_owned();
            proof { lemma_dedup_push(taken, t@); taken = taken.push(t@); }
            push_unique(&mut out, t);
        },
        None => {},
    }
    match appdata_config {
        Some(p) => {
            proof { lemma_dedup_push(taken, p@); taken = taken.push(p@); }
            push_unique(&mut out, p);
        },
        None => {},
    }
    match exe_dir_config {
        Some(p) => {
            proof { lemma_dedup_push(taken, p@); taken = taken.push(p@); }
            push_unique(&mut out, p);
        },
        None => {},
    }
    proof {
        assert(taken =~= src);
    }
    out
}

proof fn lemma_dedup_push(s: Seq<Seq<char>>, x: Seq<char>)
    ensures
        dedup_paths(s.push(x)) == dedup_push(dedup_paths(s), x),
{
    assert(s.push(x).drop_last() =~= s);
}

/// What the configuration is loaded from.
#[derive(Debug, Clone, PartialEq, Eq)]
pub enum ConfigSource {
    /// Parse this file.
    File(String),
    /// No file: use [`Config::default`].
    Defaults,
}

/// The first candidate that exists, if any (`exists[i]` tells whether `paths[i]` does).
pub open spec fn first_existing(paths: Seq<Seq<char>>, exists: Seq<bool>) -> Option<Seq<char>>
    decreases exists.len(),
{
    if exists.len() == 0 || paths.len() == 0 {
        None
    } else if exists[0] {
        Some(paths[0])
    } else {
        first_existing(paths.drop_first(), exists.drop_first())
    }
}

/// Chooses the first existing file of the discovery list, else the defaults.
///
/// `exists[i]` tells whether `candidates[i]` exists on disk.
pub fn load_discovered(candidates: &Vec<String>, exists: &Vec<bool>) -> (r: ConfigSource)
    requires
        candidates.len() == exists.len(),
    ensures
        match first_existing(views(candidates@), exists@) {
            Some(p) => r matches ConfigSource::File(q) && q@ == p,
            None => r == ConfigSource::Defaults,
        },
{
    let ghost all = first_existing(views(candidates@), exists@);
    proof {
        assert(views(candidates@).skip(0) =~= views(candidates@));
        assert(exists@.skip(0) =~= exists@);
    }
    let mut i: usize = 0;
    while i < candidates.len()
        invariant
            candidates.len() == exists.len(),
            i <= candidates.len(),
            all == first_existing(views(candidates@), exists@),
            all == first_existing(views(candidates@).skip(i as int), exists@.skip(i as int)),
        decreases candidates.len() - i,
    {
        proof {
            assert(views(candidates@).skip(i as int)[0] == candidates@[i as int]@);
            assert(exists@.skip(i as int)[0] == exists@[i as int]);
        }
        if exists[i] {
            return ConfigSource::File(candidates[i].clone());
        }
        proof {
            assert(views(candidates@).skip(i as int).drop_first() =~= views(candidates@).skip(i as int + 1));
            assert(exists@.skip(i as int).drop_first() =~= exists@.skip(i as int + 1));
        }
        i += 1;
    }
    ConfigSource::Defaults
}

/// Like [`load_discovered`], but an explicit path that does not exist is an error.
///
/// `cli_exists` tells whether `cli` exists; `candidates`/`exists` are the discovery list
/// built without an explicit path.
pub fn load_for_startup(
    cli: Option<String>,
    cli_exists: bool,
    candidates: &Vec<String>,
    exists: &Vec<bool>,
) -> (r: Result<ConfigSource, NavConfigError>)
    requires
        candidates.len() == exists.len(),
    ensures
        match cli {
            Some(p) => if cli_exists {
                r == Ok::<ConfigSource, NavConfigError>(ConfigSource::File(p))
            } else {
                r matches Err(NavConfigError::IoRead(path, msg))
                    && path@ == p@ && msg@ == "config file not found"@
            },
            None => match first_existing(views(candidates@), exists@) {
                Some(q) => r matches Ok(ConfigSource::File(x)) && x@ == q,
                None => r == Ok::<ConfigSource, NavConfigError>(ConfigSource::Defaults),
            },
        },
{
    match cli {
        Some(p) => {
            if !cli_exists {
                return Err(NavConfigError::IoRead(p, "config file not found".to_owned()));
            }
            Ok(ConfigSource::File(p))
        },
        None => Ok(load_discovered(candidates, exists)),
    }
}

/// `c` separates path components: `/`, or the platform's own separator `sep`.
pub open spec fn is_path_sep(c: char, sep: char) -> bool {
    c == '/' || c == sep
}

/// The path `base` extended by the relative component `part`: the separator `sep` goes
/// between them unless `base` is empty or already ends in a separator (as
/// `PathBuf::join` does for a directory that is not a bare drive prefix).
pub open spec fn path_join_spec(base: Seq<char>, part: Seq<char>, sep: char) -> Seq<char> {
    if base.len() == 0 || is_path_sep(base.last(), sep) {
        base + part
    } else {
        base.push(sep) + part
    }
}

/// The per-user configuration file `Navigator/config.toml` under the
/// application-data directory `dir`.
pub open spec fn user_config_file_spec(dir: Seq<char>, sep: char) -> Seq<char> {
    path_join_spec(path_join_spec(dir, "Navigator"@, sep), "config.toml"@, sep)
}

/// `base` joined with the relative component `part` (see [`path_join_spec`]).
pub fn path_join(base: &str, part: &str, sep: char) -> (r: String)
    ensures
        r@ == path_join_spec(base@, part@, sep),
{
    let mut out = base.to_owned();
    let n = base.unicode_len();
    if n > 0 {
        let c = base.get_char(n - 1);
        if c != '/' && c != sep {
            string_push(&mut out, sep);
        }
    }
    out.append(part);
    out
}

/// The per-user configuration file `Navigator/config.toml` under the application-data
/// directory `appdata_dir`, with `sep` the platform's path separator.
pub fn user_config_file(appdata_dir: &str, sep: char) -> (r: String)
    ensures
        r@ == user_config_file_spec(appdata_dir@, sep),
{
    let dir = path_join(appdata_dir, "Navigator", sep);
    path_join(dir.as_str(), "config.toml", sep)
}

/// Path written by `--reset-config` when none is given: the per-user file
/// `Navigator/config.toml` under the application-data directory when that directory is
/// known, else `config.toml`.
pub fn default_user_config_path(appdata_dir: Option<String>, sep: char) -> (r: String)
    ensures
        match appdata_dir {
            Some(d) => r@ == user_config_file_spec(d@, sep),
            None => r@ == "config.toml"@,
        },
{
    match appdata_dir {
        Some(d) => user_config_file(d.as_str(), sep),
        None => "config.toml".to_owned(),
    }
}

/// The discovery list never names a file twice.
pub proof fn lemma_candidates_distinct(s: Seq<Seq<char>>)
    ensures
        dedup_paths(s).no_duplicates(),
    decreases s.len(),
{
    if s.len() > 0 {
        lemma_candidates_distinct(s.drop_last());
        let r = dedup_paths(s.drop_last());
        if !r.contains(s.last()) {
            assert forall|i: int, j: int| 0 <= i < j < r.push(s.last()).len() implies r.push(s.last())[i] != r.push(s.last())[j] by {
                if j == r.len() {
                    assert(r.push(s.last())[i] == r[i]);
                }
            }
        }
    }
}

/// The per-stage budgets of the default configuration are the enumeration defaults.
pub proof fn lemma_default_budgets_agree(c: Config, o: crate::uia_options::EnumOptions)
    requires
        c.is_default(),
        o.is_default(),
    ensures
        c.fallback.budget_ms.uia == o.budget_uia_ms,
        c.fallback.budget_ms.msaa == o.budget_msaa_ms,
        c.fallback.budget_ms.hwnd == o.budget_hwnd_ms,
        c.hints.max_elements == o.max_elements,
        c.hints.materialize_budget_ms == o.materialize_hard_budget_ms,
{
}

} // verus!
