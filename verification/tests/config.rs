use navigator::config::{
    alphabet_chars, default_user_config_path, discovery_candidates, load_discovered, load_for_startup, Config,
    ConfigSource, HintsConfig, user_config_file,
};
use navigator::error::NavConfigError;
use navigator::startup::{build_enum_opts, effective_log_level, parse_enumeration_ladder, parse_enumeration_profile, CliSnapshot};
use navigator::uia_options::{
    EnumOptions, EnumerationProfile, EnumerationStrategyMode, FallbackPolicy, M9_DEFAULT_BUDGET_HWND_MS,
    M9_DEFAULT_BUDGET_MSAA_MS, M9_DEFAULT_BUDGET_UIA_MS,
};

#[test]
fn m9_config_defaults_match_nav_config_seed() {
    let o = EnumOptions::default();
    assert_eq!(o.budget_uia_ms, M9_DEFAULT_BUDGET_UIA_MS);
    assert_eq!(o.budget_msaa_ms, M9_DEFAULT_BUDGET_MSAA_MS);
    assert_eq!(o.budget_hwnd_ms, M9_DEFAULT_BUDGET_HWND_MS);
    assert_eq!(M9_DEFAULT_BUDGET_UIA_MS, 25);
    assert_eq!(M9_DEFAULT_BUDGET_MSAA_MS, 8);
    assert_eq!(M9_DEFAULT_BUDGET_HWND_MS, 5);
}

#[test]
fn config_defaults_match_documented_seeds() {
    let c = Config::default();
    assert_eq!(c.hints.alphabet, "sadfjklewcmpgh");
    assert_eq!(c.hints.max_elements, 2048);
    assert_eq!(c.hints.enumeration_profile, "fast");
    assert_eq!(c.hints.materialize_budget_ms, 30);
    assert_eq!(c.hints.enumeration_ladder, "auto");
    assert_eq!(c.hints.hint_cache_ttl_ms, 1000);
    assert_eq!(c.hints.pipeline_soft_budget_ms, 25);
    assert_eq!(c.hints.pipeline_hard_budget_ms, 30);
    assert_eq!(c.hints.planner_label_cap, 60);
    assert_eq!(c.hotkey.chord, "alt+/");
    assert!(c.log.level.is_none());
    assert!(!c.render.debug_connectors && !c.render.debug_target_dot);
    assert!(!c.render.debug_target_rect && !c.render.debug_distance);
    assert_eq!(c.fallback.budget_ms.uia, 25);
    assert_eq!(c.fallback.budget_ms.msaa, 8);
    assert_eq!(c.fallback.budget_ms.hwnd, 5);
}

#[test]
fn alphabet_chars_drops_white_space_in_order() {
    let mut c = Config::default();
    c.hints.alphabet = " a s\td\u{3000}f\n".to_string();
    assert_eq!(alphabet_chars(&c), vec!['a', 's', 'd', 'f']);
    let d = Config::default();
    assert_eq!(alphabet_chars(&d).len(), 14);
}

#[test]
fn discovery_lists_each_candidate_once_in_order() {
    let r = discovery_candidates(
        Some("C:\\cfg.toml".to_string()),
        Some("  C:\\cfg.toml \n".to_string()),
        Some("C:\\Users\\u\\AppData\\Roaming\\Navigator\\config.toml".to_string()),
        Some("C:\\bin\\config.toml".to_string()),
    );
    assert_eq!(
        r,
        vec![
            "C:\\cfg.toml".to_string(),
            "C:\\Users\\u\\AppData\\Roaming\\Navigator\\config.toml".to_string(),
            "C:\\bin\\config.toml".to_string(),
        ]
    );
    let none = discovery_candidates(None, None, None, None);
    assert!(none.is_empty());
}

#[test]
fn load_discovered_takes_first_existing() {
    let c = vec!["a".to_string(), "b".to_string(), "c".to_string()];
    assert_eq!(load_discovered(&c, &vec![false, true, true]), ConfigSource::File("b".to_string()));
    assert_eq!(load_discovered(&c, &vec![false, false, false]), ConfigSource::Defaults);
}

#[test]
fn load_for_startup_missing_explicit_path_is_io_read_error() {
    let r = load_for_startup(Some("x.toml".to_string()), false, &vec![], &vec![]);
    match r {
        Err(NavConfigError::IoRead(p, m)) => {
            assert_eq!(p, "x.toml");
            assert_eq!(m, "config file not found");
        }
        other => panic!("unexpected {other:?}"),
    }
    let ok = load_for_startup(Some("x.toml".to_string()), true, &vec![], &vec![]);
    assert!(matches!(ok, Ok(ConfigSource::File(p)) if p == "x.toml"));
    let disc = load_for_startup(None, false, &vec!["d".to_string()], &vec![true]);
    assert!(matches!(disc, Ok(ConfigSource::File(p)) if p == "d"));
}

#[test]
fn default_user_config_path_falls_back_to_cwd_file() {
    assert_eq!(default_user_config_path(None, '\\'), "config.toml");
    assert_eq!(
        default_user_config_path(Some("C:\\Users\\a\\AppData\\Roaming".to_string()), '\\'),
        "C:\\Users\\a\\AppData\\Roaming\\Navigator\\config.toml"
    );
}

#[test]
fn user_config_file_adds_no_second_separator() {
    assert_eq!(user_config_file("D:\\data\\", '\\'), "D:\\data\\Navigator\\config.toml");
    assert_eq!(user_config_file("/home/a/", '/'), "/home/a/Navigator/config.toml");
    assert_eq!(user_config_file("/home/a", '/'), "/home/a/Navigator/config.toml");
    assert_eq!(user_config_file("", '/'), "Navigator/config.toml");
}

#[test]
fn enumeration_words_parse_case_and_space_insensitively() {
    assert_eq!(parse_enumeration_profile("  FULL "), EnumerationProfile::Full);
    assert_eq!(parse_enumeration_profile("fast"), EnumerationProfile::Fast);
    assert_eq!(parse_enumeration_profile("fuller"), EnumerationProfile::Fast);
    assert_eq!(parse_enumeration_ladder("Win32"), EnumerationStrategyMode::Win32First);
    assert_eq!(parse_enumeration_ladder(" hwnd_first"), EnumerationStrategyMode::Win32First);
    assert_eq!(parse_enumeration_ladder("UIA"), EnumerationStrategyMode::UiaFirst);
    assert_eq!(parse_enumeration_ladder("electron"), EnumerationStrategyMode::ChromiumFast);
    assert_eq!(parse_enumeration_ladder("whatever"), EnumerationStrategyMode::Auto);
}

#[test]
fn build_enum_opts_takes_config_and_switches() {
    let mut c = Config::default();
    c.hints = HintsConfig {
        max_elements: 77,
        enumeration_profile: "full".to_string(),
        materialize_budget_ms: 9,
        enumeration_ladder: "chromium".to_string(),
        ..HintsConfig::default()
    };
    c.fallback.budget_ms.uia = 1;
    c.fallback.budget_ms.msaa = 2;
    c.fallback.budget_ms.hwnd = 3;
    let o = build_enum_opts(&c, &CliSnapshot { debug_uia: true, debug_overlay: false });
    assert_eq!(o.max_elements, 77);
    assert_eq!(o.profile, EnumerationProfile::Full);
    assert_eq!(o.materialize_hard_budget_ms, 9);
    assert_eq!(o.strategy_mode, EnumerationStrategyMode::ChromiumFast);
    assert_eq!((o.budget_uia_ms, o.budget_msaa_ms, o.budget_hwnd_ms), (1, 2, 3));
    assert!(o.debug_uia && !o.debug_overlay);
    assert_eq!(o.fallback, FallbackPolicy::Auto);
    assert_eq!(o.uia_shallow_min_targets, 8);
    assert_eq!(o.explorer_enrich_materialize_budget_ms, 28);
}

#[test]
fn command_line_log_level_wins() {
    let mut c = Config::default();
    assert_eq!(effective_log_level(None, &c), None);
    c.log.level = Some("debug".to_string());
    assert_eq!(effective_log_level(None, &c), Some("debug".to_string()));
    assert_eq!(effective_log_level(Some("warn".to_string()), &c), Some("warn".to_string()));
}

#[test]
fn user_config_file_matches_path_join_on_this_platform() {
    let dir = std::path::PathBuf::from("base").join("dir");
    let joined = dir.join("Navigator").join("config.toml");
    assert_eq!(
        user_config_file(&dir.display().to_string(), std::path::MAIN_SEPARATOR),
        joined.display().to_string()
    );
}
