use cloche::config::keep_known;
use cloche::config::loaded_config;
use cloche::config::ConfigFile;
use cloche::config::resolve_path;
use cloche::config::resolve_style;
use cloche::config::PolishMode;
use cloche::config::PolishPrefs;
use cloche::polish;

fn pinned(palette: Option<&str>, scene: Option<&str>) -> PolishPrefs {
    PolishPrefs {
        mode: PolishMode::Pinned,
        palette: palette.map(str::to_string),
        scene: scene.map(str::to_string),
        ..PolishPrefs::default()
    }
}

#[test]
fn explicit_env_path_wins_over_config_home() {
    let path = resolve_path(
        Some("/tmp/pinned.json".to_string()),
        Some("/tmp/xdg".to_string()),
        "/home/someone".to_string(),
    );
    assert_eq!(path, "/tmp/pinned.json");
}

#[test]
fn config_home_is_used_before_the_home_fallback() {
    let with_home = resolve_path(None, Some("/tmp/xdg".to_string()), "/home/x".to_string());
    assert_eq!(with_home, "/tmp/xdg/cloche/config.json");
    let without = resolve_path(None, None, "/home/x".to_string());
    assert_eq!(without, "/home/x/.config/cloche/config.json");
}

#[test]
fn flag_palette_beats_a_pinned_config_palette() {
    let mut warnings = Vec::new();
    let style = resolve_style(
        &pinned(Some("violet-haze"), None),
        Some(7),
        Some("aurora-teal"),
        None,
        &mut warnings,
    );
    assert_eq!(style.palette_name, "aurora-teal");
    assert!(warnings.is_empty(), "warnings: {warnings:?}");
}

#[test]
fn pinned_config_palette_applies_without_any_flag() {
    let mut warnings = Vec::new();
    let style = resolve_style(&pinned(Some("violet-haze"), None), Some(7), None, None, &mut warnings);
    assert_eq!(style.palette_name, "violet-haze");
    assert!(warnings.is_empty(), "warnings: {warnings:?}");
}

#[test]
fn random_mode_ignores_the_pinned_palette() {
    let prefs = PolishPrefs {
        palette: Some("violet-haze".to_string()),
        ..PolishPrefs::default()
    };
    let mut warnings = Vec::new();
    let style = resolve_style(&prefs, Some(7), None, None, &mut warnings);
    assert_eq!(style.palette_name, polish::style_from_seed(7).palette_name);
    assert!(warnings.is_empty(), "warnings: {warnings:?}");
}

#[test]
fn random_pool_narrows_the_picker_across_seeds() {
    let prefs = PolishPrefs {
        palettes: vec!["aurora-teal".to_string(), "orion-emission".to_string()],
        ..PolishPrefs::default()
    };
    for seed in 0..40u64 {
        let mut warnings = Vec::new();
        let style = resolve_style(&prefs, Some(seed), None, None, &mut warnings);
        assert!(
            prefs.palettes.contains(&style.palette_name),
            "seed {seed} escaped the pool with {}",
            style.palette_name
        );
    }
}

#[test]
fn pinned_config_scene_applies_and_is_kept_off_gradients() {
    let mut warnings = Vec::new();
    let space = resolve_style(
        &pinned(Some("orion-emission"), Some("jwst")),
        Some(7),
        None,
        None,
        &mut warnings,
    );
    assert_eq!(space.scene, polish::scene_from_name("jwst"));
    assert!(warnings.is_empty(), "warnings: {warnings:?}");

    let mut warnings = Vec::new();
    let gradient = resolve_style(
        &pinned(Some("aurora-teal"), Some("jwst")),
        Some(7),
        None,
        None,
        &mut warnings,
    );
    assert_eq!(gradient.scene, None);
    assert_eq!(warnings.len(), 1, "warnings: {warnings:?}");
    assert!(warnings[0].contains("not a space scene"));
}

#[test]
fn unknown_pool_names_are_reported_and_dropped() {
    let prefs = PolishPrefs {
        palettes: vec!["orion-emission".to_string(), "not-a-palette".to_string()],
        scenes: vec!["not-a-scene".to_string()],
        ..PolishPrefs::default()
    };
    let mut warnings = Vec::new();
    let style = resolve_style(&prefs, Some(7), None, None, &mut warnings);
    assert_eq!(style.palette_name, "orion-emission");
    assert_eq!(warnings.len(), 2, "warnings: {warnings:?}");
    assert!(warnings.iter().any(|w| w.contains("not-a-palette")));
    assert!(warnings.iter().any(|w| w.contains("not-a-scene")));
}

#[test]
fn duplicate_pool_entries_do_not_skew_the_draw() {
    let known = ["aurora-teal", "orion-emission"];
    let values = vec![
        "aurora-teal".to_string(),
        "aurora-teal".to_string(),
        "orion-emission".to_string(),
    ];
    let mut warnings = Vec::new();
    let kept = keep_known(&values, &known, "palette", &mut warnings);
    assert_eq!(kept, vec!["aurora-teal", "orion-emission"]);
    assert!(warnings.is_empty(), "warnings: {warnings:?}");
}

#[test]
fn default_prefs_are_random_and_empty() {
    let prefs = PolishPrefs::default();
    assert_eq!(prefs.mode, PolishMode::Random);
    assert!(prefs.palette.is_none() && prefs.scenes.is_empty());
}

#[test]
fn pinned_motif_and_sky_pools_stay_on_their_families() {
    let prefs = PolishPrefs {
        palettes: vec!["tartan-moss".to_string()],
        motifs: vec!["plaid".to_string()],
        ..PolishPrefs::default()
    };
    let mut warnings = Vec::new();
    let style = resolve_style(&prefs, Some(3), None, None, &mut warnings);
    assert_eq!(style.palette_name, "tartan-moss");
    assert_eq!(style.motif, polish::motif_from_name("plaid"));
    assert!(warnings.is_empty(), "warnings: {warnings:?}");
}

#[test]
fn missing_file_loads_defaults_without_warning() {
    let (config, warnings) = loaded_config("/nonexistent/cloche/config.json", ConfigFile::Missing);
    assert_eq!(config.polish.mode, PolishMode::Random);
    assert!(config.polish.palette.is_none() && config.polish.palettes.is_empty());
    assert!(warnings.is_empty(), "warnings: {warnings:?}");
}

#[test]
fn malformed_file_warns_and_falls_back_to_defaults() {
    let (config, warnings) =
        loaded_config("/tmp/c.json", ConfigFile::Malformed("expected value at line 1".to_string()));
    assert_eq!(config.polish.mode, PolishMode::Random);
    assert_eq!(warnings.len(), 1, "warnings: {warnings:?}");
    assert!(warnings[0].contains("using defaults"));
    let (_, warnings) = loaded_config("/tmp/c.json", ConfigFile::Unreadable("denied".to_string()));
    assert_eq!(warnings, vec!["config /tmp/c.json could not be read: denied".to_string()]);
}

#[test]
fn parsed_preferences_are_kept() {
    let prefs = pinned(Some("violet-haze"), None);
    let (config, warnings) = loaded_config(
        "/tmp/c.json",
        ConfigFile::Parsed(cloche::config::ClocheConfig { polish: prefs }),
    );
    assert_eq!(config.polish.palette.as_deref(), Some("violet-haze"));
    assert!(warnings.is_empty());
}
