use cloche::config::PolishPrefs;
use cloche::polish;
use cloche::studio::check_prefs;
use cloche::studio::failure_status;
use cloche::studio::header_value;
use cloche::studio::parse_request_line;
use cloche::studio::percent_decode;
use cloche::studio::query_get;
use cloche::studio::reason;
use cloche::studio::route;
use cloche::studio::size_param;
use cloche::studio::style_from_query;
use cloche::studio::style_options;
use cloche::studio::Endpoint;
use cloche::studio::MAX_SIZE;
use cloche::studio::MIN_SIZE;

#[test]
fn an_empty_connection_is_not_an_error() {
    assert!(parse_request_line("").is_none());
}

#[test]
fn request_line_splits_path_from_query() {
    let (method, path, query) =
        parse_request_line("GET /api/backdrop?palette=jwst&w=10 HTTP/1.1\r\n").expect("parsed");
    assert_eq!(method, "GET");
    assert_eq!(path, "/api/backdrop");
    assert_eq!(query, "palette=jwst&w=10");
}

#[test]
fn request_line_without_a_query_is_still_valid() {
    let (_, path, query) = parse_request_line("GET / HTTP/1.1\r\n").expect("parsed");
    assert_eq!(path, "/");
    assert_eq!(query, "");
}

#[test]
fn garbage_request_line_is_rejected() {
    assert!(parse_request_line("").is_none());
    assert!(parse_request_line("GET\r\n").is_none());
}

#[test]
fn header_lookup_ignores_case_and_whitespace() {
    assert_eq!(header_value("Content-Length: 42\r\n", "content-length"), Some("42"));
    assert_eq!(header_value("content-length:7\r\n", "content-length"), Some("7"));
    assert_eq!(header_value("Host: x\r\n", "content-length"), None);
}

#[test]
fn query_values_are_percent_decoded() {
    assert_eq!(query_get("scene=deep%2Dfield", "scene").as_deref(), Some("deep-field"));
    assert_eq!(query_get("a=1&b=2", "b").as_deref(), Some("2"));
    assert_eq!(query_get("a=&b=2", "a"), None, "empty value reads as absent");
    assert_eq!(query_get("a=1", "missing"), None);
}

#[test]
fn percent_decoding_handles_plus_and_bad_escapes() {
    assert_eq!(percent_decode("a+b"), "a b");
    assert_eq!(percent_decode("100%"), "100%");
    assert_eq!(percent_decode("%zz"), "%zz");
    assert_eq!(percent_decode("%41%42"), "AB");
    assert_eq!(percent_decode("%C3%A9"), "\u{e9}");
    assert_eq!(percent_decode("%FF"), "\u{fffd}");
}

#[test]
fn sizes_are_clamped_so_a_query_string_cannot_ask_for_a_huge_render() {
    assert_eq!(size_param("w=999999", "w", 320), MAX_SIZE);
    assert_eq!(size_param("w=1", "w", 320), MIN_SIZE);
    assert_eq!(size_param("w=not-a-number", "w", 320), 320);
    assert_eq!(size_param("", "w", 320), 320);
    assert_eq!(size_param("w=640", "w", 320), 640);
}

#[test]
fn unknown_paths_and_methods_are_refused() {
    assert_eq!(route("GET", "/nope").status, 404);
    assert_eq!(route("DELETE", "/api/config").status, 405);
}

#[test]
fn every_endpoint_is_routed() {
    let page = route("GET", "/");
    assert_eq!(page.endpoint, Endpoint::Page);
    assert_eq!(page.status, 200);
    assert_eq!(page.content_type, "text/html; charset=utf-8");
    assert_eq!(route("GET", "/api/state").endpoint, Endpoint::State);
    assert_eq!(route("POST", "/api/config").endpoint, Endpoint::SaveConfig);
    assert_eq!(route("GET", "/api/config").endpoint, Endpoint::NotFound);
    assert_eq!(route("GET", "/api/backdrop").content_type, "image/png");
    assert_eq!(failure_status(Endpoint::Card), 404);
    assert_eq!(failure_status(Endpoint::SaveConfig), 400);
    assert_eq!(reason(431), "Request Header Fields Too Large");
    assert_eq!(reason(500), "Error");
}

#[test]
fn a_motif_is_ignored_on_a_non_pattern_palette() {
    let style = style_from_query("palette=orion-emission&motif=plaid&seed=1");
    assert_eq!(style.motif, None);
    let woven = style_from_query("palette=tartan-moss&motif=plaid&seed=1");
    assert_eq!(woven.motif, polish::motif_from_name("plaid"));
}

#[test]
fn a_scene_is_ignored_on_a_gradient_palette() {
    let style = style_from_query("palette=ember-glow&scene=jwst&seed=1");
    assert_eq!(style.scene, None);
    let space = style_from_query("palette=orion-emission&scene=jwst&seed=1");
    assert_eq!(space.scene, polish::scene_from_name("jwst"));
}

#[test]
fn a_terrain_is_ignored_on_a_non_terrain_palette() {
    let style = style_from_query("palette=ember-glow&terrain=dunes&seed=1");
    assert_eq!(style.terrain, None);
    let terrain = style_from_query("palette=dunes&terrain=mesa&seed=1");
    assert_eq!(terrain.terrain, polish::terrain_from_name("mesa"));
}

#[test]
fn backdrop_endpoint_honors_the_palette() {
    let a = style_from_query("palette=ember-glow&seed=3&w=24&h=18");
    let b = style_from_query("palette=aurora-teal&seed=3&w=24&h=18");
    assert_eq!(a.palette_name, "ember-glow");
    assert_eq!(b.palette_name, "aurora-teal");
    assert_ne!(a.stops, b.stops);
    assert_eq!(size_param("palette=ember-glow&seed=3&w=24&h=18", "w", 320), 24);
    assert_eq!(size_param("palette=ember-glow&seed=3&w=24&h=18", "h", 240), 18);
}

#[test]
fn a_query_without_a_known_palette_follows_the_seed() {
    let style = style_from_query("palette=hotdog-stand&seed=5");
    assert_eq!(style.seed, 5);
    assert_eq!(style.palette_name, polish::style_from_seed(5).palette_name);
    assert_eq!(style_from_query("").seed, 0);
}

#[test]
fn posting_an_unknown_motif_is_refused() {
    let prefs = PolishPrefs { motifs: vec!["paisley".to_string()], ..PolishPrefs::default() };
    let err = check_prefs(&prefs).expect_err("rejected");
    assert!(err.contains("paisley"), "{err}");
}

#[test]
fn posting_an_unknown_name_is_refused_before_it_reaches_the_config() {
    let prefs = PolishPrefs { palettes: vec!["hotdog-stand".to_string()], ..PolishPrefs::default() };
    let err = check_prefs(&prefs).expect_err("rejected");
    assert!(err.contains("hotdog-stand"), "{err}");
    let prefs = PolishPrefs { scene: Some("not-a-scene".to_string()), ..PolishPrefs::default() };
    let err = check_prefs(&prefs).expect_err("rejected");
    assert!(err.contains("not-a-scene"), "{err}");
}

#[test]
fn posting_an_unknown_terrain_is_refused() {
    let prefs = PolishPrefs { terrains: vec!["butte".to_string()], ..PolishPrefs::default() };
    let err = check_prefs(&prefs).expect_err("rejected");
    assert_eq!(err, "unknown terrain: butte");
}

#[test]
fn known_preferences_are_accepted() {
    let prefs = PolishPrefs {
        palettes: vec!["aurora-teal".to_string()],
        palette: Some("ember-glow".to_string()),
        scenes: vec!["jwst".to_string()],
        terrain: Some("mesa".to_string()),
        ..PolishPrefs::default()
    };
    assert!(check_prefs(&prefs).is_ok());
}

#[test]
fn state_reports_the_menu_the_page_needs() {
    let options = style_options();
    assert_eq!(options.palettes.len(), polish::palette_names().len());
    assert_eq!(options.scenes.len(), polish::scene_names().len());
}

#[test]
fn state_reports_the_terrain_menu() {
    let options = style_options();
    assert_eq!(options.terrains.len(), polish::terrain_names().len());
    assert_eq!(options.palettes[1].name, "ember-glow");
}

#[test]
fn the_page_is_served_at_the_root() {
    let response = route("GET", "/");
    assert_eq!(response.status, 200);
    assert_eq!(response.content_type, "text/html; charset=utf-8");
    assert_eq!(response.endpoint, Endpoint::Page);
}
