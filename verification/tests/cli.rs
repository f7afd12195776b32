use cloche::cli::capture_ok;
use cloche::cli::card_outcome;
use cloche::cli::clipboard_warning;
use cloche::cli::default_card_path;
use cloche::cli::default_reel_props_path;
use cloche::cli::image_info;
use cloche::cli::pick_preview_image;
use cloche::cli::postprocess_capture;
use cloche::cli::resolve_reel_style;
use cloche::cli::PostStep;
use cloche::cli::ReelRenderEngine;
use cloche::contract::ImageDetail;
use cloche::polish;
use cloche::config::polish_style;
use cloche::config::PolishMode;
use cloche::config::PolishPrefs;
use cloche::cli::polish_card_path;
use cloche::cli::clipboard_image;
use cloche::cli::PresentationMode;
use cloche::cli::capture_files;

#[test]
fn capture_publishes_clipboard_before_best_effort_text_extraction() {
    let steps = postprocess_capture(true, true);
    assert_eq!(steps, vec![PostStep::CopyPng, PostStep::ExtractText]);
    let mut warnings = Vec::new();
    for step in &steps {
        if let Some(w) = clipboard_warning(*step, Ok(())) {
            warnings.push(w);
        }
    }
    assert!(warnings.is_empty());
}

#[test]
fn a_capture_without_an_image_only_warns() {
    assert_eq!(postprocess_capture(true, false), vec![PostStep::WarnNoImage]);
    assert_eq!(postprocess_capture(false, false), Vec::<PostStep>::new());
    assert_eq!(
        clipboard_warning(PostStep::WarnNoImage, Ok(())).as_deref(),
        Some("Clipboard copy skipped: no image was captured.")
    );
    assert_eq!(
        clipboard_warning(PostStep::CopyPng, Err("no helper".to_string())).as_deref(),
        Some("Clipboard copy failed: no helper")
    );
}

#[test]
fn default_card_path_appends_card_suffix() {
    assert_eq!(default_card_path("/tmp/example/shot.png"), "/tmp/example/shot-card.png");
    assert_eq!(default_card_path("diff.jpg"), "diff-card.png");
    assert_eq!(default_card_path("/tmp/noext"), "/tmp/noext-card.png");
}

#[test]
fn reel_props_sit_next_to_the_output() {
    assert_eq!(default_reel_props_path("/tmp/reel.mp4"), "/tmp/reel.remotion-props.json");
}

#[test]
fn previews_prefer_the_card_unless_raw_is_asked() {
    let raw = image_info("/tmp/a.png".to_string(), 10, Some((4, 3)), ImageDetail::Original);
    let card = image_info("/tmp/a-card.png".to_string(), 20, None, ImageDetail::High);
    assert_eq!(raw.width, Some(4));
    assert_eq!(card.height, None);
    assert_eq!(card.mime, "image/png");
    assert_eq!(pick_preview_image(false, Some(&raw), Some(&card)).unwrap(), "/tmp/a-card.png");
    assert_eq!(pick_preview_image(true, Some(&raw), Some(&card)).unwrap(), "/tmp/a.png");
    assert_eq!(pick_preview_image(false, Some(&raw), None).unwrap(), "/tmp/a.png");
    assert_eq!(
        pick_preview_image(true, None, Some(&card)).unwrap_err(),
        "capture does not include a raw image"
    );
    assert_eq!(pick_preview_image(false, None, None).unwrap_err(), "capture does not include an image");
}

#[test]
fn reel_styles_follow_seed_and_palette() {
    let pinned = resolve_reel_style(Some(4), Some("ember-glow"));
    assert_eq!(pinned.seed, 4);
    assert_eq!(pinned.palette_name, "ember-glow");
    let seeded = resolve_reel_style(Some(4), Some("hotdog-stand"));
    assert_eq!(seeded.palette_name, polish::style_from_seed(4).palette_name);
    let fresh = resolve_reel_style(None, Some("aurora-teal"));
    assert_eq!(fresh.palette_name, "aurora-teal");
    assert_eq!(ReelRenderEngine::Hyperframes.name(), "hyperframes");
}

#[test]
fn a_capture_names_its_files_after_the_stem() {
    let both = capture_files("cloche-shot-1", PresentationMode::Both);
    assert_eq!(both.raw, "cloche-shot-1.raw.png");
    assert_eq!(both.card.as_deref(), Some("cloche-shot-1.png"));
    assert_eq!(both.metadata, "cloche-shot-1.json");
    assert_eq!(both.text, "cloche-shot-1.txt");
    let raw = capture_files("s", PresentationMode::Raw);
    assert_eq!(raw.raw, "s.png");
    assert!(raw.card.is_none());
}

#[test]
fn the_clipboard_gets_the_card_when_there_is_one() {
    let raw = image_info("/tmp/a.raw.png".to_string(), 1, None, ImageDetail::High);
    let card = image_info("/tmp/a.png".to_string(), 1, None, ImageDetail::High);
    assert_eq!(clipboard_image(Some(&card), Some(&raw)).as_deref(), Some("/tmp/a.png"));
    assert_eq!(clipboard_image(None, Some(&raw)).as_deref(), Some("/tmp/a.raw.png"));
    assert_eq!(clipboard_image(None, None), None);
}

#[test]
fn polish_rejects_non_png_output() {
    assert_eq!(polish_card_path("/tmp/in/shot.png", None).unwrap(), "/tmp/in/shot-card.png");
    assert_eq!(polish_card_path("/tmp/in/shot.jpg", Some("/tmp/out/card.png")).unwrap(), "/tmp/out/card.png");
    let err = polish_card_path("/tmp/in/shot.png", Some("/tmp/out/card.jpg")).unwrap_err();
    assert_eq!(err, "output path /tmp/out/card.jpg must end in .png; cards are always PNG");
}

#[test]
fn polish_honors_palette_and_seed() {
    let prefs = PolishPrefs::default();
    let mut warnings = Vec::new();
    let style = polish_style(&prefs, Some(12), Some("aurora-teal"), &mut warnings).expect("known palette");
    assert_eq!(style.palette_name, "aurora-teal");
    assert_eq!(style.seed, 12);
    assert_eq!(
        polish_style(&prefs, Some(12), Some("hotdog-stand"), &mut warnings).unwrap_err(),
        "unknown palette: hotdog-stand"
    );
    let style = polish_style(&prefs, Some(12), None, &mut warnings).unwrap();
    assert_eq!(style.palette_name, polish::style_from_seed(12).palette_name);
    assert!(warnings.is_empty());
}

#[test]
fn polish_reads_the_pinned_palette_without_flags() {
    let prefs = PolishPrefs {
        mode: PolishMode::Pinned,
        palette: Some("violet-haze".to_string()),
        ..PolishPrefs::default()
    };
    let mut warnings = Vec::new();
    let style = polish_style(&prefs, Some(7), None, &mut warnings).expect("pinned palette");
    assert_eq!(style.palette_name, "violet-haze");
    assert_eq!(style.seed, 7);
    let flagged = polish_style(&prefs, Some(7), Some("aurora-teal"), &mut warnings).expect("flag");
    assert_eq!(flagged.palette_name, "aurora-teal");
    assert!(warnings.is_empty());
}

#[test]
fn a_capture_succeeds_on_its_raw_image_alone() {
    assert!(capture_ok(true, &Vec::new()));
    assert!(!capture_ok(false, &Vec::new()));
    assert!(!capture_ok(true, &vec!["backend failed".to_string()]));
}

#[test]
fn a_failed_card_is_only_a_warning() {
    let warning = card_outcome(Err("disk full".to_string())).unwrap_err();
    assert_eq!(warning, "Codex-style presentation image could not be created: disk full");
    let info = image_info("/tmp/c.png".to_string(), 10, Some((4, 2)), ImageDetail::High);
    assert_eq!(card_outcome(Ok(info)).unwrap().path, "/tmp/c.png");
}
