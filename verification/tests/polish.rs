use cloche::polish::crop_frame_extents;
use cloche::polish::motif_from_name;
use cloche::polish::palette_catalog;
use cloche::polish::palette_names;
use cloche::polish::random_style;
use cloche::polish::scene_from_name;
use cloche::polish::style_from_seed;
use cloche::polish::style_from_seed_in_pool;
use cloche::polish::style_with_palette;
use cloche::polish::terrain_from_name;
use cloche::polish::terrain_names;
use cloche::polish::BackdropKind;
use cloche::polish::FrameExtents;
use cloche::polish::PALETTE_GLOW_A;
use cloche::polish::PALETTE_GLOW_B;
use cloche::polish::PALETTE_KINDS;
use cloche::polish::PALETTE_NAMES;
use cloche::polish::PALETTE_STOPS;
use cloche::rendezvous::pick_by_affinity;

fn space_names() -> Vec<&'static str> {
    PALETTE_NAMES
        .iter()
        .zip(PALETTE_KINDS.iter())
        .filter(|(_, kind)| **kind == BackdropKind::Space)
        .map(|(name, _)| *name)
        .collect()
}

#[test]
fn random_rotation_only_picks_space_palettes() {
    for seed in 0..64 {
        assert_eq!(
            style_from_seed(seed).backdrop,
            BackdropKind::Space,
            "seed {seed} left the space rotation"
        );
    }
}

#[test]
fn every_seed_palette_is_known() {
    for seed in 0..32 {
        let style = style_from_seed(seed);
        assert!(PALETTE_NAMES.iter().any(|name| *name == style.palette_name));
    }
}

#[test]
fn palette_names_match_palette_table() {
    let names = palette_names();
    assert_eq!(names.len(), PALETTE_NAMES.len());
    for name in &PALETTE_NAMES {
        assert!(names.contains(name));
    }
}

#[test]
fn style_with_palette_pins_the_named_palette() {
    let style = style_with_palette(9, "ember-glow").expect("known palette");
    assert_eq!(PALETTE_NAMES[1], "ember-glow");
    assert_eq!(style.palette_name, "ember-glow");
    assert_eq!(style.stops, PALETTE_STOPS[1]);
    assert_eq!(style.glow_a, PALETTE_GLOW_A[1]);
    assert_eq!(style.glow_b, PALETTE_GLOW_B[1]);
    // Everything except the palette still derives from the seed.
    let base = style_from_seed(9);
    assert_eq!(style.seed, base.seed);
}

#[test]
fn style_with_unknown_palette_returns_none() {
    assert!(style_with_palette(1, "hotdog-stand").is_none());
}

#[test]
fn empty_pools_reproduce_the_unconstrained_style() {
    for seed in 0..16 {
        let base = style_from_seed_in_pool(seed, &[], &[], &[], &[], &[]);
        let pooled = style_from_seed(seed);
        assert_eq!(pooled.palette_name, base.palette_name, "seed {seed}");
        assert_eq!(pooled.scene, None, "seed {seed}");
        assert_eq!(pooled.stops, base.stops, "seed {seed}");
    }
}

#[test]
fn palette_pool_confines_the_random_pick() {
    let pool = vec!["aurora-teal".to_string(), "lagoon-trifid".to_string()];
    let mut seen: Vec<String> = Vec::new();
    for seed in 0..64 {
        let style = style_from_seed_in_pool(seed, &pool, &[], &[], &[], &[]);
        assert!(
            pool.contains(&style.palette_name),
            "seed {seed} escaped the pool with {}",
            style.palette_name
        );
        if !seen.contains(&style.palette_name) {
            seen.push(style.palette_name.clone());
        }
    }
    assert_eq!(seen.len(), 2, "seen: {seen:?}");
}

#[test]
fn palette_pool_can_reach_gradient_palettes() {
    let pool = vec!["ember-glow".to_string()];
    let style = style_from_seed_in_pool(5, &pool, &[], &[], &[], &[]);
    assert_eq!(style.palette_name, "ember-glow");
    assert!(!style.is_space());
}

#[test]
fn scene_pool_pins_a_scene_from_the_pool() {
    let scenes = vec!["alma".to_string(), "veil".to_string()];
    let allowed = [scene_from_name("alma"), scene_from_name("veil")];
    for seed in 0..32 {
        let style = style_from_seed_in_pool(seed, &[], &scenes, &[], &[], &[]);
        assert!(allowed.contains(&style.scene), "seed {seed} produced {:?}", style.scene);
    }
}

#[test]
fn scene_pool_is_ignored_for_gradient_palettes() {
    let palettes = vec!["ember-glow".to_string()];
    let scenes = vec!["alma".to_string()];
    let style = style_from_seed_in_pool(3, &palettes, &scenes, &[], &[], &[]);
    assert_eq!(style.scene, None);
}

#[test]
fn unknown_pool_names_fall_back_to_the_default_pool() {
    let palettes = vec!["hotdog-stand".to_string()];
    let style = style_from_seed_in_pool(11, &palettes, &[], &[], &[], &[]);
    assert_eq!(style.palette_name, style_from_seed(11).palette_name);
    assert!(style.is_space());
}

#[test]
fn growing_the_table_leaves_most_seeds_alone() {
    let current: Vec<String> = space_names().into_iter().map(str::to_string).collect();
    let mut grown = current.clone();
    grown.push("a-brand-new-sky".to_string());

    let mut unchanged = 0;
    let total = 600;
    for seed in 0..total {
        let before = pick_by_affinity(seed, &current.iter().map(String::as_str).collect::<Vec<_>>());
        let after = pick_by_affinity(seed, &grown.iter().map(String::as_str).collect::<Vec<_>>());
        if before == after {
            unchanged += 1;
        }
    }
    assert!(
        unchanged as f64 / total as f64 > 0.85,
        "only {unchanged}/{total} seeds kept their palette"
    );
}

#[test]
fn affinity_selection_spreads_across_the_pool() {
    let names = space_names();
    let mut seen: Vec<&str> = Vec::new();
    for seed in 0..400 {
        let pick = pick_by_affinity(seed, &names).expect("pool");
        if !seen.contains(&pick) {
            seen.push(pick);
        }
    }
    assert_eq!(seen.len(), names.len(), "unreached: {:?}", names.len() - seen.len());
}

#[test]
fn every_space_palette_is_reachable_by_the_default_picker() {
    let expected = space_names();
    let mut seen: Vec<String> = Vec::new();
    for seed in 0..500 {
        let name = style_from_seed(seed).palette_name;
        if !seen.contains(&name) {
            seen.push(name);
        }
    }
    assert_eq!(seen.len(), expected.len(), "reached {seen:?}");
}

#[test]
fn a_motif_pool_confines_the_pick() {
    let motifs = vec!["plaid".to_string(), "grid".to_string()];
    let palettes = vec!["tartan-moss".to_string()];
    let allowed = [motif_from_name("plaid"), motif_from_name("grid")];
    for seed in 0..40 {
        let style = style_from_seed_in_pool(seed, &palettes, &[], &motifs, &[], &[]);
        assert!(allowed.contains(&style.motif), "seed {seed}: {:?}", style.motif);
    }
}

#[test]
fn a_motif_pool_is_ignored_for_non_pattern_palettes() {
    let motifs = vec!["plaid".to_string()];
    let palettes = vec!["orion-emission".to_string()];
    assert_eq!(style_from_seed_in_pool(3, &palettes, &[], &motifs, &[], &[]).motif, None);
}

#[test]
fn the_table_has_all_three_families() {
    let catalog = palette_catalog();
    for kind in ["gradient", "space", "pattern"] {
        let count = catalog.iter().filter(|(_, k)| *k == kind).count();
        assert!(count >= 5, "{kind} has only {count} palettes");
    }
}

#[test]
fn palette_catalog_labels_every_palette() {
    let catalog = palette_catalog();
    assert_eq!(catalog.len(), PALETTE_NAMES.len());
    for (name, kind) in &catalog {
        let index = PALETTE_NAMES
            .iter()
            .position(|palette| palette == name)
            .expect("catalog name is in the table");
        let expected = match PALETTE_KINDS[index] {
            BackdropKind::Gradient => "gradient",
            BackdropKind::Space => "space",
            BackdropKind::Pattern => "pattern",
            BackdropKind::Sky => "sky",
            BackdropKind::Terrain => "terrain",
        };
        assert_eq!(kind, &expected, "{name}");
    }
}

#[test]
fn terrain_names_lists_the_four_kinds() {
    assert_eq!(terrain_names(), vec!["dunes", "mesa", "badlands", "glacier"]);
}

#[test]
fn terrain_palettes_catalog_as_terrain() {
    let catalog = palette_catalog();
    for name in terrain_names() {
        let entry = catalog
            .iter()
            .find(|(palette, _)| *palette == name)
            .unwrap_or_else(|| panic!("terrain palette {name} missing from catalog"));
        assert_eq!(entry.1, "terrain", "palette {name} cataloged wrong");
    }
}

#[test]
fn random_rotation_never_picks_a_terrain_palette() {
    for seed in 0..64 {
        let style = style_from_seed(seed);
        assert!(!style.is_terrain(), "seed {seed} leaked a terrain palette into the space rotation");
    }
}

#[test]
fn terrain_pool_pins_only_terrain_kinds() {
    let terrains = vec!["dunes".to_string(), "mesa".to_string()];
    let palettes = vec!["dunes".to_string(), "mesa".to_string()];
    let allowed = [terrain_from_name("dunes"), terrain_from_name("mesa")];
    for seed in 0..40 {
        let style = style_from_seed_in_pool(seed, &palettes, &[], &[], &[], &terrains);
        assert!(allowed.contains(&style.terrain), "seed {seed} produced {:?}", style.terrain);
    }
}

#[test]
fn terrain_pool_is_ignored_for_non_terrain_palettes() {
    let palettes = vec!["ember-glow".to_string()];
    let terrains = vec!["dunes".to_string()];
    let style = style_from_seed_in_pool(3, &palettes, &[], &[], &[], &terrains);
    assert_eq!(style.terrain, None);
}

#[test]
fn random_style_stays_in_the_space_rotation() {
    let style = random_style();
    assert_eq!(style.backdrop, BackdropKind::Space);
    assert!(space_names().contains(&style.palette_name.as_str()));
}

#[test]
fn frame_extents_are_cut_from_every_side() {
    let extents = FrameExtents { left: 2, right: 3, top: 10, bottom: 4 };
    assert_eq!(crop_frame_extents(100, 80, extents), Some((2, 10, 95, 66)));
}

#[test]
fn a_frame_as_wide_as_the_capture_keeps_it_whole() {
    let extents = FrameExtents { left: 50, right: 50, top: 0, bottom: 0 };
    assert_eq!(crop_frame_extents(100, 80, extents), None);
    let tall = FrameExtents { left: 0, right: 0, top: 40, bottom: 41 };
    assert_eq!(crop_frame_extents(100, 80, tall), None);
}

#[test]
fn frame_sums_saturate_instead_of_wrapping() {
    let extents = FrameExtents { left: u32::MAX, right: 2, top: 0, bottom: 0 };
    assert_eq!(crop_frame_extents(100, 80, extents), None);
}

#[test]
fn a_random_style_is_reproduced_by_its_seed() {
    for _ in 0..16 {
        let style = random_style();
        let again = style_from_seed(style.seed);
        assert_eq!(again.palette_name, style.palette_name);
        assert_eq!(again.stops, style.stops);
        assert_eq!(again.glow_a, style.glow_a);
        assert_eq!(again.glow_b, style.glow_b);
        assert!(style.scene.is_none() && style.motif.is_none() && style.sky.is_none() && style.terrain.is_none());
    }
}
