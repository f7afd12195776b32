use cloche::pattern::MotifKind;
use cloche::sky::SkyKind;
use cloche::space::SceneKind;
use cloche::terrain::badlands_ridge_count;
use cloche::terrain::mesa_lane_count;
use cloche::terrain::TerrainKind;

#[test]
fn pattern_every_name_round_trips() {
    assert_eq!(MotifKind::NAMES.len(), MotifKind::all().len());
    for name in MotifKind::NAMES {
        assert!(MotifKind::from_name(name).is_some(), "{name}");
    }
    assert!(MotifKind::from_name("houndstooth-ish").is_none());
}

#[test]
fn sky_every_name_round_trips() {
    for name in SkyKind::NAMES {
        assert!(SkyKind::from_name(name).is_some(), "{name} did not parse");
    }
}

#[test]
fn sky_unknown_name_is_rejected() {
    assert_eq!(SkyKind::from_name("mackeral"), None);
    assert_eq!(SkyKind::from_name(""), None);
}

#[test]
fn sky_names_are_unique() {
    let mut seen: Vec<&str> = Vec::new();
    for name in SkyKind::NAMES {
        assert!(!seen.contains(&name), "duplicate name {name}");
        seen.push(name);
    }
}

#[test]
fn scene_names_round_trip() {
    for name in SceneKind::NAMES {
        assert!(SceneKind::from_name(name).is_some(), "{name} did not parse");
    }
    assert!(SceneKind::from_name("nope").is_none());
}

#[test]
fn terrain_every_name_round_trips() {
    for name in TerrainKind::NAMES {
        assert!(TerrainKind::from_name(name).is_some(), "{name} did not parse");
    }
}

#[test]
fn terrain_unknown_name_is_rejected() {
    assert_eq!(TerrainKind::from_name("butte"), None);
    assert_eq!(TerrainKind::from_name(""), None);
}

#[test]
fn terrain_names_are_unique() {
    let mut seen: Vec<&str> = Vec::new();
    for name in TerrainKind::NAMES {
        assert!(!seen.contains(&name), "duplicate name {name}");
        seen.push(name);
    }
}

#[test]
fn a_name_parses_back_to_its_kind() {
    assert_eq!(TerrainKind::from_name("mesa"), Some(TerrainKind::Mesa));
    assert_eq!(SkyKind::from_name("mammatus"), Some(SkyKind::Mammatus));
    assert_eq!(MotifKind::from_name("plaid"), Some(MotifKind::Plaid));
}

#[test]
fn seeded_counts_stay_in_their_ranges() {
    let mut lanes = Vec::new();
    let mut ridges = Vec::new();
    for seed in 0..200u64 {
        let l = mesa_lane_count(seed);
        let r = badlands_ridge_count(seed);
        assert!((2..=3).contains(&l), "seed {seed}: {l} lanes");
        assert!((4..=5).contains(&r), "seed {seed}: {r} ridges");
        if !lanes.contains(&l) {
            lanes.push(l);
        }
        if !ridges.contains(&r) {
            ridges.push(r);
        }
    }
    assert_eq!(lanes.len(), 2, "both lane counts occur");
    assert_eq!(ridges.len(), 2, "both ridge counts occur");
}
