//! Persisted styling preferences.
//!
//! A small JSON file (`~/.config/cloche/config.json` by default) that
//! `capture` and `polish` read on every run: pin a palette or scene once, or
//! narrow the pool the random picker draws from, and both paths honor it with
//! no flags at all. This module holds the preference model, where the file
//! lives, and how flags and preferences resolve into one card style; reading
//! and writing the file happens in the application.

use vstd::prelude::*;

use crate::polish;
use crate::polish::BackdropKind;
use crate::polish::PresentationStyle;
use crate::polish::strings;
use crate::strings::views;
use crate::space::SceneKind;
use crate::strings::push_char;
use crate::strings::str_eq;

verus! {

/// Whether the persisted pins apply, or the picker stays random.
#[derive(Debug, Clone, Copy, PartialEq, Eq, Structural)]
pub enum PolishMode {
    /// Draw from the pools (or the built-in pool when they are empty). The
    /// pinned names stay on file but are not applied.
    Random,
    /// Use the pinned palette and scene when they are set.
    Pinned,
}

impl Default for PolishMode {
    fn default() -> (r: Self)
        ensures
            r == PolishMode::Random,
    {
        PolishMode::Random
    }
}

/// Backdrop preferences honored by `cloche capture` and `cloche polish`.
#[derive(Debug, Clone)]
pub struct PolishPrefs {
    pub mode: PolishMode,
    /// Palette applied when `mode` is `pinned`.
    pub palette: Option<String>,
    /// Scene applied when `mode` is `pinned`. Space palettes only.
    pub scene: Option<String>,
    /// Motif kept for pattern palettes.
    pub motif: Option<String>,
    /// Sky condition kept for sky palettes.
    pub sky: Option<String>,
    /// Terrain kind kept for terrain palettes.
    pub terrain: Option<String>,
    /// Palettes the random picker may choose from. Empty means the built-in
    /// pool (every space palette).
    pub palettes: Vec<String>,
    /// Scenes the random picker may choose from. Empty leaves the scene to the
    /// seed's own pick inside the space renderer.
    pub scenes: Vec<String>,
    /// Motifs the random picker may choose from for pattern palettes.
    pub motifs: Vec<String>,
    /// Sky conditions the random picker may choose from for sky palettes.
    pub skies: Vec<String>,
    /// Terrain kinds the random picker may choose from for terrain palettes.
    pub terrains: Vec<String>,
}

impl Default for PolishPrefs {
    fn default() -> (r: Self)
        ensures
            r.mode == PolishMode::Random,
            r.palette is None && r.scene is None && r.motif is None && r.sky is None
                && r.terrain is None,
            r.palettes@.len() == 0 && r.scenes@.len() == 0 && r.motifs@.len() == 0
                && r.skies@.len() == 0 && r.terrains@.len() == 0,
    {
        PolishPrefs {
            mode: PolishMode::Random,
            palette: None,
            scene: None,
            motif: None,
            sky: None,
            terrain: None,
            palettes: Vec::new(),
            scenes: Vec::new(),
            motifs: Vec::new(),
            skies: Vec::new(),
            terrains: Vec::new(),
        }
    }
}

/// The whole preferences file. Only `polish` exists today.
#[derive(Debug, Clone)]
pub struct ClocheConfig {
    pub polish: PolishPrefs,
}

impl Default for ClocheConfig {
    fn default() -> (r: Self)
        ensures
            r.polish.mode == PolishMode::Random,
            r.polish.palette is None && r.polish.scene is None,
            r.polish.palettes@.len() == 0 && r.polish.scenes@.len() == 0,
    {
        ClocheConfig { polish: PolishPrefs::default() }
    }
}

// ---------------------------------------------------------------------------
// Reading the file

/// What reading the preferences file found.
pub enum ConfigFile {
    /// No file: the defaults apply and nothing is wrong.
    Missing,
    /// The file exists but could not be read (the error's text).
    Unreadable(String),
    /// The file is not valid preferences JSON (the parser's error).
    Malformed(String),
    /// The parsed preferences.
    Parsed(ClocheConfig),
}

/// The defaults, with nothing pinned and no pools.
pub open spec fn is_default_config(c: ClocheConfig) -> bool {
    &&& c.polish.mode == PolishMode::Random
    &&& c.polish.palette is None && c.polish.scene is None && c.polish.motif is None
    &&& c.polish.sky is None && c.polish.terrain is None
    &&& c.polish.palettes@.len() == 0 && c.polish.scenes@.len() == 0
    &&& c.polish.motifs@.len() == 0 && c.polish.skies@.len() == 0 && c.polish.terrains@.len() == 0
}

/// The preferences in force after reading the file at `path`: a missing file
/// means the defaults with no warning; a file that cannot be read or parsed
/// also falls back to the defaults, with one warning that names it, rather
/// than costing a capture.
pub fn loaded_config(path: &str, file: ConfigFile) -> (r: (ClocheConfig, Vec<String>))
    ensures
        match file {
            ConfigFile::Missing => is_default_config(r.0) && r.1@.len() == 0,
            ConfigFile::Unreadable(err) => is_default_config(r.0) && strings(r.1@) == seq![
                "config "@ + path@ + " could not be read: "@ + err@,
            ],
            ConfigFile::Malformed(err) => is_default_config(r.0) && strings(r.1@) == seq![
                "config "@ + path@ + " ignored, using defaults: "@ + err@,
            ],
            ConfigFile::Parsed(c) => r.0 == c && r.1@.len() == 0,
        },
{
    let mut warnings: Vec<String> = Vec::new();
    match file {
        ConfigFile::Missing => (ClocheConfig { polish: PolishPrefs::default() }, warnings),
        ConfigFile::Unreadable(err) => {
            let mut m = String::from_str("config ");
            m.append(path);
            m.append(" could not be read: ");
            m.append(err.as_str());
            warnings.push(m);
            proof {
                assert(strings(warnings@) =~= seq![
                    "config "@ + path@ + " could not be read: "@ + err@,
                ]);
            }
            (ClocheConfig { polish: PolishPrefs::default() }, warnings)
        },
        ConfigFile::Malformed(err) => {
            let mut m = String::from_str("config ");
            m.append(path);
            m.append(" ignored, using defaults: ");
            m.append(err.as_str());
            warnings.push(m);
            proof {
                assert(strings(warnings@) =~= seq![
                    "config "@ + path@ + " ignored, using defaults: "@ + err@,
                ]);
            }
            (ClocheConfig { polish: PolishPrefs::default() }, warnings)
        },
        ConfigFile::Parsed(c) => (c, warnings),
    }
}

// ---------------------------------------------------------------------------
// Where the file lives

/// `base` joined with a relative component: a separator is inserted unless
/// `base` is empty or already ends in one.
pub open spec fn path_join(base: Seq<char>, part: Seq<char>) -> Seq<char> {
    if base.len() == 0 || base.last() == '/' {
        base + part
    } else {
        base + seq!['/'] + part
    }
}

/// Appends a relative component to a path.
pub fn push_path(path: &mut String, part: &str)
    ensures
        final(path)@ == path_join(old(path)@, part@),
{
    let chars = crate::strings::chars_of(path.as_str());
    let n = chars.len();
    if n > 0 && chars[n - 1] != '/' {
        push_char(path, '/');
    }
    path.append(part);
    proof {
        assert(final(path)@ =~= path_join(old(path)@, part@));
    }
}

/// The preferences file location: an explicit override path, else
/// `<config home>/cloche/config.json`, where the config home defaults to
/// `<home>/.config`.
pub open spec fn config_path(
    explicit: Option<Seq<char>>,
    config_home: Option<Seq<char>>,
    home: Seq<char>,
) -> Seq<char> {
    match explicit {
        Some(path) => path,
        None => path_join(
            path_join(
                match config_home {
                    Some(dir) => dir,
                    None => path_join(home, ".config"@),
                },
                "cloche"@,
            ),
            "config.json"@,
        ),
    }
}

/// Where the preferences file lives, given the override variable, the
/// platform config home and the home directory.
pub fn resolve_path(explicit: Option<String>, config_home: Option<String>, home: String) -> (r:
    String)
    ensures
        r@ == config_path(
            match explicit {
                Some(p) => Some(p@),
                None => None,
            },
            match config_home {
                Some(d) => Some(d@),
                None => None,
            },
            home@,
        ),
{
    if let Some(explicit) = explicit {
        return explicit;
    }
    let mut path = match config_home {
        Some(dir) => dir,
        None => {
            let mut base = home;
            push_path(&mut base, ".config");
            base
        },
    };
    push_path(&mut path, "cloche");
    push_path(&mut path, "config.json");
    path
}

// ---------------------------------------------------------------------------
// Pools

/// The known names of `values`, each kept once, in first-seen order.
pub open spec fn known_pool(values: Seq<Seq<char>>, known: Seq<Seq<char>>) -> Seq<Seq<char>>
    decreases values.len(),
{
    if values.len() == 0 {
        Seq::empty()
    } else {
        let kept = known_pool(values.drop_last(), known);
        if known.contains(values.last()) && !kept.contains(values.last()) {
            kept.push(values.last())
        } else {
            kept
        }
    }
}

/// The warning for a pool entry the tables do not know.
pub open spec fn unknown_pool_entry(label: Seq<char>, value: Seq<char>) -> Seq<char> {
    "config "@ + label + " pool: unknown "@ + label + " "@ + value
}

/// One warning per unknown pool entry, in order.
pub open spec fn pool_warnings(values: Seq<Seq<char>>, known: Seq<Seq<char>>, label: Seq<char>) -> Seq<
    Seq<char>,
>
    decreases values.len(),
{
    if values.len() == 0 {
        Seq::empty()
    } else {
        pool_warnings(values.drop_last(), known, label) + if known.contains(values.last()) {
            Seq::empty()
        } else {
            seq![unknown_pool_entry(label, values.last())]
        }
    }
}

/// The kept pool holds only known names, each once, and every known name of
/// `values` is kept.
pub proof fn lemma_known_pool(values: Seq<Seq<char>>, known: Seq<Seq<char>>)
    ensures
        forall|i: int|
            0 <= i < known_pool(values, known).len() ==> known.contains(
                #[trigger] known_pool(values, known)[i],
            ) && values.contains(known_pool(values, known)[i]),
        forall|i: int, j: int|
            0 <= i < j < known_pool(values, known).len() ==> known_pool(values, known)[i]
                != known_pool(values, known)[j],
        forall|i: int|
            0 <= i < values.len() && known.contains(#[trigger] values[i]) ==> known_pool(
                values,
                known,
            ).contains(values[i]),
    decreases values.len(),
{
    if values.len() > 0 {
        let rest = values.drop_last();
        lemma_known_pool(rest, known);
        let kept = known_pool(rest, known);
        assert forall|i: int|
            0 <= i < known_pool(values, known).len() implies known.contains(
                #[trigger] known_pool(values, known)[i],
            ) && values.contains(known_pool(values, known)[i]) by {
            if i < kept.len() {
                let x = kept[i];
                let j = choose|j: int| 0 <= j < rest.len() && rest[j] == x;
                assert(values[j] == x);
            } else {
                assert(values[values.len() - 1] == values.last());
            }
        }
        assert forall|i: int|
            0 <= i < values.len() && known.contains(#[trigger] values[i]) implies known_pool(
            values,
            known,
        ).contains(values[i]) by {
            if i < rest.len() {
                assert(rest[i] == values[i]);
                let j = choose|j: int| 0 <= j < kept.len() && kept[j] == values[i];
                assert(known_pool(values, known)[j] == values[i]);
            } else if !kept.contains(values.last()) {
                let all = known_pool(values, known);
                assert(all[all.len() - 1] == values[i]);
            }
        }
    }
}

fn unknown_entry_message(label: &str, value: &str) -> (m: String)
    ensures
        m@ == unknown_pool_entry(label@, value@),
{
    let mut m = String::from_str("config ");
    m.append(label);
    m.append(" pool: unknown ");
    m.append(label);
    m.append(" ");
    m.append(value);
    m
}

pub(crate) fn known_contains(known: &[&'static str], value: &str) -> (r: bool)
    ensures
        r == views(known@).contains(value@),
{
    let n = known.len();
    let mut i: usize = 0;
    while i < n
        invariant
            n == known@.len(),
            i <= n,
            forall|j: int| 0 <= j < i ==> known@[j]@ != value@,
        decreases n - i,
    {
        if str_eq(known[i], value) {
            proof {
                assert(views(known@)[i as int] == value@);
            }
            return true;
        }
        i = i + 1;
    }
    proof {
        if views(known@).contains(value@) {
            let j = choose|j: int| 0 <= j < n && views(known@)[j] == value@;
            assert(known@[j]@ == value@);
        }
    }
    false
}

/// Keep the names the built-in tables recognize, reporting the rest. A name
/// that no longer exists (a renamed palette, say) should be visible rather
/// than silently narrowing the pool; a repeated name is kept once so it does
/// not skew the draw.
pub fn keep_known(values: &[String], known: &[&'static str], label: &str, warnings: &mut Vec<
    String,
>) -> (kept: Vec<String>)
    ensures
        strings(kept@) == known_pool(strings(values@), views(known@)),
        strings(final(warnings)@) == strings(old(warnings)@) + pool_warnings(
            strings(values@),
            views(known@),
            label@,
        ),
{
    let mut kept: Vec<String> = Vec::new();
    let n = values.len();
    let mut i: usize = 0;
    let ghost start = strings(warnings@);
    while i < n
        invariant
            n == values@.len(),
            i <= n,
            strings(kept@) == known_pool(strings(values@).take(i as int), views(known@)),
            strings(warnings@) == start + pool_warnings(
                strings(values@).take(i as int),
                views(known@),
                label@,
            ),
        decreases n - i,
    {
        let value = &values[i];
        let ghost prefix = strings(values@).take(i as int);
        proof {
            assert(strings(values@).take(i + 1).drop_last() =~= prefix);
            assert(strings(values@).take(i + 1).last() == value@);
        }
        let ghost old_kept = strings(kept@);
        let ghost old_warnings = strings(warnings@);
        if !known_contains(known, value.as_str()) {
            warnings.push(unknown_entry_message(label, value.as_str()));
            proof {
                assert(strings(warnings@) =~= old_warnings + seq![
                    unknown_pool_entry(label@, value@),
                ]);
            }
        } else if !crate::polish::contains_name(kept.as_slice(), value.as_str()) {
            kept.push(value.clone());
            proof {
                assert(strings(kept@) =~= old_kept.push(value@));
                assert(strings(warnings@) =~= old_warnings + Seq::<Seq<char>>::empty());
            }
        } else {
            proof {
                assert(strings(warnings@) =~= old_warnings + Seq::<Seq<char>>::empty());
            }
        }
        i = i + 1;
    }
    proof {
        assert(strings(values@).take(n as int) =~= strings(values@));
    }
    kept
}

// ---------------------------------------------------------------------------
// Resolving one card style

/// The view of an optional owned string.
pub open spec fn opt_string(value: Option<String>) -> Option<Seq<char>> {
    match value {
        Some(s) => Some(s@),
        None => None,
    }
}

/// The view of an optional string slice.
pub open spec fn opt_str(value: Option<&str>) -> Option<Seq<char>> {
    match value {
        Some(s) => Some(s@),
        None => None,
    }
}

/// The name in force: the flag when given, else the stored pin in pinned
/// mode, else none.
pub open spec fn flag_or_pin(flag: Option<Seq<char>>, mode: PolishMode, stored: Option<String>) -> Option<
    Seq<char>,
> {
    match flag {
        Some(name) => Some(name),
        None => if mode == PolishMode::Pinned {
            opt_string(stored)
        } else {
            None
        },
    }
}

/// The warnings the pool preferences produce, family by family.
pub open spec fn prefs_pool_warnings(prefs: PolishPrefs) -> Seq<Seq<char>> {
    pool_warnings(strings(prefs.palettes@), polish::table_names(), "palette"@) + pool_warnings(
        strings(prefs.scenes@),
        polish::menu_names(SceneKind::NAMES),
        "scene"@,
    ) + pool_warnings(
        strings(prefs.motifs@),
        polish::menu_names(crate::pattern::MotifKind::NAMES),
        "motif"@,
    ) + pool_warnings(strings(prefs.skies@), polish::menu_names(crate::sky::SkyKind::NAMES), "sky"@)
        + pool_warnings(
        strings(prefs.terrains@),
        polish::menu_names(crate::terrain::TerrainKind::NAMES),
        "terrain"@,
    )
}

/// The warning an unknown palette name produces.
pub open spec fn palette_warning(palette: Option<Seq<char>>) -> Seq<Seq<char>> {
    match palette {
        Some(name) => if polish::table_names().contains(name) {
            Seq::empty()
        } else {
            seq!["unknown palette: "@ + name]
        },
        None => Seq::empty(),
    }
}

/// The warning a scene name produces against the resolved style.
pub open spec fn scene_warning(scene: Option<Seq<char>>, style: PresentationStyle) -> Seq<Seq<char>> {
    match scene {
        Some(name) => match SceneKind::spec_from_name(name) {
            Some(_) => if style.backdrop == BackdropKind::Space {
                Seq::empty()
            } else {
                seq![
                    "scene "@ + name + " ignored: palette "@ + style.palette_name@
                        + " is not a space scene"@,
                ]
            },
            None => seq!["unknown scene: "@ + name],
        },
        None => Seq::empty(),
    }
}

fn two_part_message(head: &str, tail: &str) -> (m: String)
    ensures
        m@ == head@ + tail@,
{
    let mut m = String::from_str(head);
    m.append(tail);
    m
}

fn scene_ignored_message(name: &str, palette: &str) -> (m: String)
    ensures
        m@ == "scene "@ + name@ + " ignored: palette "@ + palette@ + " is not a space scene"@,
{
    let mut m = String::from_str("scene ");
    m.append(name);
    m.append(" ignored: palette ");
    m.append(palette);
    m.append(" is not a space scene");
    m
}

/// The validated pools of a preferences file.
struct Pools {
    palettes: Vec<String>,
    scenes: Vec<String>,
    motifs: Vec<String>,
    skies: Vec<String>,
    terrains: Vec<String>,
}

/// The pools, validated against the tables, as the picker sees them.
pub open spec fn pooled(values: Vec<String>, known: Seq<Seq<char>>) -> Seq<Seq<char>> {
    known_pool(strings(values@), known)
}

fn validated_pools(prefs: &PolishPrefs, warnings: &mut Vec<String>) -> (pools: Pools)
    ensures
        strings(pools.palettes@) == pooled(prefs.palettes, polish::table_names()),
        strings(pools.scenes@) == pooled(prefs.scenes, polish::menu_names(SceneKind::NAMES)),
        strings(pools.motifs@) == pooled(
            prefs.motifs,
            polish::menu_names(crate::pattern::MotifKind::NAMES),
        ),
        strings(pools.skies@) == pooled(prefs.skies, polish::menu_names(crate::sky::SkyKind::NAMES)),
        strings(pools.terrains@) == pooled(
            prefs.terrains,
            polish::menu_names(crate::terrain::TerrainKind::NAMES),
        ),
        strings(final(warnings)@) == strings(old(warnings)@) + prefs_pool_warnings(*prefs),
{
    let ghost start = strings(warnings@);
    let palette_list = polish::palette_names();
    let scene_list = polish::scene_names();
    let motif_list = polish::motif_names();
    let sky_list = polish::sky_names();
    let terrain_list = polish::terrain_names();
    proof {
        assert(views(palette_list@) =~= polish::table_names());
        assert(views(scene_list@) =~= polish::menu_names(SceneKind::NAMES));
        assert(views(motif_list@) =~= polish::menu_names(crate::pattern::MotifKind::NAMES));
        assert(views(sky_list@) =~= polish::menu_names(crate::sky::SkyKind::NAMES));
        assert(views(terrain_list@) =~= polish::menu_names(crate::terrain::TerrainKind::NAMES));
    }
    let palettes = keep_known(prefs.palettes.as_slice(), palette_list.as_slice(), "palette", warnings);
    let scenes = keep_known(prefs.scenes.as_slice(), scene_list.as_slice(), "scene", warnings);
    let motifs = keep_known(prefs.motifs.as_slice(), motif_list.as_slice(), "motif", warnings);
    let skies = keep_known(prefs.skies.as_slice(), sky_list.as_slice(), "sky", warnings);
    let terrains = keep_known(prefs.terrains.as_slice(), terrain_list.as_slice(), "terrain", warnings);
    proof {
        assert(strings(warnings@) =~= start + prefs_pool_warnings(*prefs));
    }
    Pools { palettes, scenes, motifs, skies, terrains }
}

/// The style a palette choice and the pools produce, before any scene pin.
pub open spec fn base_style_fits(
    style: PresentationStyle,
    seed: u64,
    palette: Option<Seq<char>>,
    prefs: PolishPrefs,
) -> bool {
    let named = palette matches Some(n) && polish::table_names().contains(n);
    &&& style.seed == seed
    &&& exists|i: int| polish::wears_palette(style, i)
    &&& named ==> style.palette_name@ == palette->0
    &&& named ==> style.scene is None && style.motif is None && style.sky is None
        && style.terrain is None
    &&& !named ==> crate::rendezvous::pick(
        seed,
        polish::palette_pool(pooled(prefs.palettes, polish::table_names())),
    ) == Some(style.palette_name@)
    &&& !named ==> style.scene == (if style.backdrop == BackdropKind::Space {
        polish::pooled_scene(seed, pooled(prefs.scenes, polish::menu_names(SceneKind::NAMES)))
    } else {
        None
    })
    &&& !named ==> style.motif == (if style.backdrop == BackdropKind::Pattern {
        polish::pooled_motif(
            seed,
            pooled(prefs.motifs, polish::menu_names(crate::pattern::MotifKind::NAMES)),
        )
    } else {
        None
    })
    &&& !named ==> style.sky == (if style.backdrop == BackdropKind::Sky {
        polish::pooled_sky(seed, pooled(prefs.skies, polish::menu_names(crate::sky::SkyKind::NAMES)))
    } else {
        None
    })
    &&& !named ==> style.terrain == (if style.backdrop == BackdropKind::Terrain {
        polish::pooled_terrain(
            seed,
            pooled(prefs.terrains, polish::menu_names(crate::terrain::TerrainKind::NAMES)),
        )
    } else {
        None
    })
}

fn base_style(
    prefs: &PolishPrefs,
    seed: u64,
    palette: Option<&str>,
    pools: &Pools,
    warnings: &mut Vec<String>,
) -> (style: PresentationStyle)
    requires
        strings(pools.palettes@) == pooled(prefs.palettes, polish::table_names()),
        strings(pools.scenes@) == pooled(prefs.scenes, polish::menu_names(SceneKind::NAMES)),
        strings(pools.motifs@) == pooled(
            prefs.motifs,
            polish::menu_names(crate::pattern::MotifKind::NAMES),
        ),
        strings(pools.skies@) == pooled(prefs.skies, polish::menu_names(crate::sky::SkyKind::NAMES)),
        strings(pools.terrains@) == pooled(
            prefs.terrains,
            polish::menu_names(crate::terrain::TerrainKind::NAMES),
        ),
    ensures
        base_style_fits(style, seed, opt_str(palette), *prefs),
        strings(final(warnings)@) == strings(old(warnings)@) + palette_warning(opt_str(palette)),
{
    let ghost start = strings(warnings@);
    match palette {
        Some(name) => match polish::style_with_palette(seed, name) {
            Some(style) => {
                assert(strings(warnings@) =~= start + palette_warning(opt_str(palette)));
                style
            },
            None => {
                warnings.push(two_part_message("unknown palette: ", name));
                assert(strings(warnings@) =~= start + palette_warning(opt_str(palette)));
                polish::style_from_seed_in_pool(
                    seed,
                    pools.palettes.as_slice(),
                    pools.scenes.as_slice(),
                    pools.motifs.as_slice(),
                    pools.skies.as_slice(),
                    pools.terrains.as_slice(),
                )
            },
        },
        None => {
            assert(strings(warnings@) =~= start + palette_warning(opt_str(palette)));
            polish::style_from_seed_in_pool(
                seed,
                pools.palettes.as_slice(),
                pools.scenes.as_slice(),
                pools.motifs.as_slice(),
                pools.skies.as_slice(),
                pools.terrains.as_slice(),
            )
        },
    }
}

/// The scene a pin leaves in force on a base style.
pub open spec fn pinned_scene(scene: Option<Seq<char>>, base: PresentationStyle) -> Option<
    SceneKind,
> {
    match scene {
        Some(name) => match SceneKind::spec_from_name(name) {
            Some(kind) => if base.backdrop == BackdropKind::Space {
                Some(kind)
            } else {
                base.scene
            },
            None => base.scene,
        },
        None => base.scene,
    }
}

fn pin_scene(style: &mut PresentationStyle, scene: Option<&str>, warnings: &mut Vec<String>)
    ensures
        final(style).scene == pinned_scene(opt_str(scene), *old(style)),
        final(style).seed == old(style).seed,
        final(style).palette_name@ == old(style).palette_name@,
        final(style).backdrop == old(style).backdrop,
        final(style).stops == old(style).stops,
        final(style).glow_a == old(style).glow_a,
        final(style).glow_b == old(style).glow_b,
        final(style).motif == old(style).motif,
        final(style).sky == old(style).sky,
        final(style).terrain == old(style).terrain,
        strings(final(warnings)@) == strings(old(warnings)@) + scene_warning(
            opt_str(scene),
            *old(style),
        ),
{
    let ghost start = strings(warnings@);
    if let Some(name) = scene {
        match polish::scene_from_name(name) {
            Some(kind) => {
                if style.is_space() {
                    style.scene = Some(kind);
                    assert(strings(warnings@) =~= start + Seq::<Seq<char>>::empty());
                } else {
                    warnings.push(scene_ignored_message(name, style.palette_name.as_str()));
                    assert(strings(warnings@) =~= start + scene_warning(opt_str(scene), *old(style)));
                }
            },
            None => {
                warnings.push(two_part_message("unknown scene: ", name));
                assert(strings(warnings@) =~= start + scene_warning(opt_str(scene), *old(style)));
            },
        }
    } else {
        assert(strings(warnings@) =~= start + Seq::<Seq<char>>::empty());
    }
}

/// `style` is what `resolve_style` gives for these preferences and flags,
/// with `before` the warnings it started from and `after` those it left.
pub open spec fn resolved_style(
    prefs: PolishPrefs,
    seed: Option<u64>,
    palette: Option<Seq<char>>,
    scene: Option<Seq<char>>,
    style: PresentationStyle,
    before: Seq<Seq<char>>,
    after: Seq<Seq<char>>,
) -> bool {
    &&& seed matches Some(s) ==> style.seed == s
    &&& exists|base: PresentationStyle|
        {
            &&& base_style_fits(base, style.seed, flag_or_pin(palette, prefs.mode, prefs.palette), prefs)
            &&& style.scene == pinned_scene(flag_or_pin(scene, prefs.mode, prefs.scene), base)
            &&& style.palette_name@ == base.palette_name@
            &&& style.backdrop == base.backdrop
            &&& style.stops == base.stops
            &&& style.glow_a == base.glow_a
            &&& style.glow_b == base.glow_b
            &&& style.motif == base.motif
            &&& style.sky == base.sky
            &&& style.terrain == base.terrain
            &&& after == before + prefs_pool_warnings(prefs) + palette_warning(
                flag_or_pin(palette, prefs.mode, prefs.palette),
            ) + scene_warning(flag_or_pin(scene, prefs.mode, prefs.scene), base)
        }
}

/// A `--scene` flag naming a known scene wins on a space palette: the card
/// shows that scene, whatever scene the preferences pin.
pub proof fn lemma_scene_flag_wins(
    prefs: PolishPrefs,
    seed: Option<u64>,
    palette: Option<Seq<char>>,
    name: Seq<char>,
    style: PresentationStyle,
    before: Seq<Seq<char>>,
    after: Seq<Seq<char>>,
)
    requires
        resolved_style(prefs, seed, palette, Some(name), style, before, after),
        SceneKind::spec_from_name(name) is Some,
        style.backdrop == BackdropKind::Space,
    ensures
        style.scene == SceneKind::spec_from_name(name),
{
}

/// Without a `--scene` flag, a pinned preference naming a known scene is
/// shown on a space palette.
pub proof fn lemma_pinned_scene_applies(
    prefs: PolishPrefs,
    seed: Option<u64>,
    palette: Option<Seq<char>>,
    style: PresentationStyle,
    before: Seq<Seq<char>>,
    after: Seq<Seq<char>>,
)
    requires
        resolved_style(prefs, seed, palette, None, style, before, after),
        prefs.mode == PolishMode::Pinned,
        prefs.scene matches Some(s) && SceneKind::spec_from_name(s@) is Some,
        style.backdrop == BackdropKind::Space,
    ensures
        style.scene == SceneKind::spec_from_name(prefs.scene->0@),
{
}

/// A `--palette` flag naming a known palette wins over everything stored.
pub proof fn lemma_palette_flag_wins(
    prefs: PolishPrefs,
    seed: Option<u64>,
    name: Seq<char>,
    scene: Option<Seq<char>>,
    style: PresentationStyle,
    before: Seq<Seq<char>>,
    after: Seq<Seq<char>>,
)
    requires
        resolved_style(prefs, seed, Some(name), scene, style, before, after),
        polish::table_names().contains(name),
    ensures
        style.palette_name@ == name,
{
}

/// Without a `--palette` flag, a pinned preference naming a known palette is
/// the card's palette.
pub proof fn lemma_pinned_palette_applies(
    prefs: PolishPrefs,
    seed: Option<u64>,
    scene: Option<Seq<char>>,
    style: PresentationStyle,
    before: Seq<Seq<char>>,
    after: Seq<Seq<char>>,
)
    requires
        resolved_style(prefs, seed, None, scene, style, before, after),
        prefs.mode == PolishMode::Pinned,
        prefs.palette matches Some(p) && polish::table_names().contains(p@),
    ensures
        style.palette_name@ == prefs.palette->0@,
{
}

/// With no `--palette` flag and nothing pinned, the palette is the seeded
/// pick over the preferred pool (every space palette when the pool is empty
/// or names nothing known), and an explicit seed is the card's seed.
pub proof fn lemma_unpinned_palette_is_the_seeded_pick(
    prefs: PolishPrefs,
    seed: Option<u64>,
    scene: Option<Seq<char>>,
    style: PresentationStyle,
    before: Seq<Seq<char>>,
    after: Seq<Seq<char>>,
)
    requires
        resolved_style(prefs, seed, None, scene, style, before, after),
        prefs.mode == PolishMode::Random,
    ensures
        crate::rendezvous::pick(
            style.seed,
            polish::palette_pool(pooled(prefs.palettes, polish::table_names())),
        ) == Some(style.palette_name@),
        seed matches Some(s) ==> style.seed == s,
{
}

/// Default preferences (what a missing or broken config file leaves) change
/// nothing: with no flags the card is the seed's own pick among the space
/// palettes, with no scene, motif, sky or terrain pinned, and no warning.
pub proof fn lemma_default_config_is_the_plain_pick(
    c: ClocheConfig,
    seed: Option<u64>,
    style: PresentationStyle,
    before: Seq<Seq<char>>,
    after: Seq<Seq<char>>,
)
    requires
        is_default_config(c),
        resolved_style(c.polish, seed, None, None, style, before, after),
    ensures
        crate::rendezvous::pick(style.seed, polish::names_of_kind(BackdropKind::Space, 38)) == Some(
            style.palette_name@,
        ),
        style.scene is None && style.motif is None && style.sky is None && style.terrain is None,
        after == before,
{
    let prefs = c.polish;
    assert(strings(prefs.palettes@) =~= Seq::<Seq<char>>::empty());
    assert(strings(prefs.scenes@) =~= Seq::<Seq<char>>::empty());
    assert(strings(prefs.motifs@) =~= Seq::<Seq<char>>::empty());
    assert(strings(prefs.skies@) =~= Seq::<Seq<char>>::empty());
    assert(strings(prefs.terrains@) =~= Seq::<Seq<char>>::empty());
    let none = Seq::<Seq<char>>::empty();
    assert(pooled(prefs.palettes, polish::table_names()) == none);
    polish::lemma_keep_nothing(polish::table_names(), none);
    assert(polish::palette_pool(none) == polish::names_of_kind(BackdropKind::Space, 38));
    assert(prefs_pool_warnings(prefs) =~= none);
}

/// Resolve the style for one card from flags plus persisted preferences.
///
/// Precedence is explicit flag, then config, then the built-in random pick,
/// so a one-off `--palette` always beats a pinned preference. Unknown names
/// become warnings, never errors: a preferences typo must not cost a capture.
pub fn resolve_style(
    prefs: &PolishPrefs,
    seed: Option<u64>,
    palette: Option<&str>,
    scene: Option<&str>,
    warnings: &mut Vec<String>,
) -> (style: PresentationStyle)
    ensures
        resolved_style(
            *prefs,
            seed,
            opt_str(palette),
            opt_str(scene),
            style,
            strings(old(warnings)@),
            strings(final(warnings)@),
        ),
{
    let seed = match seed {
        Some(s) => s,
        None => polish::random_seed(),
    };
    let pinned = prefs.mode == PolishMode::Pinned;
    let palette: Option<&str> = match palette {
        Some(name) => Some(name),
        None => if pinned {
            match &prefs.palette {
                Some(p) => Some(p.as_str()),
                None => None,
            }
        } else {
            None
        },
    };
    let scene: Option<&str> = match scene {
        Some(name) => Some(name),
        None => if pinned {
            match &prefs.scene {
                Some(s) => Some(s.as_str()),
                None => None,
            }
        } else {
            None
        },
    };
    let ghost start = strings(warnings@);
    let pools = validated_pools(prefs, warnings);
    let ghost after_pools = strings(warnings@);
    let mut style = base_style(prefs, seed, palette, &pools, warnings);
    let ghost base = style;
    let ghost after_palette = strings(warnings@);
    pin_scene(&mut style, scene, warnings);
    proof {
        assert(strings(warnings@) =~= start + prefs_pool_warnings(*prefs) + palette_warning(
            opt_str(palette),
        ) + scene_warning(opt_str(scene), base));
    }
    style
}

/// The style `polish` uses. Like every card, it follows the stored
/// preferences: the `--palette` flag, then a pinned palette, then the seeded
/// pick over the preferred pools (see `resolve_style`). An unknown `--palette`
/// name is refused rather than warned about.
pub fn polish_style(
    prefs: &PolishPrefs,
    seed: Option<u64>,
    palette: Option<&str>,
    warnings: &mut Vec<String>,
) -> (r: Result<PresentationStyle, String>)
    ensures
        match palette {
            Some(name) if !polish::table_names().contains(name@) => r matches Err(m) && m@ == "unknown palette: "@
                + name@ && final(warnings)@ == old(warnings)@,
            _ => r matches Ok(style) && resolved_style(
                *prefs,
                seed,
                opt_str(palette),
                None,
                style,
                strings(old(warnings)@),
                strings(final(warnings)@),
            ),
        },
{
    if let Some(name) = palette {
        match polish::palette_index(name) {
            None => {
                let mut m = String::from_str("unknown palette: ");
                m.append(name);
                return Err(m);
            },
            Some(i) => {
                assert(polish::table_names()[i as int] == name@);
            },
        }
    }
    let style = resolve_style(prefs, seed, palette, None, warnings);
    proof {
        assert(opt_str(None) == None::<Seq<char>>);
    }
    Ok(style)
}

} // verus!
