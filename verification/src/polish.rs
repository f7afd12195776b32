//! Presentation styles: the palette table and the seeded backdrop picker.
//!
//! A style pairs a palette (colors plus a backdrop family) with the optional
//! second-axis pins of that family (a space scene, a pattern motif, a sky
//! condition, a terrain kind). The palette is chosen from the seed by
//! rendezvous scoring, so the table can grow without reshuffling the picks of
//! existing seeds. The card geometry (padding, shadows, angles) is drawn from
//! the same seed by the painter, outside this library.

use vstd::prelude::*;

use crate::pattern::MotifKind;
use crate::sky::SkyKind;
use crate::space::SceneKind;
use crate::rendezvous::pick;
use crate::rendezvous::pick_by_affinity;
use crate::strings::views;
use crate::strings::str_eq;
use crate::terrain::TerrainKind;

verus! {

/// How the backdrop behind the card is painted.
#[derive(Debug, Clone, Copy, PartialEq, Eq, Structural)]
pub enum BackdropKind {
    /// The classic soft gradient with glows and light streaks.
    Gradient,
    /// Procedural deep-space scene: starfield, nebula dust, celestial bodies.
    Space,
    /// Procedural geometric cloth or paper: plaids, stripes, rules, weaves.
    Pattern,
    /// Procedural sky: cloud decks, storms, lightning, twilight, aurora.
    Sky,
    /// Procedural terrain: dunes, mesa, badlands, glacier.
    Terrain,
}

/// Number of palettes in the table.
pub const PALETTE_COUNT: usize = 38;

/// Palette names, in table order.
///
/// Space palette colors are sampled from astrophotography of the named
/// objects; sky palette colors from photographs of the named conditions.
/// Pattern stops read as ground, drift and ink; sky and terrain stops read as
/// a vertical cross-section from the top of the frame down.
pub const PALETTE_NAMES: [&'static str; 38] = [
    "violet-haze",
    "ember-glow",
    "aurora-teal",
    "rose-noir",
    "midnight-sky",
    "sea-glass",
    "peach-dusk",
    "ink-wash",
    "citrus-noon",
    "orion-emission",
    "carina-hubble",
    "pleiades-reflection",
    "rho-ophiuchi",
    "milkyway-core",
    "andromeda-haze",
    "horsehead-flame",
    "lagoon-trifid",
    "eagle-pillars",
    "crab-remnant",
    "tarantula-web",
    "sombrero-dust",
    "tartan-moss",
    "oxford-navy",
    "blueprint",
    "ledger-cream",
    "picnic-red",
    "workshop-ochre",
    "blue-hour",
    "golden-hour",
    "supercell",
    "mammatus",
    "aurora-curtain",
    "cirrus-blue",
    "alpenglow",
    "dunes",
    "mesa",
    "badlands",
    "glacier",
];

/// The backdrop family of each palette.
pub const PALETTE_KINDS: [BackdropKind; 38] = [
    BackdropKind::Gradient,
    BackdropKind::Gradient,
    BackdropKind::Gradient,
    BackdropKind::Gradient,
    BackdropKind::Gradient,
    BackdropKind::Gradient,
    BackdropKind::Gradient,
    BackdropKind::Gradient,
    BackdropKind::Gradient,
    BackdropKind::Space,
    BackdropKind::Space,
    BackdropKind::Space,
    BackdropKind::Space,
    BackdropKind::Space,
    BackdropKind::Space,
    BackdropKind::Space,
    BackdropKind::Space,
    BackdropKind::Space,
    BackdropKind::Space,
    BackdropKind::Space,
    BackdropKind::Space,
    BackdropKind::Pattern,
    BackdropKind::Pattern,
    BackdropKind::Pattern,
    BackdropKind::Pattern,
    BackdropKind::Pattern,
    BackdropKind::Pattern,
    BackdropKind::Sky,
    BackdropKind::Sky,
    BackdropKind::Sky,
    BackdropKind::Sky,
    BackdropKind::Sky,
    BackdropKind::Sky,
    BackdropKind::Sky,
    BackdropKind::Terrain,
    BackdropKind::Terrain,
    BackdropKind::Terrain,
    BackdropKind::Terrain,
];

/// The three color stops of each palette.
pub const PALETTE_STOPS: [[[u8; 3]; 3]; 38] = [
    [[49, 29, 130], [112, 52, 224], [44, 84, 228]],
    [[224, 158, 64], [214, 98, 40], [128, 46, 24]],
    [[10, 72, 92], [18, 152, 128], [88, 206, 196]],
    [[40, 26, 50], [150, 38, 94], [236, 96, 122]],
    [[14, 24, 58], [40, 78, 198], [92, 170, 248]],
    [[12, 58, 62], [24, 120, 120], [120, 206, 190]],
    [[60, 26, 44], [184, 80, 86], [248, 158, 120]],
    [[16, 18, 26], [48, 56, 78], [120, 132, 164]],
    [[92, 72, 10], [206, 158, 24], [248, 214, 92]],
    [[8, 6, 18], [58, 22, 48], [128, 52, 84]],
    [[10, 10, 14], [40, 58, 52], [96, 120, 88]],
    [[6, 8, 20], [24, 40, 86], [70, 110, 180]],
    [[14, 8, 10], [70, 50, 30], [130, 90, 120]],
    [[10, 8, 8], [50, 38, 28], [140, 110, 80]],
    [[8, 8, 14], [40, 36, 50], [110, 100, 110]],
    [[12, 6, 8], [60, 16, 28], [140, 40, 60]],
    [[10, 6, 14], [64, 24, 54], [150, 70, 110]],
    [[10, 8, 16], [52, 40, 36], [124, 96, 70]],
    [[10, 8, 14], [54, 30, 58], [126, 64, 96]],
    [[8, 10, 16], [38, 52, 66], [96, 120, 140]],
    [[12, 10, 10], [48, 42, 36], [128, 112, 88]],
    [[18, 26, 20], [34, 48, 36], [96, 124, 86]],
    [[16, 22, 38], [28, 38, 62], [78, 100, 150]],
    [[10, 32, 64], [16, 46, 88], [140, 190, 240]],
    [[238, 232, 214], [228, 220, 198], [70, 80, 96]],
    [[236, 226, 214], [226, 212, 196], [178, 44, 44]],
    [[40, 32, 22], [58, 46, 30], [162, 120, 54]],
    [[0, 33, 87], [1, 79, 123], [0, 43, 88]],
    [[38, 67, 78], [136, 129, 115], [233, 200, 157]],
    [[13, 34, 62], [23, 48, 88], [216, 193, 169]],
    [[156, 152, 164], [136, 129, 143], [111, 106, 118]],
    [[18, 49, 79], [1, 127, 138], [5, 114, 139]],
    [[94, 141, 194], [131, 178, 226], [201, 227, 248]],
    [[23, 31, 48], [116, 38, 69], [12, 13, 17]],
    [[196, 168, 120], [168, 122, 64], [74, 50, 28]],
    [[180, 150, 130], [150, 86, 54], [92, 56, 40]],
    [[170, 150, 120], [120, 96, 72], [86, 70, 60]],
    [[150, 178, 200], [200, 222, 240], [70, 110, 150]],
];

/// The first glow (light source, overcheck accent) of each palette.
pub const PALETTE_GLOW_A: [[u8; 3]; 38] = [
    [235, 96, 190],
    [252, 214, 140],
    [150, 235, 190],
    [250, 152, 100],
    [142, 102, 248],
    [180, 240, 220],
    [255, 206, 150],
    [190, 204, 236],
    [255, 246, 180],
    [255, 140, 160],
    [230, 190, 110],
    [160, 200, 255],
    [255, 190, 90],
    [255, 220, 170],
    [255, 225, 180],
    [235, 90, 110],
    [255, 150, 190],
    [240, 200, 140],
    [220, 120, 230],
    [255, 170, 140],
    [255, 232, 190],
    [214, 178, 96],
    [220, 228, 240],
    [235, 245, 255],
    [176, 70, 60],
    [250, 244, 236],
    [232, 196, 120],
    [127, 168, 196],
    [250, 219, 168],
    [247, 228, 193],
    [187, 176, 182],
    [100, 212, 185],
    [255, 255, 255],
    [160, 36, 71],
    [248, 214, 150],
    [240, 180, 120],
    [220, 190, 140],
    [255, 255, 255],
];

/// The second glow (shadow, second accent) of each palette.
pub const PALETTE_GLOW_B: [[u8; 3]; 38] = [
    [132, 196, 255],
    [170, 50, 30],
    [36, 96, 176],
    [124, 72, 200],
    [132, 228, 250],
    [40, 120, 180],
    [140, 74, 170],
    [70, 90, 140],
    [200, 96, 40],
    [120, 200, 210],
    [90, 180, 190],
    [210, 230, 255],
    [110, 150, 230],
    [255, 170, 120],
    [130, 160, 220],
    [255, 180, 110],
    [130, 170, 240],
    [110, 170, 200],
    [120, 220, 200],
    [150, 200, 255],
    [150, 170, 210],
    [140, 60, 52],
    [180, 60, 70],
    [90, 150, 210],
    [110, 140, 120],
    [120, 30, 30],
    [96, 112, 88],
    [0, 22, 58],
    [43, 46, 37],
    [2, 3, 1],
    [85, 80, 92],
    [10, 62, 87],
    [127, 160, 189],
    [15, 20, 27],
    [60, 36, 20],
    [70, 40, 30],
    [60, 48, 40],
    [40, 80, 120],
];

/// The name of palette `i`.
pub open spec fn palette_name(i: int) -> Seq<char> {
    PALETTE_NAMES@[i]@
}

/// Palette names are distinct, so a name selects at most one palette.
pub proof fn lemma_palette_names_unique(i: int, j: int)
    requires
        0 <= i < 38,
        0 <= j < 38,
        i != j,
    ensures
        palette_name(i) != palette_name(j),
{
    reveal_strlit("violet-haze");
    assert("violet-haze"@ =~= seq!['v', 'i', 'o', 'l', 'e', 't', '-', 'h', 'a', 'z', 'e']);
    reveal_strlit("ember-glow");
    assert("ember-glow"@ =~= seq!['e', 'm', 'b', 'e', 'r', '-', 'g', 'l', 'o', 'w']);
    reveal_strlit("aurora-teal");
    assert("aurora-teal"@ =~= seq!['a', 'u', 'r', 'o', 'r', 'a', '-', 't', 'e', 'a', 'l']);
    reveal_strlit("rose-noir");
    assert("rose-noir"@ =~= seq!['r', 'o', 's', 'e', '-', 'n', 'o', 'i', 'r']);
    reveal_strlit("midnight-sky");
    assert("midnight-sky"@ =~= seq!['m', 'i', 'd', 'n', 'i', 'g', 'h', 't', '-', 's', 'k', 'y']);
    reveal_strlit("sea-glass");
    assert("sea-glass"@ =~= seq!['s', 'e', 'a', '-', 'g', 'l', 'a', 's', 's']);
    reveal_strlit("peach-dusk");
    assert("peach-dusk"@ =~= seq!['p', 'e', 'a', 'c', 'h', '-', 'd', 'u', 's', 'k']);
    reveal_strlit("ink-wash");
    assert("ink-wash"@ =~= seq!['i', 'n', 'k', '-', 'w', 'a', 's', 'h']);
    reveal_strlit("citrus-noon");
    assert("citrus-noon"@ =~= seq!['c', 'i', 't', 'r', 'u', 's', '-', 'n', 'o', 'o', 'n']);
    reveal_strlit("orion-emission");
    assert("orion-emission"@ =~= seq!['o', 'r', 'i', 'o', 'n', '-', 'e', 'm', 'i', 's', 's', 'i', 'o', 'n']);
    reveal_strlit("carina-hubble");
    assert("carina-hubble"@ =~= seq!['c', 'a', 'r', 'i', 'n', 'a', '-', 'h', 'u', 'b', 'b', 'l', 'e']);
    reveal_strlit("pleiades-reflection");
    assert("pleiades-reflection"@ =~= seq!['p', 'l', 'e', 'i', 'a', 'd', 'e', 's', '-', 'r', 'e', 'f', 'l', 'e', 'c', 't', 'i', 'o', 'n']);
    reveal_strlit("rho-ophiuchi");
    assert("rho-ophiuchi"@ =~= seq!['r', 'h', 'o', '-', 'o', 'p', 'h', 'i', 'u', 'c', 'h', 'i']);
    reveal_strlit("milkyway-core");
    assert("milkyway-core"@ =~= seq!['m', 'i', 'l', 'k', 'y', 'w', 'a', 'y', '-', 'c', 'o', 'r', 'e']);
    reveal_strlit("andromeda-haze");
    assert("andromeda-haze"@ =~= seq!['a', 'n', 'd', 'r', 'o', 'm', 'e', 'd', 'a', '-', 'h', 'a', 'z', 'e']);
    reveal_strlit("horsehead-flame");
    assert("horsehead-flame"@ =~= seq!['h', 'o', 'r', 's', 'e', 'h', 'e', 'a', 'd', '-', 'f', 'l', 'a', 'm', 'e']);
    reveal_strlit("lagoon-trifid");
    assert("lagoon-trifid"@ =~= seq!['l', 'a', 'g', 'o', 'o', 'n', '-', 't', 'r', 'i', 'f', 'i', 'd']);
    reveal_strlit("eagle-pillars");
    assert("eagle-pillars"@ =~= seq!['e', 'a', 'g', 'l', 'e', '-', 'p', 'i', 'l', 'l', 'a', 'r', 's']);
    reveal_strlit("crab-remnant");
    assert("crab-remnant"@ =~= seq!['c', 'r', 'a', 'b', '-', 'r', 'e', 'm', 'n', 'a', 'n', 't']);
    reveal_strlit("tarantula-web");
    assert("tarantula-web"@ =~= seq!['t', 'a', 'r', 'a', 'n', 't', 'u', 'l', 'a', '-', 'w', 'e', 'b']);
    reveal_strlit("sombrero-dust");
    assert("sombrero-dust"@ =~= seq!['s', 'o', 'm', 'b', 'r', 'e', 'r', 'o', '-', 'd', 'u', 's', 't']);
    reveal_strlit("tartan-moss");
    assert("tartan-moss"@ =~= seq!['t', 'a', 'r', 't', 'a', 'n', '-', 'm', 'o', 's', 's']);
    reveal_strlit("oxford-navy");
    assert("oxford-navy"@ =~= seq!['o', 'x', 'f', 'o', 'r', 'd', '-', 'n', 'a', 'v', 'y']);
    reveal_strlit("blueprint");
    assert("blueprint"@ =~= seq!['b', 'l', 'u', 'e', 'p', 'r', 'i', 'n', 't']);
    reveal_strlit("ledger-cream");
    assert("ledger-cream"@ =~= seq!['l', 'e', 'd', 'g', 'e', 'r', '-', 'c', 'r', 'e', 'a', 'm']);
    reveal_strlit("picnic-red");
    assert("picnic-red"@ =~= seq!['p', 'i', 'c', 'n', 'i', 'c', '-', 'r', 'e', 'd']);
    reveal_strlit("workshop-ochre");
    assert("workshop-ochre"@ =~= seq!['w', 'o', 'r', 'k', 's', 'h', 'o', 'p', '-', 'o', 'c', 'h', 'r', 'e']);
    reveal_strlit("blue-hour");
    assert("blue-hour"@ =~= seq!['b', 'l', 'u', 'e', '-', 'h', 'o', 'u', 'r']);
    reveal_strlit("golden-hour");
    assert("golden-hour"@ =~= seq!['g', 'o', 'l', 'd', 'e', 'n', '-', 'h', 'o', 'u', 'r']);
    reveal_strlit("supercell");
    assert("supercell"@ =~= seq!['s', 'u', 'p', 'e', 'r', 'c', 'e', 'l', 'l']);
    reveal_strlit("mammatus");
    assert("mammatus"@ =~= seq!['m', 'a', 'm', 'm', 'a', 't', 'u', 's']);
    reveal_strlit("aurora-curtain");
    assert("aurora-curtain"@ =~= seq!['a', 'u', 'r', 'o', 'r', 'a', '-', 'c', 'u', 'r', 't', 'a', 'i', 'n']);
    reveal_strlit("cirrus-blue");
    assert("cirrus-blue"@ =~= seq!['c', 'i', 'r', 'r', 'u', 's', '-', 'b', 'l', 'u', 'e']);
    reveal_strlit("alpenglow");
    assert("alpenglow"@ =~= seq!['a', 'l', 'p', 'e', 'n', 'g', 'l', 'o', 'w']);
    reveal_strlit("dunes");
    assert("dunes"@ =~= seq!['d', 'u', 'n', 'e', 's']);
    reveal_strlit("mesa");
    assert("mesa"@ =~= seq!['m', 'e', 's', 'a']);
    reveal_strlit("badlands");
    assert("badlands"@ =~= seq!['b', 'a', 'd', 'l', 'a', 'n', 'd', 's']);
    reveal_strlit("glacier");
    assert("glacier"@ =~= seq!['g', 'l', 'a', 'c', 'i', 'e', 'r']);
}

/// The family label a menu shows for a backdrop kind.
pub open spec fn kind_label(kind: BackdropKind) -> Seq<char> {
    match kind {
        BackdropKind::Gradient => "gradient"@,
        BackdropKind::Space => "space"@,
        BackdropKind::Pattern => "pattern"@,
        BackdropKind::Sky => "sky"@,
        BackdropKind::Terrain => "terrain"@,
    }
}

fn kind_label_exec(kind: BackdropKind) -> (r: &'static str)
    ensures
        r@ == kind_label(kind),
{
    match kind {
        BackdropKind::Gradient => "gradient",
        BackdropKind::Space => "space",
        BackdropKind::Pattern => "pattern",
        BackdropKind::Sky => "sky",
        BackdropKind::Terrain => "terrain",
    }
}

/// All palette names accepted by `style_with_palette`, in table order.
pub fn palette_names() -> (r: Vec<&'static str>)
    ensures
        r@.len() == 38,
        forall|i: int| 0 <= i < 38 ==> #[trigger] r@[i]@ == palette_name(i),
{
    let mut r: Vec<&'static str> = Vec::new();
    for i in 0..PALETTE_COUNT
        invariant
            r@.len() == i,
            forall|j: int| 0 <= j < i ==> #[trigger] r@[j]@ == palette_name(j),
    {
        r.push(PALETTE_NAMES[i]);
    }
    r
}

/// The backdrop family of palette `i`.
pub open spec fn palette_kind(i: int) -> BackdropKind {
    PALETTE_KINDS@[i]
}

/// Every palette paired with its backdrop family label (`gradient`, `space`,
/// `pattern`, `sky` or `terrain`), for menus that group the families.
pub fn palette_catalog() -> (r: Vec<(&'static str, &'static str)>)
    ensures
        r@.len() == 38,
        forall|i: int| 0 <= i < 38 ==> #[trigger] r@[i].0@ == palette_name(i),
        forall|i: int| 0 <= i < 38 ==> #[trigger] r@[i].1@ == kind_label(palette_kind(i)),
{
    let mut r: Vec<(&'static str, &'static str)> = Vec::new();
    let mut i: usize = 0;
    while i < PALETTE_COUNT
        invariant
            i <= 38,
            r@.len() == i,
            forall|j: int| 0 <= j < i ==> #[trigger] r@[j].0@ == palette_name(j),
            forall|j: int| 0 <= j < i ==> #[trigger] r@[j].1@ == kind_label(palette_kind(j)),
        decreases 38 - i,
    {
        let name = PALETTE_NAMES[i];
        let label = kind_label_exec(PALETTE_KINDS[i]);
        r.push((name, label));
        i = i + 1;
    }
    r
}

// ---------------------------------------------------------------------------
// Name lists

/// The views of a list of owned strings.
pub open spec fn strings(values: Seq<String>) -> Seq<Seq<char>> {
    Seq::new(values.len(), |i: int| values[i]@)
}

/// Whether `values` holds `name`.
pub fn contains_name(values: &[String], name: &str) -> (r: bool)
    ensures
        r == strings(values@).contains(name@),
{
    let n = values.len();
    let mut i: usize = 0;
    while i < n
        invariant
            n == values@.len(),
            i <= n,
            forall|j: int| 0 <= j < i ==> values@[j]@ != name@,
        decreases n - i,
    {
        if str_eq(values[i].as_str(), name) {
            proof {
                assert(strings(values@)[i as int] == name@);
            }
            return true;
        }
        i = i + 1;
    }
    proof {
        if strings(values@).contains(name@) {
            let j = choose|j: int| 0 <= j < n && strings(values@)[j] == name@;
            assert(values@[j]@ == name@);
        }
    }
    false
}

/// The entries of `known`, in order, that `wanted` names.
pub open spec fn keep_wanted(known: Seq<Seq<char>>, wanted: Seq<Seq<char>>) -> Seq<Seq<char>>
    decreases known.len(),
{
    if known.len() == 0 {
        Seq::empty()
    } else {
        keep_wanted(known.drop_last(), wanted) + if wanted.contains(known.last()) {
            seq![known.last()]
        } else {
            Seq::empty()
        }
    }
}

/// Everything `keep_wanted` keeps is both known and wanted.
pub proof fn lemma_keep_wanted_subset(known: Seq<Seq<char>>, wanted: Seq<Seq<char>>, x: Seq<char>)
    requires
        keep_wanted(known, wanted).contains(x),
    ensures
        known.contains(x),
        wanted.contains(x),
    decreases known.len(),
{
    let rest = keep_wanted(known.drop_last(), wanted);
    let j = choose|j: int|
        0 <= j < keep_wanted(known, wanted).len() && keep_wanted(known, wanted)[j] == x;
    if j < rest.len() {
        assert(rest[j] == x);
        lemma_keep_wanted_subset(known.drop_last(), wanted, x);
        let k = choose|k: int| 0 <= k < known.drop_last().len() && known.drop_last()[k] == x;
        assert(known[k] == x);
    } else {
        assert(known[known.len() - 1] == x);
    }
}

/// A known and wanted entry is kept.
pub proof fn lemma_keep_wanted_keeps(known: Seq<Seq<char>>, wanted: Seq<Seq<char>>, x: Seq<char>)
    requires
        known.contains(x),
        wanted.contains(x),
    ensures
        keep_wanted(known, wanted).contains(x),
    decreases known.len(),
{
    if known.last() == x {
        let kept = keep_wanted(known, wanted);
        assert(kept[kept.len() - 1] == x);
    } else {
        let k = choose|k: int| 0 <= k < known.len() && known[k] == x;
        assert(known.drop_last()[k] == x);
        lemma_keep_wanted_keeps(known.drop_last(), wanted, x);
        let rest = keep_wanted(known.drop_last(), wanted);
        let j = choose|j: int| 0 <= j < rest.len() && rest[j] == x;
        assert(keep_wanted(known, wanted)[j] == x);
    }
}

/// The names of `known` that `wanted` holds, in the order of `known`.
pub fn filter_known(known: &[&'static str], wanted: &[String]) -> (r: Vec<&'static str>)
    ensures
        views(r@) == keep_wanted(views(known@), strings(wanted@)),
{
    let mut r: Vec<&'static str> = Vec::new();
    let n = known.len();
    let mut i: usize = 0;
    while i < n
        invariant
            n == known@.len(),
            i <= n,
            views(r@) == keep_wanted(views(known@).take(i as int), strings(wanted@)),
        decreases n - i,
    {
        let name = known[i];
        let ghost before = r@;
        proof {
            assert(views(known@).take(i + 1).drop_last() =~= views(known@).take(i as int));
            assert(views(known@).take(i + 1).last() == name@);
        }
        if contains_name(wanted, name) {
            r.push(name);
            proof {
                assert(views(r@) =~= views(before) + seq![name@]);
            }
        } else {
            proof {
                assert(views(r@) =~= views(before) + Seq::<Seq<char>>::empty());
            }
        }
        i = i + 1;
    }
    proof {
        assert(views(known@).take(n as int) =~= views(known@));
    }
    r
}

/// All scene names accepted by `--scene` / [`scene_from_name`], in menu order.
pub fn scene_names() -> (r: Vec<&'static str>)
    ensures
        r@.len() == 16,
        forall|i: int| 0 <= i < 16 ==> #[trigger] r@[i] == SceneKind::NAMES@[i],
{
    let mut r: Vec<&'static str> = Vec::new();
    for i in 0..16usize
        invariant
            r@.len() == i,
            forall|j: int| 0 <= j < i ==> #[trigger] r@[j] == SceneKind::NAMES@[j],
    {
        r.push(SceneKind::NAMES[i]);
    }
    r
}

/// Parse a `--scene` value into a [`SceneKind`].
pub fn scene_from_name(name: &str) -> (r: Option<SceneKind>)
    ensures
        r == SceneKind::spec_from_name(name@),
{
    SceneKind::from_name(name)
}

/// All motif names accepted by `--motif` / [`motif_from_name`], in menu order.
pub fn motif_names() -> (r: Vec<&'static str>)
    ensures
        r@.len() == 12,
        forall|i: int| 0 <= i < 12 ==> #[trigger] r@[i] == MotifKind::NAMES@[i],
{
    let mut r: Vec<&'static str> = Vec::new();
    for i in 0..12usize
        invariant
            r@.len() == i,
            forall|j: int| 0 <= j < i ==> #[trigger] r@[j] == MotifKind::NAMES@[j],
    {
        r.push(MotifKind::NAMES[i]);
    }
    r
}

/// Parse a `--motif` value into a [`MotifKind`].
pub fn motif_from_name(name: &str) -> (r: Option<MotifKind>)
    ensures
        r == MotifKind::spec_from_name(name@),
{
    MotifKind::from_name(name)
}

/// All sky names accepted by `--sky` / [`sky_from_name`], in menu order.
pub fn sky_names() -> (r: Vec<&'static str>)
    ensures
        r@.len() == 10,
        forall|i: int| 0 <= i < 10 ==> #[trigger] r@[i] == SkyKind::NAMES@[i],
{
    let mut r: Vec<&'static str> = Vec::new();
    for i in 0..10usize
        invariant
            r@.len() == i,
            forall|j: int| 0 <= j < i ==> #[trigger] r@[j] == SkyKind::NAMES@[j],
    {
        r.push(SkyKind::NAMES[i]);
    }
    r
}

/// Parse a `--sky` value into a [`SkyKind`].
pub fn sky_from_name(name: &str) -> (r: Option<SkyKind>)
    ensures
        r == SkyKind::spec_from_name(name@),
{
    SkyKind::from_name(name)
}

/// All terrain names accepted by `--terrain` / [`terrain_from_name`], in menu
/// order.
pub fn terrain_names() -> (r: Vec<&'static str>)
    ensures
        r@.len() == 4,
        forall|i: int| 0 <= i < 4 ==> #[trigger] r@[i] == TerrainKind::NAMES@[i],
{
    let mut r: Vec<&'static str> = Vec::new();
    for i in 0..4usize
        invariant
            r@.len() == i,
            forall|j: int| 0 <= j < i ==> #[trigger] r@[j] == TerrainKind::NAMES@[j],
    {
        r.push(TerrainKind::NAMES[i]);
    }
    r
}

/// Parse a `--terrain` value into a [`TerrainKind`].
pub fn terrain_from_name(name: &str) -> (r: Option<TerrainKind>)
    ensures
        r == TerrainKind::spec_from_name(name@),
{
    TerrainKind::from_name(name)
}

// ---------------------------------------------------------------------------
// Styles

/// The palette and backdrop choices of one card. The painter derives the card
/// geometry (padding, radius, shadow, angles, glow positions) from `seed`.
#[derive(Debug, Clone)]
pub struct PresentationStyle {
    pub seed: u64,
    pub palette_name: String,
    pub backdrop: BackdropKind,
    pub stops: [[u8; 3]; 3],
    pub glow_a: [u8; 3],
    pub glow_b: [u8; 3],
    /// Optional pinned space scene; `None` lets the seed pick at random.
    pub scene: Option<SceneKind>,
    /// Optional pinned pattern motif; `None` lets the seed pick at random.
    pub motif: Option<MotifKind>,
    /// Optional pinned sky condition; `None` lets the seed pick at random.
    pub sky: Option<SkyKind>,
    /// Optional pinned terrain kind; `None` lets the seed pick at random.
    pub terrain: Option<TerrainKind>,
}

/// The style carries every color of palette `i`.
pub open spec fn wears_palette(style: PresentationStyle, i: int) -> bool {
    &&& 0 <= i < 38
    &&& style.palette_name@ == palette_name(i)
    &&& style.backdrop == palette_kind(i)
    &&& style.stops == PALETTE_STOPS@[i]
    &&& style.glow_a == PALETTE_GLOW_A@[i]
    &&& style.glow_b == PALETTE_GLOW_B@[i]
}

/// Every palette name, in table order.
pub open spec fn table_names() -> Seq<Seq<char>> {
    Seq::new(38, |i: int| palette_name(i))
}

/// The names of the first `n` palettes whose family is `kind`.
pub open spec fn names_of_kind(kind: BackdropKind, n: int) -> Seq<Seq<char>>
    decreases n,
{
    if n <= 0 {
        Seq::empty()
    } else {
        names_of_kind(kind, n - 1) + if palette_kind(n - 1) == kind {
            seq![palette_name(n - 1)]
        } else {
            Seq::empty()
        }
    }
}

/// The palettes a seed may draw: the wanted palettes that exist, or every
/// space palette when that leaves nothing.
pub open spec fn palette_pool(wanted: Seq<Seq<char>>) -> Seq<Seq<char>> {
    let allowed = keep_wanted(table_names(), wanted);
    if allowed.len() == 0 {
        names_of_kind(BackdropKind::Space, 38)
    } else {
        allowed
    }
}

/// The second-axis pick for a family: nothing when the pool is empty, else
/// the rendezvous winner among the known names the pool lists.
pub open spec fn axis_pick(seed: u64, known: Seq<Seq<char>>, wanted: Seq<Seq<char>>) -> Option<
    Seq<char>,
> {
    if wanted.len() == 0 {
        None
    } else {
        pick(seed, keep_wanted(known, wanted))
    }
}

/// The names of a catalog, as views.
pub open spec fn menu_names<const N: usize>(names: [&'static str; N]) -> Seq<Seq<char>> {
    views(names@)
}

/// The scene a pool pins, if any.
pub open spec fn pooled_scene(seed: u64, wanted: Seq<Seq<char>>) -> Option<SceneKind> {
    match axis_pick(seed, menu_names(SceneKind::NAMES), wanted) {
        Some(name) => SceneKind::spec_from_name(name),
        None => None,
    }
}

/// The motif a pool pins, if any.
pub open spec fn pooled_motif(seed: u64, wanted: Seq<Seq<char>>) -> Option<MotifKind> {
    match axis_pick(seed, menu_names(MotifKind::NAMES), wanted) {
        Some(name) => MotifKind::spec_from_name(name),
        None => None,
    }
}

/// The sky a pool pins, if any.
pub open spec fn pooled_sky(seed: u64, wanted: Seq<Seq<char>>) -> Option<SkyKind> {
    match axis_pick(seed, menu_names(SkyKind::NAMES), wanted) {
        Some(name) => SkyKind::spec_from_name(name),
        None => None,
    }
}

/// The terrain a pool pins, if any.
pub open spec fn pooled_terrain(seed: u64, wanted: Seq<Seq<char>>) -> Option<TerrainKind> {
    match axis_pick(seed, menu_names(TerrainKind::NAMES), wanted) {
        Some(name) => TerrainKind::spec_from_name(name),
        None => None,
    }
}

impl PresentationStyle {
    /// Whether this style paints a procedural space scene.
    pub fn is_space(&self) -> (r: bool)
        ensures
            r == (self.backdrop == BackdropKind::Space),
    {
        self.backdrop == BackdropKind::Space
    }

    /// Whether this style paints a geometric pattern.
    pub fn is_pattern(&self) -> (r: bool)
        ensures
            r == (self.backdrop == BackdropKind::Pattern),
    {
        self.backdrop == BackdropKind::Pattern
    }

    /// Whether this style paints a procedural sky.
    pub fn is_sky(&self) -> (r: bool)
        ensures
            r == (self.backdrop == BackdropKind::Sky),
    {
        self.backdrop == BackdropKind::Sky
    }

    /// Whether this style paints a procedural terrain scene.
    pub fn is_terrain(&self) -> (r: bool)
        ensures
            r == (self.backdrop == BackdropKind::Terrain),
    {
        self.backdrop == BackdropKind::Terrain
    }
}

/// The style of palette `i` for `seed`, with no second axis pinned.
fn style_of(seed: u64, i: usize) -> (style: PresentationStyle)
    requires
        i < 38,
    ensures
        style.seed == seed,
        wears_palette(style, i as int),
        style.scene is None,
        style.motif is None,
        style.sky is None,
        style.terrain is None,
{
    PresentationStyle {
        seed,
        palette_name: String::from_str(PALETTE_NAMES[i]),
        backdrop: PALETTE_KINDS[i],
        stops: PALETTE_STOPS[i],
        glow_a: PALETTE_GLOW_A[i],
        glow_b: PALETTE_GLOW_B[i],
        scene: None,
        motif: None,
        sky: None,
        terrain: None,
    }
}

/// The index of the palette named `name`.
pub(crate) fn palette_index(name: &str) -> (r: Option<usize>)
    ensures
        r matches Some(i) ==> i < 38 && palette_name(i as int) == name@,
        r is None ==> !table_names().contains(name@),
{
    let mut i: usize = 0;
    while i < PALETTE_COUNT
        invariant
            i <= 38,
            forall|j: int| 0 <= j < i ==> palette_name(j) != name@,
        decreases 38 - i,
    {
        if str_eq(PALETTE_NAMES[i], name) {
            return Some(i);
        }
        i = i + 1;
    }
    proof {
        if table_names().contains(name@) {
            let j = choose|j: int| 0 <= j < 38 && table_names()[j] == name@;
            assert(palette_name(j) == name@);
        }
    }
    None
}

/// The space palettes, in table order.
fn space_palette_names() -> (r: Vec<&'static str>)
    ensures
        views(r@) == names_of_kind(BackdropKind::Space, 38),
{
    let mut r: Vec<&'static str> = Vec::new();
    let mut i: usize = 0;
    while i < PALETTE_COUNT
        invariant
            i <= 38,
            views(r@) == names_of_kind(BackdropKind::Space, i as int),
        decreases 38 - i,
    {
        let ghost before = r@;
        if PALETTE_KINDS[i] == BackdropKind::Space {
            r.push(PALETTE_NAMES[i]);
            assert(views(r@) =~= views(before) + seq![palette_name(i as int)]);
        } else {
            assert(views(r@) =~= views(before) + Seq::<Seq<char>>::empty());
        }
        i = i + 1;
    }
    r
}

/// Every palette name, in table order.
fn all_palette_names() -> (r: Vec<&'static str>)
    ensures
        views(r@) == table_names(),
{
    let r = palette_names();
    assert(views(r@) =~= table_names());
    r
}

/// A palette of family `kind` among the first `n` is listed by
/// `names_of_kind`, and everything listed is such a palette.
pub proof fn lemma_names_of_kind(kind: BackdropKind, n: int, x: Seq<char>)
    requires
        0 <= n <= 38,
    ensures
        names_of_kind(kind, n).contains(x) <==> exists|i: int|
            0 <= i < n && palette_kind(i) == kind && #[trigger] palette_name(i) == x,
    decreases n,
{
    if n > 0 {
        lemma_names_of_kind(kind, n - 1, x);
        let rest = names_of_kind(kind, n - 1);
        let all = names_of_kind(kind, n);
        if all.contains(x) {
            let j = choose|j: int| 0 <= j < all.len() && all[j] == x;
            if j < rest.len() {
                assert(rest[j] == x);
            } else {
                assert(palette_name(n - 1) == x);
            }
        }
        if exists|i: int| 0 <= i < n && palette_kind(i) == kind && #[trigger] palette_name(i) == x {
            let i = choose|i: int|
                0 <= i < n && palette_kind(i) == kind && #[trigger] palette_name(i) == x;
            if i < n - 1 {
                let j = choose|j: int| 0 <= j < rest.len() && rest[j] == x;
                assert(all[j] == x);
            } else {
                assert(all[all.len() - 1] == x);
            }
        }
    }
}

/// The default rotation is not empty: it holds every space palette.
proof fn lemma_space_pool_nonempty()
    ensures
        names_of_kind(BackdropKind::Space, 38).len() > 0,
{
    lemma_names_of_kind(BackdropKind::Space, 38, palette_name(9));
    assert(palette_kind(9) == BackdropKind::Space);
}

/// Every name in a palette pool is a palette name.
proof fn lemma_pool_in_table(wanted: Seq<Seq<char>>, x: Seq<char>)
    requires
        palette_pool(wanted).contains(x),
    ensures
        table_names().contains(x),
{
    if keep_wanted(table_names(), wanted).len() == 0 {
        lemma_names_of_kind(BackdropKind::Space, 38, x);
        let i = choose|i: int|
            0 <= i < 38 && palette_kind(i) == BackdropKind::Space && #[trigger] palette_name(i)
                == x;
        assert(table_names()[i] == x);
    } else {
        lemma_keep_wanted_subset(table_names(), wanted, x);
    }
}

/// The winner among the known names that `wanted` lists, if any.
fn pick_wanted(seed: u64, known: &[&'static str], wanted: &[String]) -> (r: Option<&'static str>)
    ensures
        r matches Some(name) ==> pick(seed, keep_wanted(views(known@), strings(wanted@)))
            == Some(name@),
        r is None ==> pick(seed, keep_wanted(views(known@), strings(wanted@))) is None,
{
    let allowed = filter_known(known, wanted);
    pick_by_affinity(seed, allowed.as_slice())
}

/// Seeded style whose random picks are confined to the caller's allow-lists.
///
/// An empty list means "no constraint". Names the tables do not know are
/// ignored here; validating and reporting them belongs to the caller that
/// owns the user-facing warnings. If that leaves no palette at all, the
/// built-in space pool is used rather than failing a capture over a
/// preferences typo. A second-axis pool is honored only when the chosen
/// palette belongs to that family.
pub fn style_from_seed_in_pool(
    seed: u64,
    palettes: &[String],
    scenes: &[String],
    motifs: &[String],
    skies: &[String],
    terrains: &[String],
) -> (style: PresentationStyle)
    ensures
        style.seed == seed,
        pick(seed, palette_pool(strings(palettes@))) == Some(style.palette_name@),
        exists|i: int| wears_palette(style, i),
        style.scene == (if style.backdrop == BackdropKind::Space {
            pooled_scene(seed, strings(scenes@))
        } else {
            None
        }),
        style.motif == (if style.backdrop == BackdropKind::Pattern {
            pooled_motif(seed, strings(motifs@))
        } else {
            None
        }),
        style.sky == (if style.backdrop == BackdropKind::Sky {
            pooled_sky(seed, strings(skies@))
        } else {
            None
        }),
        style.terrain == (if style.backdrop == BackdropKind::Terrain {
            pooled_terrain(seed, strings(terrains@))
        } else {
            None
        }),
{
    let all = all_palette_names();
    let allowed = filter_known(all.as_slice(), palettes);
    let pool = if allowed.len() == 0 {
        space_palette_names()
    } else {
        allowed
    };
    proof {
        assert(views(pool@) == palette_pool(strings(palettes@)));
        lemma_space_pool_nonempty();
        crate::rendezvous::lemma_pick_is_best(seed, views(pool@));
    }
    let chosen = match pick_by_affinity(seed, pool.as_slice()) {
        Some(name) => name,
        None => PALETTE_NAMES[0],
    };
    proof {
        lemma_pool_in_table(strings(palettes@), chosen@);
    }
    let index = match palette_index(chosen) {
        Some(i) => i,
        None => 0,
    };
    let mut style = style_of(seed, index);
    if style.is_space() && scenes.len() > 0 {
        style.scene = match pick_wanted(seed, SceneKind::NAMES.as_slice(), scenes) {
            Some(name) => scene_from_name(name),
            None => None,
        };
    }
    if style.is_pattern() && motifs.len() > 0 {
        style.motif = match pick_wanted(seed, MotifKind::NAMES.as_slice(), motifs) {
            Some(name) => motif_from_name(name),
            None => None,
        };
    }
    if style.is_sky() && skies.len() > 0 {
        style.sky = match pick_wanted(seed, SkyKind::NAMES.as_slice(), skies) {
            Some(name) => sky_from_name(name),
            None => None,
        };
    }
    if style.is_terrain() && terrains.len() > 0 {
        style.terrain = match pick_wanted(seed, TerrainKind::NAMES.as_slice(), terrains) {
            Some(name) => terrain_from_name(name),
            None => None,
        };
    }
    assert(wears_palette(style, index as int));
    style
}

/// With nothing wanted, nothing is kept.
pub proof fn lemma_keep_nothing(known: Seq<Seq<char>>, wanted: Seq<Seq<char>>)
    requires
        forall|j: int| 0 <= j < known.len() ==> !wanted.contains(#[trigger] known[j]),
    ensures
        keep_wanted(known, wanted).len() == 0,
    decreases known.len(),
{
    if known.len() > 0 {
        assert forall|j: int| 0 <= j < known.drop_last().len() implies !wanted.contains(
            #[trigger] known.drop_last()[j],
        ) by {
            assert(known.drop_last()[j] == known[j]);
        }
        lemma_keep_nothing(known.drop_last(), wanted);
        assert(known[known.len() - 1] == known.last());
    }
}

/// Pool entries that name no palette leave the default rotation in place.
pub proof fn lemma_unknown_pool_is_default(wanted: Seq<Seq<char>>)
    requires
        forall|j: int| 0 <= j < wanted.len() ==> !table_names().contains(#[trigger] wanted[j]),
    ensures
        palette_pool(wanted) == names_of_kind(BackdropKind::Space, 38),
{
    assert forall|j: int| 0 <= j < table_names().len() implies !wanted.contains(
        #[trigger] table_names()[j],
    ) by {
        if wanted.contains(table_names()[j]) {
            let k = choose|k: int| 0 <= k < wanted.len() && wanted[k] == table_names()[j];
            assert(!table_names().contains(wanted[k]));
        }
    }
    lemma_keep_nothing(table_names(), wanted);
}

/// When a palette pool names at least one real palette, the draw stays
/// inside the pool.
pub proof fn lemma_pool_confines_the_pick(seed: u64, wanted: Seq<Seq<char>>)
    requires
        exists|j: int| 0 <= j < wanted.len() && table_names().contains(#[trigger] wanted[j]),
    ensures
        pick(seed, palette_pool(wanted)) matches Some(name) ==> wanted.contains(name)
            && table_names().contains(name),
{
    let j = choose|j: int| 0 <= j < wanted.len() && table_names().contains(#[trigger] wanted[j]);
    assert(wanted.contains(wanted[j]));
    lemma_keep_wanted_keeps(table_names(), wanted, wanted[j]);
    let allowed = keep_wanted(table_names(), wanted);
    assert(allowed.len() > 0);
    crate::rendezvous::lemma_pick_is_best(seed, allowed);
    if let Some(name) = pick(seed, allowed) {
        lemma_keep_wanted_subset(table_names(), wanted, name);
    }
}

/// The random rotation leaves the space family only by name: a seeded pick
/// that wears a gradient, pattern, sky or terrain palette is one the pool
/// names explicitly.
pub proof fn lemma_other_families_only_by_name(
    seed: u64,
    wanted: Seq<Seq<char>>,
    style: PresentationStyle,
    k: int,
)
    requires
        pick(seed, palette_pool(wanted)) == Some(style.palette_name@),
        wears_palette(style, k),
        style.backdrop != BackdropKind::Space,
    ensures
        wanted.contains(style.palette_name@),
{
    let allowed = keep_wanted(table_names(), wanted);
    crate::rendezvous::lemma_pick_is_best(seed, palette_pool(wanted));
    if allowed.len() == 0 {
        lemma_space_name_is_space(style, k);
    } else {
        lemma_keep_wanted_subset(table_names(), wanted, style.palette_name@);
    }
}

/// A seed reproduces its style: two styles drawn from the same pool with the
/// same seed wear the same palette, colors included.
pub proof fn lemma_same_seed_same_palette(
    seed: u64,
    wanted: Seq<Seq<char>>,
    a: PresentationStyle,
    ka: int,
    b: PresentationStyle,
    kb: int,
)
    requires
        pick(seed, palette_pool(wanted)) == Some(a.palette_name@),
        pick(seed, palette_pool(wanted)) == Some(b.palette_name@),
        wears_palette(a, ka),
        wears_palette(b, kb),
    ensures
        a.palette_name@ == b.palette_name@,
        a.backdrop == b.backdrop,
        a.stops == b.stops,
        a.glow_a == b.glow_a,
        a.glow_b == b.glow_b,
{
    if ka != kb {
        lemma_palette_names_unique(ka, kb);
    }
}

/// A pooled scene, motif, sky or terrain is always one the pool names.
pub proof fn lemma_axis_pick_confined(seed: u64, known: Seq<Seq<char>>, wanted: Seq<Seq<char>>)
    ensures
        axis_pick(seed, known, wanted) matches Some(name) ==> wanted.contains(name)
            && known.contains(name),
{
    if wanted.len() > 0 {
        crate::rendezvous::lemma_pick_is_best(seed, keep_wanted(known, wanted));
        if let Some(name) = pick(seed, keep_wanted(known, wanted)) {
            lemma_keep_wanted_subset(known, wanted, name);
        }
    }
}

/// A sky pool that names at least one sky of the catalog pins a sky
/// the pool names: the pick is never dropped and never strays outside it.
pub proof fn lemma_sky_pool_pins(seed: u64, wanted: Seq<Seq<char>>, w: Seq<char>)
    requires
        wanted.contains(w),
        menu_names(SkyKind::NAMES).contains(w),
    ensures
        pooled_sky(seed, wanted) matches Some(k) && wanted.contains(k.spec_name()),
{
    let known = menu_names(SkyKind::NAMES);
    lemma_keep_wanted_keeps(known, wanted, w);
    crate::rendezvous::lemma_pick_is_best(seed, keep_wanted(known, wanted));
    lemma_axis_pick_confined(seed, known, wanted);
    let name = axis_pick(seed, known, wanted)->0;
    let i = choose|i: int| 0 <= i < known.len() && known[i] == name;
    crate::sky::lemma_menu_matches_names(i);
    crate::sky::lemma_name_round_trip(SkyKind::menu(i));
}

/// A scene pool that names at least one scene of the catalog pins a scene
/// the pool names: the pick is never dropped and never strays outside it.
pub proof fn lemma_scene_pool_pins(seed: u64, wanted: Seq<Seq<char>>, w: Seq<char>)
    requires
        wanted.contains(w),
        menu_names(SceneKind::NAMES).contains(w),
    ensures
        pooled_scene(seed, wanted) matches Some(k) && wanted.contains(k.spec_name()),
{
    let known = menu_names(SceneKind::NAMES);
    lemma_keep_wanted_keeps(known, wanted, w);
    crate::rendezvous::lemma_pick_is_best(seed, keep_wanted(known, wanted));
    lemma_axis_pick_confined(seed, known, wanted);
    let name = axis_pick(seed, known, wanted)->0;
    let i = choose|i: int| 0 <= i < known.len() && known[i] == name;
    crate::space::lemma_menu_matches_names(i);
    crate::space::lemma_name_round_trip(SceneKind::menu(i));
}

/// A motif pool that names at least one motif of the catalog pins a motif
/// the pool names: the pick is never dropped and never strays outside it.
pub proof fn lemma_motif_pool_pins(seed: u64, wanted: Seq<Seq<char>>, w: Seq<char>)
    requires
        wanted.contains(w),
        menu_names(MotifKind::NAMES).contains(w),
    ensures
        pooled_motif(seed, wanted) matches Some(k) && wanted.contains(k.spec_name()),
{
    let known = menu_names(MotifKind::NAMES);
    lemma_keep_wanted_keeps(known, wanted, w);
    crate::rendezvous::lemma_pick_is_best(seed, keep_wanted(known, wanted));
    lemma_axis_pick_confined(seed, known, wanted);
    let name = axis_pick(seed, known, wanted)->0;
    let i = choose|i: int| 0 <= i < known.len() && known[i] == name;
    crate::pattern::lemma_menu_matches_names(i);
    crate::pattern::lemma_name_round_trip(MotifKind::menu(i));
}

/// A terrain pool that names at least one terrain of the catalog pins a terrain
/// the pool names: the pick is never dropped and never strays outside it.
pub proof fn lemma_terrain_pool_pins(seed: u64, wanted: Seq<Seq<char>>, w: Seq<char>)
    requires
        wanted.contains(w),
        menu_names(TerrainKind::NAMES).contains(w),
    ensures
        pooled_terrain(seed, wanted) matches Some(k) && wanted.contains(k.spec_name()),
{
    let known = menu_names(TerrainKind::NAMES);
    lemma_keep_wanted_keeps(known, wanted, w);
    crate::rendezvous::lemma_pick_is_best(seed, keep_wanted(known, wanted));
    lemma_axis_pick_confined(seed, known, wanted);
    let name = axis_pick(seed, known, wanted)->0;
    let i = choose|i: int| 0 <= i < known.len() && known[i] == name;
    crate::terrain::lemma_menu_matches_names(i);
    crate::terrain::lemma_name_round_trip(TerrainKind::menu(i));
}

/// A style that wears the palette a space-pool name selects is a space style.
proof fn lemma_space_name_is_space(style: PresentationStyle, k: int)
    requires
        wears_palette(style, k),
        names_of_kind(BackdropKind::Space, 38).contains(style.palette_name@),
    ensures
        style.backdrop == BackdropKind::Space,
{
    lemma_names_of_kind(BackdropKind::Space, 38, style.palette_name@);
    let i = choose|i: int|
        0 <= i < 38 && palette_kind(i) == BackdropKind::Space && #[trigger] palette_name(i)
            == style.palette_name@;
    if i != k {
        lemma_palette_names_unique(i, k);
    }
}

/// The seeded style with no pools: the default space rotation.
pub fn style_from_seed(seed: u64) -> (style: PresentationStyle)
    ensures
        style.seed == seed,
        pick(seed, names_of_kind(BackdropKind::Space, 38)) == Some(style.palette_name@),
        exists|i: int| wears_palette(style, i),
        style.backdrop == BackdropKind::Space,
        style.scene is None,
        style.motif is None,
        style.sky is None,
        style.terrain is None,
{
    let none: Vec<String> = Vec::new();
    let style = style_from_seed_in_pool(
        seed,
        none.as_slice(),
        none.as_slice(),
        none.as_slice(),
        none.as_slice(),
        none.as_slice(),
    );
    proof {
        lemma_unknown_pool_is_default(strings(none@));
        let pool = names_of_kind(BackdropKind::Space, 38);
        crate::rendezvous::lemma_pick_is_best(seed, pool);
        let k = choose|k: int| wears_palette(style, k);
        lemma_space_name_is_space(style, k);
    }
    style
}

/// Seeded style with the palette pinned to `palette_name` instead of the
/// seed's random pick. Returns `None` for an unknown palette name.
pub fn style_with_palette(seed: u64, palette_name: &str) -> (r: Option<PresentationStyle>)
    ensures
        r is None <==> !table_names().contains(palette_name@),
        r matches Some(style) ==> style.seed == seed && style.palette_name@ == palette_name@
            && exists|i: int| wears_palette(style, i),
        r matches Some(style) ==> style.scene is None && style.motif is None && style.sky is None
            && style.terrain is None,
{
    let index = palette_index(palette_name)?;
    let mut style = style_from_seed(seed);
    style.palette_name = String::from_str(PALETTE_NAMES[index]);
    style.backdrop = PALETTE_KINDS[index];
    style.stops = PALETTE_STOPS[index];
    style.glow_a = PALETTE_GLOW_A[index];
    style.glow_b = PALETTE_GLOW_B[index];
    proof {
        assert(wears_palette(style, index as int));
        assert(table_names()[index as int] == palette_name@);
    }
    Some(style)
}

/// A fresh random seed (`rand::rng().random()`). Nothing is promised of the
/// value: any `u64` may come back.
#[verifier::external_body]
pub fn random_seed() -> u64 {
    rand::Rng::random(&mut rand::rng())
}

/// A style for a fresh random seed: whatever seed was drawn, the style is
/// the one `style_from_seed` gives for the seed it records, so that seed
/// reproduces it.
pub fn random_style() -> (style: PresentationStyle)
    ensures
        pick(style.seed, names_of_kind(BackdropKind::Space, 38)) == Some(style.palette_name@),
        exists|i: int| wears_palette(style, i),
        style.backdrop == BackdropKind::Space,
        style.scene is None && style.motif is None && style.sky is None && style.terrain is None,
{
    style_from_seed(random_seed())
}

// ---------------------------------------------------------------------------
// Window frame

/// Window-manager decorations around a captured window, in pixels per side.
#[derive(Debug, Clone, Copy, PartialEq, Eq, Structural)]
pub struct FrameExtents {
    pub left: u32,
    pub right: u32,
    pub top: u32,
    pub bottom: u32,
}

/// `a + b`, saturated at `u32::MAX`.
pub open spec fn saturated_sum(a: u32, b: u32) -> int {
    if a + b > u32::MAX { u32::MAX as int } else { a + b }
}

/// The part of a `width` x `height` capture left once the frame is cut away,
/// as `(x, y, width, height)`; `None` when the frame would leave nothing, in
/// which case the capture is kept whole.
pub fn crop_frame_extents(width: u32, height: u32, extents: FrameExtents) -> (r: Option<(u32, u32, u32, u32)>)
    ensures
        ({
            let horizontal = saturated_sum(extents.left, extents.right);
            let vertical = saturated_sum(extents.top, extents.bottom);
            if horizontal >= width || vertical >= height {
                r is None
            } else {
                r == Some((extents.left, extents.top, (width - horizontal) as u32, (height - vertical) as u32))
            }
        }),
{
    let horizontal = extents.left.saturating_add(extents.right);
    let vertical = extents.top.saturating_add(extents.bottom);
    if horizontal >= width || vertical >= height {
        return None;
    }
    Some((extents.left, extents.top, width - horizontal, height - vertical))
}

} // verus!
