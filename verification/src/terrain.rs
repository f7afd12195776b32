//! Terrain landforms: dunes, mesa, badlands, glacier.
//!
//! A terrain palette carries the colors and a [`TerrainKind`] carries the
//! structure, so `--palette` and `--terrain` compose the same way
//! `--palette` and `--sky` do. This module holds the catalog and the seeded
//! counts that shape the mesa and badlands silhouettes.

use vstd::prelude::*;

use crate::strings::str_eq;

verus! {
/// A specific terrain the caller can pin instead of the seed's random pick.
/// The seed still drives every free parameter (horizon, coverage, ridge
/// geometry, light direction); this only forces which landform appears.
#[derive(Debug, Clone, Copy, PartialEq, Eq, Structural)]
pub enum TerrainKind {
    /// Overlapping warped dune ridges, wind ripples, leeward shading.
    Dunes,
    /// Off-center stepped table silhouettes, stratified bands, talus.
    Mesa,
    /// Repeated eroded ridges and gullies across the frame, layered sediment.
    Badlands,
    /// Fractured ice field, crevasse bands, blue shadow and snow highlights.
    Glacier,
}

impl TerrainKind {
    /// All names accepted by [`TerrainKind::from_name`], in menu order.
    pub const NAMES: [&'static str; 4] = [
        "dunes",
        "mesa",
        "badlands",
        "glacier",
    ];

    /// The name that selects this kind.
    pub open spec fn spec_name(self) -> Seq<char> {
        match self {
            TerrainKind::Dunes => "dunes"@,
            TerrainKind::Mesa => "mesa"@,
            TerrainKind::Badlands => "badlands"@,
            TerrainKind::Glacier => "glacier"@,
        }
    }

    /// The kind listed at `i` in the menu.
    pub open spec fn menu(i: int) -> Self {
        if i == 0 {
            TerrainKind::Dunes
        } else if i == 1 {
            TerrainKind::Mesa
        } else if i == 2 {
            TerrainKind::Badlands
        } else {
            TerrainKind::Glacier
        }
    }

    /// The kind a name selects, if any.
    pub open spec fn spec_from_name(s: Seq<char>) -> Option<Self> {
        if s == "dunes"@ {
            Some(TerrainKind::Dunes)
        } else if s == "mesa"@ {
            Some(TerrainKind::Mesa)
        } else if s == "badlands"@ {
            Some(TerrainKind::Badlands)
        } else if s == "glacier"@ {
            Some(TerrainKind::Glacier)
        } else {
            None
        }
    }

    /// Parse a kind from its name; `None` for any other text.
    pub fn from_name(name: &str) -> (r: Option<Self>)
        ensures
            r == Self::spec_from_name(name@),
    {
        if str_eq(name, "dunes") {
            return Some(TerrainKind::Dunes);
        }
        if str_eq(name, "mesa") {
            return Some(TerrainKind::Mesa);
        }
        if str_eq(name, "badlands") {
            return Some(TerrainKind::Badlands);
        }
        if str_eq(name, "glacier") {
            return Some(TerrainKind::Glacier);
        }
        None
    }
}

/// Distinct kinds have distinct names, so a name selects at most one kind.
pub proof fn lemma_names_are_unique(a: TerrainKind, b: TerrainKind)
    ensures
        a.spec_name() == b.spec_name() ==> a == b,
{
    reveal_strlit("dunes");
    assert("dunes"@ =~= seq!['d', 'u', 'n', 'e', 's']);
    reveal_strlit("mesa");
    assert("mesa"@ =~= seq!['m', 'e', 's', 'a']);
    reveal_strlit("badlands");
    assert("badlands"@ =~= seq!['b', 'a', 'd', 'l', 'a', 'n', 'd', 's']);
    reveal_strlit("glacier");
    assert("glacier"@ =~= seq!['g', 'l', 'a', 'c', 'i', 'e', 'r']);
}

/// The menu lists every kind once, and `NAMES[i]` is the name of the `i`-th
/// entry.
pub proof fn lemma_menu_matches_names(i: int)
    requires
        0 <= i < 4,
    ensures
        TerrainKind::menu(i).spec_name() == TerrainKind::NAMES@[i]@,
{
}

/// Every kind's name parses back to that kind.
pub proof fn lemma_name_round_trip(k: TerrainKind)
    ensures
        TerrainKind::spec_from_name(k.spec_name()) == Some(k),
{

    reveal_strlit("dunes");
    assert("dunes"@ =~= seq!['d', 'u', 'n', 'e', 's']);
    reveal_strlit("mesa");
    assert("mesa"@ =~= seq!['m', 'e', 's', 'a']);
    reveal_strlit("badlands");
    assert("badlands"@ =~= seq!['b', 'a', 'd', 'l', 'a', 'n', 'd', 's']);
    reveal_strlit("glacier");
    assert("glacier"@ =~= seq!['g', 'l', 'a', 'c', 'i', 'e', 'r']);
}


// ---------------------------------------------------------------------------
// Seeded counts

/// The 64-bit mix behind the per-cell hash of the terrain renderer: the
/// renderer's value in `[0, 1)` is `(cell_bits(x, y, seed) >> 40) / 2^24`.
pub open spec fn cell_bits(x: u64, y: u64, seed: u64) -> u64 {
    let h0 = seed ^ 0x9E37_79B9_7F4A_7C15u64 ^ x.wrapping_mul(0xFF51_AFD7_ED55_8CCDu64)
        ^ y.wrapping_mul(0xC4CE_B9FE_1A85_EC53u64);
    let h1 = h0 ^ (h0 >> 33u64);
    let h2 = h1.wrapping_mul(0xFF51_AFD7_ED55_8CCDu64);
    h2 ^ (h2 >> 29u64)
}

/// The hash mix of one lattice cell (`x` and `y` as two's-complement bits).
pub fn cell_mix(x: u64, y: u64, seed: u64) -> (r: u64)
    ensures
        r == cell_bits(x, y, seed),
{
    let mut hash = seed ^ 0x9E37_79B9_7F4A_7C15u64;
    hash = hash ^ x.wrapping_mul(0xFF51_AFD7_ED55_8CCDu64);
    hash = hash ^ y.wrapping_mul(0xC4CE_B9FE_1A85_EC53u64);
    hash = hash ^ (hash >> 33u64);
    hash = hash.wrapping_mul(0xFF51_AFD7_ED55_8CCDu64);
    hash ^ (hash >> 29u64)
}

/// How many table silhouettes a mesa shows: two, or three when the top bit
/// of its cell hash is set (the renderer's `floor(2 * hash)`).
pub fn mesa_lane_count(seed: u64) -> (r: usize)
    ensures
        r == 2 + (cell_bits(0, 0, seed ^ 0x4D45_5341u64) >> 63u64),
        2 <= r <= 3,
{
    let h = cell_mix(0, 0, seed ^ 0x4D45_5341u64);
    assert(h >> 63u64 <= 1) by (bit_vector);
    2 + (h >> 63u64) as usize
}

/// How many ridges a badlands scene shows: four, or five when the top bit of
/// its cell hash is set.
pub fn badlands_ridge_count(seed: u64) -> (r: usize)
    ensures
        r == 4 + (cell_bits(0, 1, seed ^ 0x4241_444Cu64) >> 63u64),
        4 <= r <= 5,
{
    let h = cell_mix(0, 1, seed ^ 0x4241_444Cu64);
    assert(h >> 63u64 <= 1) by (bit_vector);
    4 + (h >> 63u64) as usize
}

} // verus!
