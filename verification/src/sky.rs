//! Sky conditions: cloud decks, storms, lightning, and twilight.
//!
//! A sky palette carries the colors and a [`SkyKind`] carries the structure,
//! so `--palette` and `--sky` compose the same way `--palette` and `--scene`
//! do. This module holds the catalog of conditions.

use vstd::prelude::*;

use crate::strings::str_eq;

verus! {
/// A specific sky the caller can pin instead of the seed's random pick. The
/// seed still drives every free parameter (coverage, placement, bolt geometry,
/// curtain phase); this only forces which condition appears.
#[derive(Debug, Clone, Copy, PartialEq, Eq, Structural)]
pub enum SkyKind {
    /// Smooth twilight ramp, a few high bars, first stars near the zenith.
    BlueHour,
    /// Cloud mass with the sun low and behind it, lighting only the edges.
    GoldenHour,
    /// Featureless stratus deck; the quietest sky in the set.
    Overcast,
    /// High wispy ice streaks on open blue.
    Cirrus,
    /// Cirrocumulus cell rows shrinking toward the horizon: a mackerel sky.
    Mackerel,
    /// Pouches hanging from a storm ceiling, lit from above.
    Mammatus,
    /// Heavy base with rain curtains falling out of it.
    Storm,
    /// Storm base with branching cloud-to-ground lightning.
    Bolt,
    /// Auroral curtains over a star field.
    Aurora,
    /// Sun beams fanning through a break in the deck.
    Crepuscular,
}

impl SkyKind {
    /// All names accepted by [`SkyKind::from_name`], in menu order.
    pub const NAMES: [&'static str; 10] = [
        "blue-hour",
        "golden-hour",
        "overcast",
        "cirrus",
        "mackerel",
        "mammatus",
        "storm",
        "bolt",
        "aurora",
        "crepuscular",
    ];

    /// The name that selects this kind.
    pub open spec fn spec_name(self) -> Seq<char> {
        match self {
            SkyKind::BlueHour => "blue-hour"@,
            SkyKind::GoldenHour => "golden-hour"@,
            SkyKind::Overcast => "overcast"@,
            SkyKind::Cirrus => "cirrus"@,
            SkyKind::Mackerel => "mackerel"@,
            SkyKind::Mammatus => "mammatus"@,
            SkyKind::Storm => "storm"@,
            SkyKind::Bolt => "bolt"@,
            SkyKind::Aurora => "aurora"@,
            SkyKind::Crepuscular => "crepuscular"@,
        }
    }

    /// The kind listed at `i` in the menu.
    pub open spec fn menu(i: int) -> Self {
        if i == 0 {
            SkyKind::BlueHour
        } else if i == 1 {
            SkyKind::GoldenHour
        } else if i == 2 {
            SkyKind::Overcast
        } else if i == 3 {
            SkyKind::Cirrus
        } else if i == 4 {
            SkyKind::Mackerel
        } else if i == 5 {
            SkyKind::Mammatus
        } else if i == 6 {
            SkyKind::Storm
        } else if i == 7 {
            SkyKind::Bolt
        } else if i == 8 {
            SkyKind::Aurora
        } else {
            SkyKind::Crepuscular
        }
    }

    /// The kind a name selects, if any.
    pub open spec fn spec_from_name(s: Seq<char>) -> Option<Self> {
        if s == "blue-hour"@ {
            Some(SkyKind::BlueHour)
        } else if s == "golden-hour"@ {
            Some(SkyKind::GoldenHour)
        } else if s == "overcast"@ {
            Some(SkyKind::Overcast)
        } else if s == "cirrus"@ {
            Some(SkyKind::Cirrus)
        } else if s == "mackerel"@ {
            Some(SkyKind::Mackerel)
        } else if s == "mammatus"@ {
            Some(SkyKind::Mammatus)
        } else if s == "storm"@ {
            Some(SkyKind::Storm)
        } else if s == "bolt"@ {
            Some(SkyKind::Bolt)
        } else if s == "aurora"@ {
            Some(SkyKind::Aurora)
        } else if s == "crepuscular"@ {
            Some(SkyKind::Crepuscular)
        } else {
            None
        }
    }

    /// Parse a kind from its name; `None` for any other text.
    pub fn from_name(name: &str) -> (r: Option<Self>)
        ensures
            r == Self::spec_from_name(name@),
    {
        if str_eq(name, "blue-hour") {
            return Some(SkyKind::BlueHour);
        }
        if str_eq(name, "golden-hour") {
            return Some(SkyKind::GoldenHour);
        }
        if str_eq(name, "overcast") {
            return Some(SkyKind::Overcast);
        }
        if str_eq(name, "cirrus") {
            return Some(SkyKind::Cirrus);
        }
        if str_eq(name, "mackerel") {
            return Some(SkyKind::Mackerel);
        }
        if str_eq(name, "mammatus") {
            return Some(SkyKind::Mammatus);
        }
        if str_eq(name, "storm") {
            return Some(SkyKind::Storm);
        }
        if str_eq(name, "bolt") {
            return Some(SkyKind::Bolt);
        }
        if str_eq(name, "aurora") {
            return Some(SkyKind::Aurora);
        }
        if str_eq(name, "crepuscular") {
            return Some(SkyKind::Crepuscular);
        }
        None
    }
}

/// Distinct kinds have distinct names, so a name selects at most one kind.
pub proof fn lemma_names_are_unique(a: SkyKind, b: SkyKind)
    ensures
        a.spec_name() == b.spec_name() ==> a == b,
{
    reveal_strlit("blue-hour");
    assert("blue-hour"@ =~= seq!['b', 'l', 'u', 'e', '-', 'h', 'o', 'u', 'r']);
    reveal_strlit("golden-hour");
    assert("golden-hour"@ =~= seq!['g', 'o', 'l', 'd', 'e', 'n', '-', 'h', 'o', 'u', 'r']);
    reveal_strlit("overcast");
    assert("overcast"@ =~= seq!['o', 'v', 'e', 'r', 'c', 'a', 's', 't']);
    reveal_strlit("cirrus");
    assert("cirrus"@ =~= seq!['c', 'i', 'r', 'r', 'u', 's']);
    reveal_strlit("mackerel");
    assert("mackerel"@ =~= seq!['m', 'a', 'c', 'k', 'e', 'r', 'e', 'l']);
    reveal_strlit("mammatus");
    assert("mammatus"@ =~= seq!['m', 'a', 'm', 'm', 'a', 't', 'u', 's']);
    reveal_strlit("storm");
    assert("storm"@ =~= seq!['s', 't', 'o', 'r', 'm']);
    reveal_strlit("bolt");
    assert("bolt"@ =~= seq!['b', 'o', 'l', 't']);
    reveal_strlit("aurora");
    assert("aurora"@ =~= seq!['a', 'u', 'r', 'o', 'r', 'a']);
    reveal_strlit("crepuscular");
    assert("crepuscular"@ =~= seq!['c', 'r', 'e', 'p', 'u', 's', 'c', 'u', 'l', 'a', 'r']);
}

/// The menu lists every kind once, and `NAMES[i]` is the name of the `i`-th
/// entry.
pub proof fn lemma_menu_matches_names(i: int)
    requires
        0 <= i < 10,
    ensures
        SkyKind::menu(i).spec_name() == SkyKind::NAMES@[i]@,
{
}

/// Every kind's name parses back to that kind.
pub proof fn lemma_name_round_trip(k: SkyKind)
    ensures
        SkyKind::spec_from_name(k.spec_name()) == Some(k),
{

    reveal_strlit("blue-hour");
    assert("blue-hour"@ =~= seq!['b', 'l', 'u', 'e', '-', 'h', 'o', 'u', 'r']);
    reveal_strlit("golden-hour");
    assert("golden-hour"@ =~= seq!['g', 'o', 'l', 'd', 'e', 'n', '-', 'h', 'o', 'u', 'r']);
    reveal_strlit("overcast");
    assert("overcast"@ =~= seq!['o', 'v', 'e', 'r', 'c', 'a', 's', 't']);
    reveal_strlit("cirrus");
    assert("cirrus"@ =~= seq!['c', 'i', 'r', 'r', 'u', 's']);
    reveal_strlit("mackerel");
    assert("mackerel"@ =~= seq!['m', 'a', 'c', 'k', 'e', 'r', 'e', 'l']);
    reveal_strlit("mammatus");
    assert("mammatus"@ =~= seq!['m', 'a', 'm', 'm', 'a', 't', 'u', 's']);
    reveal_strlit("storm");
    assert("storm"@ =~= seq!['s', 't', 'o', 'r', 'm']);
    reveal_strlit("bolt");
    assert("bolt"@ =~= seq!['b', 'o', 'l', 't']);
    reveal_strlit("aurora");
    assert("aurora"@ =~= seq!['a', 'u', 'r', 'o', 'r', 'a']);
    reveal_strlit("crepuscular");
    assert("crepuscular"@ =~= seq!['c', 'r', 'e', 'p', 'u', 's', 'c', 'u', 'l', 'a', 'r']);
}

} // verus!
