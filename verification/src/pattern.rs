//! Geometric pattern motifs: plaids, stripes, rules, weaves.
//!
//! A pattern palette carries the colors and a [`MotifKind`] carries the
//! structure, so `--palette` and `--motif` compose the same way `--palette`
//! and `--scene` do. This module holds the motif catalog; painting the motifs
//! happens outside the verified library.

use vstd::prelude::*;

use crate::strings::str_eq;

verus! {
/// A specific pattern the caller can pin instead of the seed's random pick.
/// The seed still drives every free parameter (cell size, band widths, phase);
/// this only forces which pattern appears.
#[derive(Debug, Clone, Copy, PartialEq, Eq, Structural)]
pub enum MotifKind {
    /// Asymmetric tartan sett, mirrored, crossed both ways with a twill tooth.
    Plaid,
    /// Even two-color checks; overlaps read darker, like the tablecloth.
    Gingham,
    /// Vertical bands from a seeded sett.
    Stripe,
    /// Hairlines on a flat ground, like ruled paper.
    Rule,
    /// Hairlines both ways: graph paper.
    Grid,
    /// The stripe sett turned 45 degrees.
    Diagonal,
    /// Zigzag bands.
    Chevron,
    /// Dots on a staggered grid.
    Dot,
    /// Opposed diagonal hairlines.
    Crosshatch,
    /// Alternating horizontal and vertical bars, basket style.
    Weave,
    /// Broken twill: diagonal blocks that reverse direction each column.
    Herringbone,
    /// The four-step dogtooth tessellation.
    Houndstooth,
}

impl MotifKind {
    /// All names accepted by [`MotifKind::from_name`], in menu order.
    pub const NAMES: [&'static str; 12] = [
        "plaid",
        "gingham",
        "stripe",
        "rule",
        "grid",
        "diagonal",
        "chevron",
        "dot",
        "crosshatch",
        "weave",
        "herringbone",
        "houndstooth",
    ];

    /// The name that selects this kind.
    pub open spec fn spec_name(self) -> Seq<char> {
        match self {
            MotifKind::Plaid => "plaid"@,
            MotifKind::Gingham => "gingham"@,
            MotifKind::Stripe => "stripe"@,
            MotifKind::Rule => "rule"@,
            MotifKind::Grid => "grid"@,
            MotifKind::Diagonal => "diagonal"@,
            MotifKind::Chevron => "chevron"@,
            MotifKind::Dot => "dot"@,
            MotifKind::Crosshatch => "crosshatch"@,
            MotifKind::Weave => "weave"@,
            MotifKind::Herringbone => "herringbone"@,
            MotifKind::Houndstooth => "houndstooth"@,
        }
    }

    /// The kind listed at `i` in the menu.
    pub open spec fn menu(i: int) -> Self {
        if i == 0 {
            MotifKind::Plaid
        } else if i == 1 {
            MotifKind::Gingham
        } else if i == 2 {
            MotifKind::Stripe
        } else if i == 3 {
            MotifKind::Rule
        } else if i == 4 {
            MotifKind::Grid
        } else if i == 5 {
            MotifKind::Diagonal
        } else if i == 6 {
            MotifKind::Chevron
        } else if i == 7 {
            MotifKind::Dot
        } else if i == 8 {
            MotifKind::Crosshatch
        } else if i == 9 {
            MotifKind::Weave
        } else if i == 10 {
            MotifKind::Herringbone
        } else {
            MotifKind::Houndstooth
        }
    }

    /// The kind a name selects, if any.
    pub open spec fn spec_from_name(s: Seq<char>) -> Option<Self> {
        if s == "plaid"@ {
            Some(MotifKind::Plaid)
        } else if s == "gingham"@ {
            Some(MotifKind::Gingham)
        } else if s == "stripe"@ {
            Some(MotifKind::Stripe)
        } else if s == "rule"@ {
            Some(MotifKind::Rule)
        } else if s == "grid"@ {
            Some(MotifKind::Grid)
        } else if s == "diagonal"@ {
            Some(MotifKind::Diagonal)
        } else if s == "chevron"@ {
            Some(MotifKind::Chevron)
        } else if s == "dot"@ {
            Some(MotifKind::Dot)
        } else if s == "crosshatch"@ {
            Some(MotifKind::Crosshatch)
        } else if s == "weave"@ {
            Some(MotifKind::Weave)
        } else if s == "herringbone"@ {
            Some(MotifKind::Herringbone)
        } else if s == "houndstooth"@ {
            Some(MotifKind::Houndstooth)
        } else {
            None
        }
    }

    /// Parse a kind from its name; `None` for any other text.
    pub fn from_name(name: &str) -> (r: Option<Self>)
        ensures
            r == Self::spec_from_name(name@),
    {
        if str_eq(name, "plaid") {
            return Some(MotifKind::Plaid);
        }
        if str_eq(name, "gingham") {
            return Some(MotifKind::Gingham);
        }
        if str_eq(name, "stripe") {
            return Some(MotifKind::Stripe);
        }
        if str_eq(name, "rule") {
            return Some(MotifKind::Rule);
        }
        if str_eq(name, "grid") {
            return Some(MotifKind::Grid);
        }
        if str_eq(name, "diagonal") {
            return Some(MotifKind::Diagonal);
        }
        if str_eq(name, "chevron") {
            return Some(MotifKind::Chevron);
        }
        if str_eq(name, "dot") {
            return Some(MotifKind::Dot);
        }
        if str_eq(name, "crosshatch") {
            return Some(MotifKind::Crosshatch);
        }
        if str_eq(name, "weave") {
            return Some(MotifKind::Weave);
        }
        if str_eq(name, "herringbone") {
            return Some(MotifKind::Herringbone);
        }
        if str_eq(name, "houndstooth") {
            return Some(MotifKind::Houndstooth);
        }
        None
    }

    /// Every kind, in menu order.
    pub fn all() -> (r: [Self; 12])
        ensures
            forall|i: int| 0 <= i < 12 ==> r@[i] == Self::menu(i),
    {
        [
            MotifKind::Plaid,
            MotifKind::Gingham,
            MotifKind::Stripe,
            MotifKind::Rule,
            MotifKind::Grid,
            MotifKind::Diagonal,
            MotifKind::Chevron,
            MotifKind::Dot,
            MotifKind::Crosshatch,
            MotifKind::Weave,
            MotifKind::Herringbone,
            MotifKind::Houndstooth,
        ]
    }
}

/// Distinct kinds have distinct names, so a name selects at most one kind.
pub proof fn lemma_names_are_unique(a: MotifKind, b: MotifKind)
    ensures
        a.spec_name() == b.spec_name() ==> a == b,
{
    reveal_strlit("plaid");
    assert("plaid"@ =~= seq!['p', 'l', 'a', 'i', 'd']);
    reveal_strlit("gingham");
    assert("gingham"@ =~= seq!['g', 'i', 'n', 'g', 'h', 'a', 'm']);
    reveal_strlit("stripe");
    assert("stripe"@ =~= seq!['s', 't', 'r', 'i', 'p', 'e']);
    reveal_strlit("rule");
    assert("rule"@ =~= seq!['r', 'u', 'l', 'e']);
    reveal_strlit("grid");
    assert("grid"@ =~= seq!['g', 'r', 'i', 'd']);
    reveal_strlit("diagonal");
    assert("diagonal"@ =~= seq!['d', 'i', 'a', 'g', 'o', 'n', 'a', 'l']);
    reveal_strlit("chevron");
    assert("chevron"@ =~= seq!['c', 'h', 'e', 'v', 'r', 'o', 'n']);
    reveal_strlit("dot");
    assert("dot"@ =~= seq!['d', 'o', 't']);
    reveal_strlit("crosshatch");
    assert("crosshatch"@ =~= seq!['c', 'r', 'o', 's', 's', 'h', 'a', 't', 'c', 'h']);
    reveal_strlit("weave");
    assert("weave"@ =~= seq!['w', 'e', 'a', 'v', 'e']);
    reveal_strlit("herringbone");
    assert("herringbone"@ =~= seq!['h', 'e', 'r', 'r', 'i', 'n', 'g', 'b', 'o', 'n', 'e']);
    reveal_strlit("houndstooth");
    assert("houndstooth"@ =~= seq!['h', 'o', 'u', 'n', 'd', 's', 't', 'o', 'o', 't', 'h']);
}

/// The menu lists every kind once, and `NAMES[i]` is the name of the `i`-th
/// entry.
pub proof fn lemma_menu_matches_names(i: int)
    requires
        0 <= i < 12,
    ensures
        MotifKind::menu(i).spec_name() == MotifKind::NAMES@[i]@,
{
}

/// Every kind's name parses back to that kind.
pub proof fn lemma_name_round_trip(k: MotifKind)
    ensures
        MotifKind::spec_from_name(k.spec_name()) == Some(k),
{

    reveal_strlit("plaid");
    assert("plaid"@ =~= seq!['p', 'l', 'a', 'i', 'd']);
    reveal_strlit("gingham");
    assert("gingham"@ =~= seq!['g', 'i', 'n', 'g', 'h', 'a', 'm']);
    reveal_strlit("stripe");
    assert("stripe"@ =~= seq!['s', 't', 'r', 'i', 'p', 'e']);
    reveal_strlit("rule");
    assert("rule"@ =~= seq!['r', 'u', 'l', 'e']);
    reveal_strlit("grid");
    assert("grid"@ =~= seq!['g', 'r', 'i', 'd']);
    reveal_strlit("diagonal");
    assert("diagonal"@ =~= seq!['d', 'i', 'a', 'g', 'o', 'n', 'a', 'l']);
    reveal_strlit("chevron");
    assert("chevron"@ =~= seq!['c', 'h', 'e', 'v', 'r', 'o', 'n']);
    reveal_strlit("dot");
    assert("dot"@ =~= seq!['d', 'o', 't']);
    reveal_strlit("crosshatch");
    assert("crosshatch"@ =~= seq!['c', 'r', 'o', 's', 's', 'h', 'a', 't', 'c', 'h']);
    reveal_strlit("weave");
    assert("weave"@ =~= seq!['w', 'e', 'a', 'v', 'e']);
    reveal_strlit("herringbone");
    assert("herringbone"@ =~= seq!['h', 'e', 'r', 'r', 'i', 'n', 'g', 'b', 'o', 'n', 'e']);
    reveal_strlit("houndstooth");
    assert("houndstooth"@ =~= seq!['h', 'o', 'u', 'n', 'd', 's', 't', 'o', 'o', 't', 'h']);
}

} // verus!
