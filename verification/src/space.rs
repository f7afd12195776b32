//! Deep-space scene looks: nebulae, telescope signatures, and rare frames.
//!
//! A space palette carries the colors and a [`SceneKind`] carries the look,
//! so `--palette` and `--scene` compose. This module holds the scene catalog.

use vstd::prelude::*;

use crate::strings::str_eq;

verus! {
/// A specific scene look the caller can pin instead of the seed's random pick.
/// The seed still drives every free parameter (placement, noise, palette
/// details); this only forces which kind of scene appears.
#[derive(Debug, Clone, Copy, PartialEq, Eq, Structural)]
pub enum SceneKind {
    Nebula,
    Jwst,
    Hubble,
    Galaxy,
    Alma,
    Ring,
    Butterfly,
    Sun,
    Sdo,
    EdgeOn,
    Cluster,
    DeepField,
    Lensing,
    Veil,
    Remnant,
    Cmb,
}

impl SceneKind {
    /// All names accepted by [`SceneKind::from_name`], in menu order.
    pub const NAMES: [&'static str; 16] = [
        "nebula",
        "jwst",
        "hubble",
        "galaxy",
        "alma",
        "ring",
        "butterfly",
        "edge-on",
        "sun",
        "sdo",
        "cluster",
        "deep-field",
        "lensing",
        "veil",
        "remnant",
        "cmb",
    ];

    /// The name that selects this kind.
    pub open spec fn spec_name(self) -> Seq<char> {
        match self {
            SceneKind::Nebula => "nebula"@,
            SceneKind::Jwst => "jwst"@,
            SceneKind::Hubble => "hubble"@,
            SceneKind::Galaxy => "galaxy"@,
            SceneKind::Alma => "alma"@,
            SceneKind::Ring => "ring"@,
            SceneKind::Butterfly => "butterfly"@,
            SceneKind::Sun => "sun"@,
            SceneKind::Sdo => "sdo"@,
            SceneKind::EdgeOn => "edge-on"@,
            SceneKind::Cluster => "cluster"@,
            SceneKind::DeepField => "deep-field"@,
            SceneKind::Lensing => "lensing"@,
            SceneKind::Veil => "veil"@,
            SceneKind::Remnant => "remnant"@,
            SceneKind::Cmb => "cmb"@,
        }
    }

    /// The kind listed at `i` in the menu.
    pub open spec fn menu(i: int) -> Self {
        if i == 0 {
            SceneKind::Nebula
        } else if i == 1 {
            SceneKind::Jwst
        } else if i == 2 {
            SceneKind::Hubble
        } else if i == 3 {
            SceneKind::Galaxy
        } else if i == 4 {
            SceneKind::Alma
        } else if i == 5 {
            SceneKind::Ring
        } else if i == 6 {
            SceneKind::Butterfly
        } else if i == 7 {
            SceneKind::EdgeOn
        } else if i == 8 {
            SceneKind::Sun
        } else if i == 9 {
            SceneKind::Sdo
        } else if i == 10 {
            SceneKind::Cluster
        } else if i == 11 {
            SceneKind::DeepField
        } else if i == 12 {
            SceneKind::Lensing
        } else if i == 13 {
            SceneKind::Veil
        } else if i == 14 {
            SceneKind::Remnant
        } else {
            SceneKind::Cmb
        }
    }

    /// The kind a name selects, if any.
    pub open spec fn spec_from_name(s: Seq<char>) -> Option<Self> {
        if s == "nebula"@ {
            Some(SceneKind::Nebula)
        } else if s == "jwst"@ {
            Some(SceneKind::Jwst)
        } else if s == "hubble"@ {
            Some(SceneKind::Hubble)
        } else if s == "galaxy"@ {
            Some(SceneKind::Galaxy)
        } else if s == "alma"@ {
            Some(SceneKind::Alma)
        } else if s == "ring"@ {
            Some(SceneKind::Ring)
        } else if s == "butterfly"@ {
            Some(SceneKind::Butterfly)
        } else if s == "sun"@ {
            Some(SceneKind::Sun)
        } else if s == "sdo"@ {
            Some(SceneKind::Sdo)
        } else if s == "edge-on"@ {
            Some(SceneKind::EdgeOn)
        } else if s == "cluster"@ {
            Some(SceneKind::Cluster)
        } else if s == "deep-field"@ {
            Some(SceneKind::DeepField)
        } else if s == "lensing"@ {
            Some(SceneKind::Lensing)
        } else if s == "veil"@ {
            Some(SceneKind::Veil)
        } else if s == "remnant"@ {
            Some(SceneKind::Remnant)
        } else if s == "cmb"@ {
            Some(SceneKind::Cmb)
        } else {
            None
        }
    }

    /// Parse a kind from its name; `None` for any other text.
    pub fn from_name(name: &str) -> (r: Option<Self>)
        ensures
            r == Self::spec_from_name(name@),
    {
        if str_eq(name, "nebula") {
            return Some(SceneKind::Nebula);
        }
        if str_eq(name, "jwst") {
            return Some(SceneKind::Jwst);
        }
        if str_eq(name, "hubble") {
            return Some(SceneKind::Hubble);
        }
        if str_eq(name, "galaxy") {
            return Some(SceneKind::Galaxy);
        }
        if str_eq(name, "alma") {
            return Some(SceneKind::Alma);
        }
        if str_eq(name, "ring") {
            return Some(SceneKind::Ring);
        }
        if str_eq(name, "butterfly") {
            return Some(SceneKind::Butterfly);
        }
        if str_eq(name, "sun") {
            return Some(SceneKind::Sun);
        }
        if str_eq(name, "sdo") {
            return Some(SceneKind::Sdo);
        }
        if str_eq(name, "edge-on") {
            return Some(SceneKind::EdgeOn);
        }
        if str_eq(name, "cluster") {
            return Some(SceneKind::Cluster);
        }
        if str_eq(name, "deep-field") {
            return Some(SceneKind::DeepField);
        }
        if str_eq(name, "lensing") {
            return Some(SceneKind::Lensing);
        }
        if str_eq(name, "veil") {
            return Some(SceneKind::Veil);
        }
        if str_eq(name, "remnant") {
            return Some(SceneKind::Remnant);
        }
        if str_eq(name, "cmb") {
            return Some(SceneKind::Cmb);
        }
        None
    }
}

/// Distinct kinds have distinct names, so a name selects at most one kind.
pub proof fn lemma_names_are_unique(a: SceneKind, b: SceneKind)
    ensures
        a.spec_name() == b.spec_name() ==> a == b,
{
    reveal_strlit("nebula");
    assert("nebula"@ =~= seq!['n', 'e', 'b', 'u', 'l', 'a']);
    reveal_strlit("jwst");
    assert("jwst"@ =~= seq!['j', 'w', 's', 't']);
    reveal_strlit("hubble");
    assert("hubble"@ =~= seq!['h', 'u', 'b', 'b', 'l', 'e']);
    reveal_strlit("galaxy");
    assert("galaxy"@ =~= seq!['g', 'a', 'l', 'a', 'x', 'y']);
    reveal_strlit("alma");
    assert("alma"@ =~= seq!['a', 'l', 'm', 'a']);
    reveal_strlit("ring");
    assert("ring"@ =~= seq!['r', 'i', 'n', 'g']);
    reveal_strlit("butterfly");
    assert("butterfly"@ =~= seq!['b', 'u', 't', 't', 'e', 'r', 'f', 'l', 'y']);
    reveal_strlit("sun");
    assert("sun"@ =~= seq!['s', 'u', 'n']);
    reveal_strlit("sdo");
    assert("sdo"@ =~= seq!['s', 'd', 'o']);
    reveal_strlit("edge-on");
    assert("edge-on"@ =~= seq!['e', 'd', 'g', 'e', '-', 'o', 'n']);
    reveal_strlit("cluster");
    assert("cluster"@ =~= seq!['c', 'l', 'u', 's', 't', 'e', 'r']);
    reveal_strlit("deep-field");
    assert("deep-field"@ =~= seq!['d', 'e', 'e', 'p', '-', 'f', 'i', 'e', 'l', 'd']);
    reveal_strlit("lensing");
    assert("lensing"@ =~= seq!['l', 'e', 'n', 's', 'i', 'n', 'g']);
    reveal_strlit("veil");
    assert("veil"@ =~= seq!['v', 'e', 'i', 'l']);
    reveal_strlit("remnant");
    assert("remnant"@ =~= seq!['r', 'e', 'm', 'n', 'a', 'n', 't']);
    reveal_strlit("cmb");
    assert("cmb"@ =~= seq!['c', 'm', 'b']);
}

/// The menu lists every kind once, and `NAMES[i]` is the name of the `i`-th
/// entry.
pub proof fn lemma_menu_matches_names(i: int)
    requires
        0 <= i < 16,
    ensures
        SceneKind::menu(i).spec_name() == SceneKind::NAMES@[i]@,
{
}

/// Every kind's name parses back to that kind.
pub proof fn lemma_name_round_trip(k: SceneKind)
    ensures
        SceneKind::spec_from_name(k.spec_name()) == Some(k),
{

    reveal_strlit("nebula");
    assert("nebula"@ =~= seq!['n', 'e', 'b', 'u', 'l', 'a']);
    reveal_strlit("jwst");
    assert("jwst"@ =~= seq!['j', 'w', 's', 't']);
    reveal_strlit("hubble");
    assert("hubble"@ =~= seq!['h', 'u', 'b', 'b', 'l', 'e']);
    reveal_strlit("galaxy");
    assert("galaxy"@ =~= seq!['g', 'a', 'l', 'a', 'x', 'y']);
    reveal_strlit("alma");
    assert("alma"@ =~= seq!['a', 'l', 'm', 'a']);
    reveal_strlit("ring");
    assert("ring"@ =~= seq!['r', 'i', 'n', 'g']);
    reveal_strlit("butterfly");
    assert("butterfly"@ =~= seq!['b', 'u', 't', 't', 'e', 'r', 'f', 'l', 'y']);
    reveal_strlit("sun");
    assert("sun"@ =~= seq!['s', 'u', 'n']);
    reveal_strlit("sdo");
    assert("sdo"@ =~= seq!['s', 'd', 'o']);
    reveal_strlit("edge-on");
    assert("edge-on"@ =~= seq!['e', 'd', 'g', 'e', '-', 'o', 'n']);
    reveal_strlit("cluster");
    assert("cluster"@ =~= seq!['c', 'l', 'u', 's', 't', 'e', 'r']);
    reveal_strlit("deep-field");
    assert("deep-field"@ =~= seq!['d', 'e', 'e', 'p', '-', 'f', 'i', 'e', 'l', 'd']);
    reveal_strlit("lensing");
    assert("lensing"@ =~= seq!['l', 'e', 'n', 's', 'i', 'n', 'g']);
    reveal_strlit("veil");
    assert("veil"@ =~= seq!['v', 'e', 'i', 'l']);
    reveal_strlit("remnant");
    assert("remnant"@ =~= seq!['r', 'e', 'm', 'n', 'a', 'n', 't']);
    reveal_strlit("cmb");
    assert("cmb"@ =~= seq!['c', 'm', 'b']);
}

} // verus!
