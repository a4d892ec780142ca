//! Gauges of a player: hit points, mana, movement and the like.
use vstd::prelude::*;
use crate::text::parse::{format_i64, spec_decimal};
use crate::text::strings::concat3;

verus! {

/// A gauge: its current value and its maximum.
#[derive(Debug, Default, Clone, Copy)]
pub struct Meter(pub i64, pub i64);

/// How a gauge is shown: `[current / max]`.
pub open spec fn spec_meter_text(m: Meter) -> Seq<char> {
    seq!['['] + spec_decimal(m.0 as int) + seq![' ', '/', ' '] + spec_decimal(m.1 as int) + seq![']']
}

impl Meter {
    pub fn current(&self) -> (r: i64)
        ensures
            r == self.0,
    {
        self.0
    }

    pub fn max(&self) -> (r: i64)
        ensures
            r == self.1,
    {
        self.1
    }

    pub fn set(&mut self, val: i64)
        ensures
            final(self).0 == val,
            final(self).1 == old(self).1,
    {
        self.0 = val;
    }

    /// The gauge as it is shown: `[current / max]`.
    pub fn to_string(&self) -> (r: String)
        ensures
            r@ == spec_meter_text(*self),
    {
        proof {
            reveal_strlit("[");
            reveal_strlit(" / ");
            reveal_strlit("]");
        }
        let a = format_i64(self.0);
        let b = format_i64(self.1);
        let mut r = concat3("[", a.as_str(), " / ");
        r.append(b.as_str());
        r.append("]");
        proof {
            assert(r@ =~= spec_meter_text(*self));
        }
        r
    }
}

/// A gauge together with what it measures.
#[derive(Debug, Clone, Copy)]
pub enum MeterKind {
    Hit(Meter),
    Mana(Meter),
    Movement(Meter),
    Strength(Meter),
    Dexterity(Meter),
    Weight(Meter),
    Height(Meter),
}

/// The gauge inside a kind.
pub open spec fn spec_meter(k: MeterKind) -> Meter {
    match k {
        MeterKind::Hit(m) => m,
        MeterKind::Mana(m) => m,
        MeterKind::Movement(m) => m,
        MeterKind::Strength(m) => m,
        MeterKind::Dexterity(m) => m,
        MeterKind::Weight(m) => m,
        MeterKind::Height(m) => m,
    }
}

/// The kind with another gauge inside.
pub open spec fn spec_with_meter(k: MeterKind, m: Meter) -> MeterKind {
    match k {
        MeterKind::Hit(_) => MeterKind::Hit(m),
        MeterKind::Mana(_) => MeterKind::Mana(m),
        MeterKind::Movement(_) => MeterKind::Movement(m),
        MeterKind::Strength(_) => MeterKind::Strength(m),
        MeterKind::Dexterity(_) => MeterKind::Dexterity(m),
        MeterKind::Weight(_) => MeterKind::Weight(m),
        MeterKind::Height(_) => MeterKind::Height(m),
    }
}

/// The lower-case name of what a gauge measures.
pub open spec fn spec_kind_name(k: MeterKind) -> Seq<char> {
    match k {
        MeterKind::Hit(_) => seq!['h', 'i', 't'],
        MeterKind::Mana(_) => seq!['m', 'a', 'n', 'a'],
        MeterKind::Movement(_) => seq!['m', 'o', 'v', 'e', 'm', 'e', 'n', 't'],
        MeterKind::Strength(_) => seq!['s', 't', 'r', 'e', 'n', 'g', 't', 'h'],
        MeterKind::Dexterity(_) => seq!['d', 'e', 'x', 't', 'e', 'r', 'i', 't', 'y'],
        MeterKind::Weight(_) => seq!['w', 'e', 'i', 'g', 'h', 't'],
        MeterKind::Height(_) => seq!['h', 'e', 'i', 'g', 'h', 't'],
    }
}

/// The upper-case name of what a gauge measures.
pub open spec fn spec_kind_label(k: MeterKind) -> Seq<char> {
    match k {
        MeterKind::Hit(_) => seq!['H', 'I', 'T'],
        MeterKind::Mana(_) => seq!['M', 'A', 'N', 'A'],
        MeterKind::Movement(_) => seq!['M', 'O', 'V', 'E', 'M', 'E', 'N', 'T'],
        MeterKind::Strength(_) => seq!['S', 'T', 'R', 'E', 'N', 'G', 'T', 'H'],
        MeterKind::Dexterity(_) => seq!['D', 'E', 'X', 'T', 'E', 'R', 'I', 'T', 'Y'],
        MeterKind::Weight(_) => seq!['W', 'E', 'I', 'G', 'H', 'T'],
        MeterKind::Height(_) => seq!['H', 'E', 'I', 'G', 'H', 'T'],
    }
}

impl MeterKind {
    pub fn current(&self) -> (r: i64)
        ensures
            r == spec_meter(*self).0,
    {
        self.safe_unwrap().0
    }

    pub fn max(&self) -> (r: i64)
        ensures
            r == spec_meter(*self).1,
    {
        self.safe_unwrap().1
    }

    /// Sets the current value; the kind and the maximum stay.
    pub fn set(&mut self, val: i64)
        ensures
            *final(self) == spec_with_meter(*old(self), Meter(val, spec_meter(*old(self)).1)),
    {
        match self {
            MeterKind::Hit(m) => m.0 = val,
            MeterKind::Mana(m) => m.0 = val,
            MeterKind::Movement(m) => m.0 = val,
            MeterKind::Strength(m) => m.0 = val,
            MeterKind::Dexterity(m) => m.0 = val,
            MeterKind::Weight(m) => m.0 = val,
            MeterKind::Height(m) => m.0 = val,
        }
    }

    fn safe_unwrap(&self) -> (r: &Meter)
        ensures
            *r == spec_meter(*self),
    {
        match self {
            MeterKind::Hit(m) => m,
            MeterKind::Mana(m) => m,
            MeterKind::Movement(m) => m,
            MeterKind::Strength(m) => m,
            MeterKind::Dexterity(m) => m,
            MeterKind::Weight(m) => m,
            MeterKind::Height(m) => m,
        }
    }

    /// The lower-case name of what the gauge measures.
    pub fn string(&self) -> (r: &'static str)
        ensures
            r@ == spec_kind_name(*self),
    {
        match self {
            MeterKind::Hit(_) => {
                proof { reveal_strlit("hit"); }
                "hit"
            },
            MeterKind::Mana(_) => {
                proof { reveal_strlit("mana"); }
                "mana"
            },
            MeterKind::Movement(_) => {
                proof { reveal_strlit("movement"); }
                "movement"
            },
            MeterKind::Strength(_) => {
                proof { reveal_strlit("strength"); }
                "strength"
            },
            MeterKind::Dexterity(_) => {
                proof { reveal_strlit("dexterity"); }
                "dexterity"
            },
            MeterKind::Weight(_) => {
                proof { reveal_strlit("weight"); }
                "weight"
            },
            MeterKind::Height(_) => {
                proof { reveal_strlit("height"); }
                "height"
            },
        }
    }

    fn label(&self) -> (r: &'static str)
        ensures
            r@ == spec_kind_label(*self),
    {
        match self {
            MeterKind::Hit(_) => {
                proof { reveal_strlit("HIT"); }
                "HIT"
            },
            MeterKind::Mana(_) => {
                proof { reveal_strlit("MANA"); }
                "MANA"
            },
            MeterKind::Movement(_) => {
                proof { reveal_strlit("MOVEMENT"); }
                "MOVEMENT"
            },
            MeterKind::Strength(_) => {
                proof { reveal_strlit("STRENGTH"); }
                "STRENGTH"
            },
            MeterKind::Dexterity(_) => {
                proof { reveal_strlit("DEXTERITY"); }
                "DEXTERITY"
            },
            MeterKind::Weight(_) => {
                proof { reveal_strlit("WEIGHT"); }
                "WEIGHT"
            },
            MeterKind::Height(_) => {
                proof { reveal_strlit("HEIGHT"); }
                "HEIGHT"
            },
        }
    }

    /// The gauge as it is shown: `HIT: [current / max]`.
    pub fn to_string(&self) -> (r: String)
        ensures
            r@ == spec_kind_label(*self) + seq![':', ' '] + spec_meter_text(spec_meter(*self)),
    {
        proof {
            reveal_strlit(": ");
        }
        let m = self.safe_unwrap().to_string();
        concat3(self.label(), ": ", m.as_str())
    }
}

} // verus!
