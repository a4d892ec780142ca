pub mod direction;

use vstd::prelude::*;
use self::direction::MapDir;

verus! {

/// A position on the map: east-west, then north-south.
#[derive(Copy, Clone, Debug, PartialEq, Eq, Hash, Default, Structural)]
pub struct Coord(pub i64, pub i64);

/// Something that stands at a position on the map.
pub trait Locate {
    spec fn spec_loc(&self) -> Coord;

    fn loc(&self) -> (r: Coord)
        ensures
            r == self.spec_loc(),
    ;
}

/// Whether a step from `c` in direction `d` stays inside the range of `i64`.
pub open spec fn can_step(c: Coord, d: MapDir) -> bool {
    match d {
        MapDir::North => c.1 < i64::MAX,
        MapDir::South => c.1 > i64::MIN,
        MapDir::East => c.0 < i64::MAX,
        MapDir::West => c.0 > i64::MIN,
        _ => true,
    }
}

/// The position one step from `c` in direction `d`; only the four compass
/// directions lead anywhere on the map.
pub open spec fn spec_step(c: Coord, d: MapDir) -> Option<Coord> {
    match d {
        MapDir::North => Some(Coord(c.0, (c.1 + 1) as i64)),
        MapDir::South => Some(Coord(c.0, (c.1 - 1) as i64)),
        MapDir::East => Some(Coord((c.0 + 1) as i64, c.1)),
        MapDir::West => Some(Coord((c.0 - 1) as i64, c.1)),
        _ => None,
    }
}

impl Coord {
    pub fn north(&self) -> (r: Self)
        requires
            self.1 < i64::MAX,
        ensures
            r == Coord(self.0, (self.1 + 1) as i64),
    {
        let Coord(x, y) = *self;
        Coord(x, y + 1)
    }

    pub fn south(&self) -> (r: Self)
        requires
            self.1 > i64::MIN,
        ensures
            r == Coord(self.0, (self.1 - 1) as i64),
    {
        let Coord(x, y) = *self;
        Coord(x, y - 1)
    }

    pub fn east(&self) -> (r: Self)
        requires
            self.0 < i64::MAX,
        ensures
            r == Coord((self.0 + 1) as i64, self.1),
    {
        let Coord(x, y) = *self;
        Coord(x + 1, y)
    }

    pub fn west(&self) -> (r: Self)
        requires
            self.0 > i64::MIN,
        ensures
            r == Coord((self.0 - 1) as i64, self.1),
    {
        let Coord(x, y) = *self;
        Coord(x - 1, y)
    }

    /// The neighbouring position in a compass direction; `None` for the
    /// other directions.
    pub fn add(&self, dir: MapDir) -> (r: Option<Self>)
        requires
            can_step(*self, dir),
        ensures
            r == spec_step(*self, dir),
    {
        match dir {
            MapDir::North => Some(self.north()),
            MapDir::South => Some(self.south()),
            MapDir::East => Some(self.east()),
            MapDir::West => Some(self.west()),
            _ => None,
        }
    }

    pub fn north_mut(&mut self)
        requires
            old(self).1 < i64::MAX,
        ensures
            *final(self) == Coord(old(self).0, (old(self).1 + 1) as i64),
    {
        self.1 = self.1 + 1;
    }

    pub fn south_mut(&mut self)
        requires
            old(self).1 > i64::MIN,
        ensures
            *final(self) == Coord(old(self).0, (old(self).1 - 1) as i64),
    {
        self.1 = self.1 - 1;
    }

    pub fn east_mut(&mut self)
        requires
            old(self).0 < i64::MAX,
        ensures
            *final(self) == Coord((old(self).0 + 1) as i64, old(self).1),
    {
        self.0 = self.0 + 1;
    }

    pub fn west_mut(&mut self)
        requires
            old(self).0 > i64::MIN,
        ensures
            *final(self) == Coord((old(self).0 - 1) as i64, old(self).1),
    {
        self.0 = self.0 - 1;
    }
}

/// A step in a compass direction followed by a step in the opposite one
/// comes back to where it started.
pub proof fn law_step_back(c: Coord, d: MapDir)
    requires
        can_step(c, d),
        spec_step(c, d) is Some,
    ensures
        can_step(spec_step(c, d).unwrap(), d.spec_opposite()),
        spec_step(spec_step(c, d).unwrap(), d.spec_opposite()) == Some(c),
{
}

/// For the six directions that have an opposite, the opposite of the
/// opposite is the direction itself.
pub proof fn law_opposite_involution(d: MapDir)
    requires
        d != MapDir::NorthEast,
        d != MapDir::NoneFound,
    ensures
        d.spec_opposite().spec_opposite() == d,
{
}

} // verus!
