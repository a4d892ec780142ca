use vstd::prelude::*;
use crate::text::strings::{is_prefix, starts_with};

verus! {

/// A compass direction in which an exit of a room may lie.
#[derive(Copy, Clone, Debug, PartialEq, Eq, Hash, Structural)]
pub enum MapDir {
    North,
    South,
    East,
    West,
    Up,
    Down,
    NorthEast,
    NoneFound,
}

impl MapDir {
    /// The opposite direction, as a spec function.
    pub open spec fn spec_opposite(self) -> MapDir {
        match self {
            MapDir::North => MapDir::South,
            MapDir::South => MapDir::North,
            MapDir::East => MapDir::West,
            MapDir::West => MapDir::East,
            MapDir::Up => MapDir::Down,
            MapDir::Down => MapDir::Up,
            MapDir::NorthEast => MapDir::NoneFound,
            MapDir::NoneFound => MapDir::NoneFound,
        }
    }


    /// Every direction an exit may lie in.
    pub open spec fn spec_all() -> Seq<MapDir> {
        seq![MapDir::North, MapDir::South, MapDir::East, MapDir::West, MapDir::Up, MapDir::Down, MapDir::NorthEast]
    }

    pub fn all() -> (r: Vec<MapDir>)
        ensures
            r@ == Self::spec_all(),
    {
        let r = vec![MapDir::North, MapDir::South, MapDir::East, MapDir::West, MapDir::Up, MapDir::Down, MapDir::NorthEast];
        assert(r@ =~= Self::spec_all());
        r
    }
    /// The full name of the direction.
    pub open spec fn spec_name(self) -> Seq<char> {
        match self {
            MapDir::North => seq!['n', 'o', 'r', 't', 'h'],
            MapDir::South => seq!['s', 'o', 'u', 't', 'h'],
            MapDir::East => seq!['e', 'a', 's', 't'],
            MapDir::West => seq!['w', 'e', 's', 't'],
            MapDir::Up => seq!['u', 'p'],
            MapDir::Down => seq!['d', 'o', 'w', 'n'],
            MapDir::NorthEast => seq!['n', 'o', 'r', 't', 'h', 'e', 'a', 's', 't'],
            MapDir::NoneFound => Seq::<char>::empty(),
        }
    }

    /// The abbreviation of the direction.
    pub open spec fn spec_short_name(self) -> Seq<char> {
        match self {
            MapDir::North => seq!['n'],
            MapDir::South => seq!['s'],
            MapDir::East => seq!['e'],
            MapDir::West => seq!['w'],
            MapDir::Up => seq!['u'],
            MapDir::Down => seq!['d'],
            MapDir::NorthEast => seq!['n', 'e'],
            MapDir::NoneFound => Seq::<char>::empty(),
        }
    }

    pub fn to_string(&self) -> (r: &'static str)
        ensures
            r@ == self.spec_name(),
    {
        match self {
            MapDir::North => {
                proof { reveal_strlit("north"); }
                "north"
            },
            MapDir::South => {
                proof { reveal_strlit("south"); }
                "south"
            },
            MapDir::East => {
                proof { reveal_strlit("east"); }
                "east"
            },
            MapDir::West => {
                proof { reveal_strlit("west"); }
                "west"
            },
            MapDir::Up => {
                proof { reveal_strlit("up"); }
                "up"
            },
            MapDir::Down => {
                proof { reveal_strlit("down"); }
                "down"
            },
            MapDir::NorthEast => {
                proof { reveal_strlit("northeast"); }
                "northeast"
            },
            MapDir::NoneFound => {
                proof { reveal_strlit(""); }
                ""
            },
        }
    }

    pub fn to_string_short(&self) -> (r: &'static str)
        ensures
            r@ == self.spec_short_name(),
    {
        match self {
            MapDir::North => {
                proof { reveal_strlit("n"); }
                "n"
            },
            MapDir::South => {
                proof { reveal_strlit("s"); }
                "s"
            },
            MapDir::East => {
                proof { reveal_strlit("e"); }
                "e"
            },
            MapDir::West => {
                proof { reveal_strlit("w"); }
                "w"
            },
            MapDir::Up => {
                proof { reveal_strlit("u"); }
                "u"
            },
            MapDir::Down => {
                proof { reveal_strlit("d"); }
                "d"
            },
            MapDir::NorthEast => {
                proof { reveal_strlit("ne"); }
                "ne"
            },
            MapDir::NoneFound => {
                proof { reveal_strlit(""); }
                ""
            },
        }
    }

    /// The direction that a (possibly abbreviated) word names: the first of
    /// north, south, east, west, north, down, northeast whose name starts
    /// with the word, else `NoneFound`.
    pub open spec fn spec_from_word(d: Seq<char>) -> MapDir {
        if is_prefix(d, MapDir::North.spec_name()) {
            MapDir::North
        } else if is_prefix(d, MapDir::South.spec_name()) {
            MapDir::South
        } else if is_prefix(d, MapDir::East.spec_name()) {
            MapDir::East
        } else if is_prefix(d, MapDir::West.spec_name()) {
            MapDir::West
        } else if is_prefix(d, MapDir::Down.spec_name()) {
            MapDir::Down
        } else if is_prefix(d, MapDir::NorthEast.spec_name()) {
            MapDir::NorthEast
        } else {
            MapDir::NoneFound
        }
    }

    /// Reads a direction from a word typed by a player.
    pub fn from_word(d: &str) -> (r: MapDir)
        ensures
            r == Self::spec_from_word(d@),
    {
        if starts_with(MapDir::North.to_string(), d) {
            MapDir::North
        } else if starts_with(MapDir::South.to_string(), d) {
            MapDir::South
        } else if starts_with(MapDir::East.to_string(), d) {
            MapDir::East
        } else if starts_with(MapDir::West.to_string(), d) {
            MapDir::West
        } else if starts_with(MapDir::Down.to_string(), d) {
            MapDir::Down
        } else if starts_with(MapDir::NorthEast.to_string(), d) {
            MapDir::NorthEast
        } else {
            MapDir::NoneFound
        }
    }

    pub fn opposite(&self) -> (r: MapDir)
        ensures
            r == self.spec_opposite(),
    {
        match self {
            MapDir::North => MapDir::South,
            MapDir::South => MapDir::North,
            MapDir::East => MapDir::West,
            MapDir::West => MapDir::East,
            MapDir::Up => MapDir::Down,
            MapDir::Down => MapDir::Up,
            MapDir::NorthEast => MapDir::NoneFound,
            MapDir::NoneFound => MapDir::NoneFound,
        }
    }
}

impl Default for MapDir {
    fn default() -> (r: Self)
        ensures
            r == MapDir::South,
    {
        MapDir::South
    }
}

} // verus!
