//! The map: rooms by their coordinates.
use vstd::prelude::*;
use crate::location::direction::MapDir;
use crate::location::{can_step, spec_step, Coord};
use crate::map::{Room, Space};
use crate::player::list::PlayerIdList;

verus! {

/// Position of the first entry with key `c`.
pub open spec fn key_index(s: Seq<(Coord, Room)>, c: Coord) -> Option<int>
    decreases s.len(),
{
    if s.len() == 0 {
        None
    } else if s[0].0 == c {
        Some(0)
    } else {
        match key_index(s.drop_first(), c) {
            Some(i) => Some(i + 1),
            None => None,
        }
    }
}

/// The map that a list of entries stands for: each key to the room of its
/// first entry.
pub open spec fn entries_map(s: Seq<(Coord, Room)>) -> Map<Coord, Room> {
    Map::new(|c: Coord| key_index(s, c) is Some, |c: Coord| s[key_index(s, c)->0].1)
}

pub proof fn lemma_key_index(s: Seq<(Coord, Room)>, c: Coord)
    ensures
        match key_index(s, c) {
            Some(i) => 0 <= i < s.len() && s[i].0 == c && forall|j: int| 0 <= j < i ==> s[j].0 != c,
            None => forall|j: int| 0 <= j < s.len() ==> s[j].0 != c,
        },
    decreases s.len(),
{
    if s.len() > 0 && s[0].0 != c {
        lemma_key_index(s.drop_first(), c);
        match key_index(s.drop_first(), c) {
            Some(i) => {
                assert forall|j: int| 0 <= j < i + 1 implies s[j].0 != c by {
                    if j > 0 {
                        assert(s[j] == s.drop_first()[j - 1]);
                    }
                }
            },
            None => {
                assert forall|j: int| 0 <= j < s.len() implies s[j].0 != c by {
                    if j > 0 {
                        assert(s[j] == s.drop_first()[j - 1]);
                    }
                }
            },
        }
    }
}

pub proof fn lemma_key_index_unique(s: Seq<(Coord, Room)>, c: Coord, k: int)
    requires
        0 <= k < s.len(),
        s[k].0 == c,
        forall|j: int| 0 <= j < k ==> s[j].0 != c,
    ensures
        key_index(s, c) == Some(k),
{
    lemma_key_index(s, c);
    match key_index(s, c) {
        Some(i) => {
            if i < k {
            } else if i > k {
            }
        },
        None => {},
    }
}

pub proof fn lemma_key_index_none(s: Seq<(Coord, Room)>, c: Coord)
    requires
        forall|j: int| 0 <= j < s.len() ==> s[j].0 != c,
    ensures
        key_index(s, c) is None,
{
    lemma_key_index(s, c);
}

/// Appending an entry with a new key adds that key to the map.
pub proof fn lemma_push_new(s: Seq<(Coord, Room)>, c: Coord, r: Room)
    requires
        key_index(s, c) is None,
    ensures
        entries_map(s.push((c, r))) == entries_map(s).insert(c, r),
{
    let t = s.push((c, r));
    lemma_key_index(s, c);
    assert forall|k: Coord| #[trigger] entries_map(t).contains_key(k) == entries_map(s).insert(c, r).contains_key(k) by {
        lemma_key_index(s, k);
        lemma_key_index(t, k);
        if k == c {
            lemma_key_index_unique(t, c, s.len() as int);
        } else {
            match key_index(s, k) {
                Some(i) => {
                    lemma_key_index_unique(t, k, i);
                },
                None => {
                    lemma_key_index_none(t, k);
                },
            }
        }
    }
    assert forall|k: Coord| entries_map(t).contains_key(k) implies #[trigger] entries_map(t)[k] == entries_map(s).insert(c, r)[k] by {
        lemma_key_index(s, k);
        if k == c {
            lemma_key_index_unique(t, c, s.len() as int);
        } else {
            match key_index(s, k) {
                Some(i) => {
                    lemma_key_index_unique(t, k, i);
                },
                None => {
                    lemma_key_index_none(t, k);
                },
            }
        }
    }
    assert(entries_map(t) =~= entries_map(s).insert(c, r));
}

/// Replacing the room of the first entry with key `c` replaces `c`'s room
/// in the map.
pub proof fn lemma_update_at(s: Seq<(Coord, Room)>, c: Coord, i: int, r: Room)
    requires
        key_index(s, c) == Some(i),
    ensures
        entries_map(s.update(i, (c, r))) == entries_map(s).insert(c, r),
{
    let t = s.update(i, (c, r));
    lemma_key_index(s, c);
    assert forall|k: Coord| #[trigger] entries_map(t).contains_key(k) == entries_map(s).insert(c, r).contains_key(k) by {
        lemma_key_index(s, k);
        if k == c {
            lemma_key_index_unique(t, c, i);
        } else {
            match key_index(s, k) {
                Some(j) => {
                    lemma_key_index_unique(t, k, j);
                },
                None => {
                    lemma_key_index_none(t, k);
                },
            }
        }
    }
    assert forall|k: Coord| entries_map(t).contains_key(k) implies #[trigger] entries_map(t)[k] == entries_map(s).insert(c, r)[k] by {
        lemma_key_index(s, k);
        if k == c {
            lemma_key_index_unique(t, c, i);
        } else {
            match key_index(s, k) {
                Some(j) => {
                    lemma_key_index_unique(t, k, j);
                },
                None => {
                    lemma_key_index_none(t, k);
                },
            }
        }
    }
    assert(entries_map(t) =~= entries_map(s).insert(c, r));
}

/// The rooms of the map by their coordinates.
///
/// The rooms are held as pairs in a vector, one per coordinate, rather
/// than in a `HashMap`: a coordinate is a struct whose equality and hash
/// `derive` writes, which the verifier does not read, so a map keyed by it
/// would let nothing be proved of a lookup.
#[derive(Debug)]
pub struct RoomList {
    entries: Vec<(Coord, Room)>,
}

impl View for RoomList {
    type V = Map<Coord, Room>;

    closed spec fn view(&self) -> Map<Coord, Room> {
        entries_map(self.entries@)
    }
}

/// A coordinate from which a step in every compass direction stays inside
/// the range of `i64`.
pub open spec fn interior(c: Coord) -> bool {
    &&& can_step(c, MapDir::North)
    &&& can_step(c, MapDir::South)
    &&& can_step(c, MapDir::East)
    &&& can_step(c, MapDir::West)
}

/// The directions, in the order of `MapDir::all`, in which a room lies
/// next to `loc`.
pub open spec fn spec_exits(rooms: Map<Coord, Room>, loc: Coord) -> Seq<MapDir> {
    MapDir::spec_all().filter(|d: MapDir| spec_step(loc, d) matches Some(c) && rooms.contains_key(c))
}

impl RoomList {
    fn position(&self, loc: Coord) -> (r: Option<usize>)
        ensures
            match r {
                Some(i) => key_index(self.entries@, loc) == Some(i as int),
                None => key_index(self.entries@, loc) is None,
            },
    {
        let mut i: usize = 0;
        while i < self.entries.len()
            invariant
                i <= self.entries@.len(),
                forall|j: int| 0 <= j < i ==> self.entries@[j].0 != loc,
            decreases self.entries@.len() - i,
        {
            if self.entries[i].0 == loc {
                proof {
                    lemma_key_index_unique(self.entries@, loc, i as int);
                }
                return Some(i);
            }
            i = i + 1;
        }
        proof {
            lemma_key_index_none(self.entries@, loc);
        }
        None
    }

    pub fn new() -> (r: Self)
        ensures
            r@ == Map::<Coord, Room>::empty(),
    {
        let r = RoomList { entries: Vec::new() };
        assert(r@ =~= Map::<Coord, Room>::empty());
        r
    }

    pub fn contains_key(&self, loc: Coord) -> (r: bool)
        ensures
            r == self@.contains_key(loc),
    {
        match self.position(loc) {
            Some(_) => true,
            None => false,
        }
    }

    /// Puts `room` at `loc`, in place of any room there.
    pub fn insert(&mut self, loc: Coord, room: Room)
        ensures
            final(self)@ == old(self)@.insert(loc, room),
    {
        match self.position(loc) {
            Some(i) => {
                proof {
                    lemma_key_index(self.entries@, loc);
                    lemma_update_at(self.entries@, loc, i as int, room);
                }
                self.entries.set(i, (loc, room));
            },
            None => {
                proof {
                    lemma_push_new(self.entries@, loc, room);
                }
                self.entries.push((loc, room));
            },
        }
    }

    pub fn get(&self, loc: Coord) -> (r: Option<&Room>)
        ensures
            match r {
                Some(room) => self@.contains_key(loc) && *room == self@[loc],
                None => !self@.contains_key(loc),
            },
    {
        match self.position(loc) {
            Some(i) => {
                proof {
                    lemma_key_index(self.entries@, loc);
                }
                Some(&self.entries[i].1)
            },
            None => None,
        }
    }

    /// The room at `loc`, to change.
    pub fn get_mut(&mut self, loc: Coord) -> (r: Option<&mut Room>)
        ensures
            match r {
                Some(room) => old(self)@.contains_key(loc) && *room == old(self)@[loc]
                    && final(self)@ == old(self)@.insert(loc, *final(room)),
                None => !old(self)@.contains_key(loc) && final(self)@ == old(self)@,
            },
    {
        match self.position(loc) {
            Some(i) => {
                proof {
                    lemma_key_index(self.entries@, loc);
                }
                let ghost old_entries = self.entries@;
                let entry = &mut self.entries[i];
                let room = &mut entry.1;
                proof {
                    lemma_update_at(old_entries, loc, i as int, *final(room));
                }
                Some(room)
            },
            None => None,
        }
    }
}

/// The rooms of a map as seen from one place: who is there, and where
/// the neighbouring rooms lie.
pub trait RoomListTrait {
    spec fn rooms_view(&self) -> Map<Coord, Room>;

    /// The ids of the players in the room at `loc`; none if there is no
    /// room there.
    fn player_ids(&self, loc: Coord) -> (r: PlayerIdList)
        ensures
            r@ == if self.rooms_view().contains_key(loc) {
                self.rooms_view()[loc]@.players
            } else {
                Seq::<u128>::empty()
            },
    ;

    /// The directions in which a neighbouring room lies.
    fn exits(&self, loc: Coord) -> (r: Vec<MapDir>)
        requires
            interior(loc),
        ensures
            r@ == spec_exits(self.rooms_view(), loc),
    ;
}

impl RoomListTrait for RoomList {
    open spec fn rooms_view(&self) -> Map<Coord, Room> {
        self@
    }

    fn player_ids(&self, loc: Coord) -> (r: PlayerIdList) {
        match self.get(loc) {
            Some(r) => r.players().clone_list(),
            None => PlayerIdList::new(),
        }
    }

    fn exits(&self, loc: Coord) -> (r: Vec<MapDir>) {
        let all = MapDir::all();
        let mut r: Vec<MapDir> = Vec::new();
        let mut i: usize = 0;
        let ghost f = |d: MapDir| spec_step(loc, d) matches Some(c) && self@.contains_key(c);
        while i < all.len()
            invariant
                i <= all@.len(),
                all@ == MapDir::spec_all(),
                interior(loc),
                f == (|d: MapDir| spec_step(loc, d) matches Some(c) && self@.contains_key(c)),
                r@ == all@.subrange(0, i as int).filter(f),
            decreases all@.len() - i,
        {
            let d = all[i];
            proof {
                let s = all@.subrange(0, i + 1);
                assert(s.drop_last() =~= all@.subrange(0, i as int));
                assert(s.last() == d);
                reveal(Seq::filter);
            }
            let keep = match loc.add(d) {
                Some(c) => self.contains_key(c),
                None => false,
            };
            if keep {
                r.push(d);
            }
            i = i + 1;
        }
        assert(all@.subrange(0, all@.len() as int) =~= all@);
        r
    }
}

} // verus!
