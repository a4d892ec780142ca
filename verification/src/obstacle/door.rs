//! Doors between rooms and the states they can be in.
use vstd::prelude::*;
use crate::location::direction::MapDir;
use crate::location::Coord;
use crate::obstacle::key::{Key, KeyType};
use crate::text::strings::str_eq;

verus! {

/// `Ok` when a state change happened, else the state that stood in the way.
pub type StateResult<T> = Result<(), T>;

/// Something that is in a state of kind `T`.
pub trait ObstacleState<T> {
    fn state(&self) -> T;
}

/// Something whose state a key may change.
pub trait Lock<T>: ObstacleState<T> {
    fn unlock(&mut self, new_state: T, key: Option<&KeyType>) -> StateResult<T>;

    fn is_locked(&self) -> bool;
}

/// Whether a guard lets people pass.
#[derive(Copy, Clone, Debug, PartialEq, Eq, Structural)]
pub enum GuardState {
    Open,
    Closed,
}

impl Default for GuardState {
    fn default() -> (r: Self)
        ensures
            r == GuardState::Closed,
    {
        GuardState::Closed
    }
}

/// The state of a door; `Guarded` names who guards it.
#[derive(Debug)]
pub enum DoorState {
    Open,
    Closed,
    Locked,
    MagicallySealed,
    PermaLocked,
    Guarded(String),
    Nothing,
}

/// The contents of a `DoorState`.
pub enum DoorStateView {
    Open,
    Closed,
    Locked,
    MagicallySealed,
    PermaLocked,
    Guarded(Seq<char>),
    Nothing,
}

impl View for DoorState {
    type V = DoorStateView;

    open spec fn view(&self) -> DoorStateView {
        match self {
            DoorState::Open => DoorStateView::Open,
            DoorState::Closed => DoorStateView::Closed,
            DoorState::Locked => DoorStateView::Locked,
            DoorState::MagicallySealed => DoorStateView::MagicallySealed,
            DoorState::PermaLocked => DoorStateView::PermaLocked,
            DoorState::Guarded(s) => DoorStateView::Guarded(s@),
            DoorState::Nothing => DoorStateView::Nothing,
        }
    }
}

impl Clone for DoorState {
    fn clone(&self) -> (r: Self)
        ensures
            r@ == self@,
    {
        match self {
            DoorState::Open => DoorState::Open,
            DoorState::Closed => DoorState::Closed,
            DoorState::Locked => DoorState::Locked,
            DoorState::MagicallySealed => DoorState::MagicallySealed,
            DoorState::PermaLocked => DoorState::PermaLocked,
            DoorState::Guarded(s) => DoorState::Guarded(s.clone()),
            DoorState::Nothing => DoorState::Nothing,
        }
    }
}

impl Default for DoorState {
    fn default() -> (r: Self)
        ensures
            r@ == DoorStateView::Open,
    {
        DoorState::Open
    }
}

impl DoorState {
    /// Whether two door states are the same.
    pub fn same(&self, other: &DoorState) -> (r: bool)
        ensures
            r == (self@ == other@),
    {
        match (self, other) {
            (DoorState::Open, DoorState::Open) => true,
            (DoorState::Closed, DoorState::Closed) => true,
            (DoorState::Locked, DoorState::Locked) => true,
            (DoorState::MagicallySealed, DoorState::MagicallySealed) => true,
            (DoorState::PermaLocked, DoorState::PermaLocked) => true,
            (DoorState::Guarded(a), DoorState::Guarded(b)) => str_eq(a.as_str(), b.as_str()),
            (DoorState::Nothing, DoorState::Nothing) => true,
            _ => false,
        }
    }
}

impl ObstacleState<DoorState> for DoorState {
    fn state(&self) -> (r: DoorState)
        ensures
            r@ == self@,
    {
        self.clone()
    }
}

/// A door on one side of a room: the direction it leads, its state, where
/// it leads when not to the neighbouring room, and the number of its
/// keyhole (`None`: it has no lock).
#[derive(Debug, Default)]
pub struct Door {
    dir: MapDir,
    state: DoorState,
    alt_dest: Option<Coord>,
    keyhole: Option<u64>,
}

/// The state of a door after `unlock(new, key)` and what the call returns:
/// a door already in the asked state refuses; a closed door opens; an open
/// door does not close; otherwise the key must fit the keyhole, unless
/// there is none, and a wrong or missing key gives `Locked`.
pub open spec fn spec_door_unlock(
    cur: DoorStateView,
    keyhole: Option<u64>,
    new: DoorStateView,
    key: Option<u64>,
) -> (DoorStateView, Result<(), DoorStateView>) {
    if cur == new {
        (cur, Err(cur))
    } else if new == DoorStateView::Open && cur == DoorStateView::Closed {
        (new, Ok(()))
    } else if new == DoorStateView::Closed && cur == DoorStateView::Open {
        (cur, Err(cur))
    } else {
        match keyhole {
            Some(h) => if key == Some(h) {
                (new, Ok(()))
            } else {
                (cur, Err(DoorStateView::Locked))
            },
            None => (new, Ok(())),
        }
    }
}

/// What asking a door for another state does, for every keyhole and key:
/// a closed door always opens, with or without a key; an open door never
/// closes; a door already in the asked state stays and answers with it;
/// a wrong or missing key for a door with a keyhole leaves it as it is and
/// answers `Locked`; and whatever the answer, the door ends in the asked
/// state exactly when the answer is `Ok`, and else stays as it was.
pub proof fn law_door_unlock(cur: DoorStateView, keyhole: Option<u64>, new: DoorStateView, key: Option<u64>)
    ensures
        cur == DoorStateView::Closed && new == DoorStateView::Open
            ==> spec_door_unlock(cur, keyhole, new, key) == (DoorStateView::Open, Ok::<(), DoorStateView>(())),
        cur == DoorStateView::Open && new == DoorStateView::Closed
            ==> spec_door_unlock(cur, keyhole, new, key) == (DoorStateView::Open, Err::<(), DoorStateView>(DoorStateView::Open)),
        cur == new ==> spec_door_unlock(cur, keyhole, new, key) == (cur, Err::<(), DoorStateView>(cur)),
        cur != new && !(cur == DoorStateView::Closed && new == DoorStateView::Open)
            && !(cur == DoorStateView::Open && new == DoorStateView::Closed)
            ==> spec_door_unlock(cur, keyhole, new, key) == match keyhole {
                Some(h) => if key == Some(h) {
                    (new, Ok::<(), DoorStateView>(()))
                } else {
                    (cur, Err::<(), DoorStateView>(DoorStateView::Locked))
                },
                None => (new, Ok::<(), DoorStateView>(())),
            },
        spec_door_unlock(cur, keyhole, new, key).1 is Ok ==> spec_door_unlock(cur, keyhole, new, key).0 == new && cur != new,
        spec_door_unlock(cur, keyhole, new, key).1 is Err ==> spec_door_unlock(cur, keyhole, new, key).0 == cur,
{
}

/// The key value of an optional key.
pub open spec fn key_value(key: Option<&KeyType>) -> Option<u64> {
    match key {
        Some(k) => Some(k.key),
        None => None,
    }
}

/// The view of a state result.
pub open spec fn result_view(r: StateResult<DoorState>) -> Result<(), DoorStateView> {
    match r {
        Ok(()) => Ok(()),
        Err(s) => Err(s@),
    }
}

impl Door {
    pub fn new(dir: MapDir, state: DoorState, alt_dest: Option<Coord>, keyhole: Option<u64>) -> (r: Self)
        ensures
            r.spec_dir() == dir,
            r.spec_state() == state@,
            r.spec_alt_dest() == alt_dest,
            r.spec_keyhole() == keyhole,
    {
        Door { dir, state, alt_dest, keyhole }
    }

    pub closed spec fn spec_dir(&self) -> MapDir {
        self.dir
    }

    pub closed spec fn spec_state(&self) -> DoorStateView {
        self.state@
    }

    pub closed spec fn spec_alt_dest(&self) -> Option<Coord> {
        self.alt_dest
    }

    pub closed spec fn spec_keyhole(&self) -> Option<u64> {
        self.keyhole
    }

    pub fn dir(&self) -> (r: MapDir)
        ensures
            r == self.spec_dir(),
    {
        self.dir
    }

    pub fn keyhole(&self) -> (r: Option<u64>)
        ensures
            r == self.spec_keyhole(),
    {
        self.keyhole
    }

    pub fn alt_dest(&self) -> (r: Option<Coord>)
        ensures
            r == self.spec_alt_dest(),
    {
        self.alt_dest
    }
}

impl ObstacleState<DoorState> for Door {
    fn state(&self) -> (r: DoorState)
        ensures
            r@ == self.spec_state(),
    {
        self.state.clone()
    }
}

impl Lock<DoorState> for Door {
    fn unlock(&mut self, new_state: DoorState, key: Option<&KeyType>) -> (r: StateResult<DoorState>)
        ensures
            final(self).spec_state() == spec_door_unlock(
                old(self).spec_state(),
                old(self).spec_keyhole(),
                new_state@,
                key_value(key),
            ).0,
            result_view(r) == spec_door_unlock(
                old(self).spec_state(),
                old(self).spec_keyhole(),
                new_state@,
                key_value(key),
            ).1,
            final(self).spec_dir() == old(self).spec_dir(),
            final(self).spec_keyhole() == old(self).spec_keyhole(),
            final(self).spec_alt_dest() == old(self).spec_alt_dest(),
    {
        if self.state.same(&new_state) {
            return Err(self.state.clone());
        }
        match (&new_state, &self.state) {
            (DoorState::Open, DoorState::Closed) => {
                self.state = new_state;
                return Ok(());
            },
            (DoorState::Closed, DoorState::Open) => {
                return Err(self.state());
            },
            _ => {},
        }
        match self.keyhole {
            Some(h) => {
                let fits = match key {
                    Some(k) => k.key() == h,
                    None => false,
                };
                if fits {
                    self.state = new_state;
                    Ok(())
                } else {
                    Err(DoorState::Locked)
                }
            },
            None => {
                self.state = new_state;
                Ok(())
            },
        }
    }

    /// A door is locked in every state but open and closed.
    fn is_locked(&self) -> (r: bool)
        ensures
            r == !(self.spec_state() == DoorStateView::Open || self.spec_state() == DoorStateView::Closed),
    {
        match self.state {
            DoorState::Open | DoorState::Closed => false,
            _ => true,
        }
    }
}

/// No two doors lie in the same direction.
pub open spec fn doors_distinct(s: Seq<Door>) -> bool {
    forall|i: int, j: int| 0 <= i < j < s.len() ==> s[i].spec_dir() != s[j].spec_dir()
}

/// The door of a list that lies in direction `dir`, if there is one.
pub open spec fn spec_door(s: Seq<Door>, dir: MapDir) -> Option<Door> {
    if exists|i: int| 0 <= i < s.len() && s[i].spec_dir() == dir {
        Some(s[choose|i: int| 0 <= i < s.len() && s[i].spec_dir() == dir])
    } else {
        None
    }
}

/// With doors in distinct directions, the door at a position is the
/// door of its direction.
pub proof fn lemma_spec_door(s: Seq<Door>, i: int)
    requires
        doors_distinct(s),
        0 <= i < s.len(),
    ensures
        spec_door(s, s[i].spec_dir()) == Some(s[i]),
{
    let dir = s[i].spec_dir();
    let k = choose|k: int| 0 <= k < s.len() && s[k].spec_dir() == dir;
    if k < i {
    } else if k > i {
    }
}

/// The doors of a room, by direction; each direction has at most one door.
///
/// The doors are held in a vector whose directions are distinct rather
/// than in a `HashMap`: a direction is an enum whose equality and hash
/// `derive` writes, which the verifier does not read, so a map keyed by it
/// would let nothing be proved of a lookup.
#[derive(Debug, Default)]
pub struct DoorList {
    doors: Vec<Door>,
}

impl DoorList {
    pub closed spec fn wf(&self) -> bool {
        forall|i: int, j: int|
            0 <= i < j < self.doors@.len() ==> self.doors@[i].spec_dir() != self.doors@[j].spec_dir()
    }

    pub closed spec fn spec_doors(&self) -> Seq<Door> {
        self.doors@
    }

    pub proof fn lemma_wf(&self)
        ensures
            self.wf() == doors_distinct(self.spec_doors()),
    {
    }

    pub fn new() -> (r: Self)
        ensures
            r.spec_doors() == Seq::<Door>::empty(),
            r.wf(),
    {
        DoorList { doors: Vec::new() }
    }

    pub fn len(&self) -> (r: usize)
        ensures
            r == self.spec_doors().len(),
    {
        self.doors.len()
    }

    /// Position of the door in direction `dir`, if the room has one.
    pub fn position(&self, dir: MapDir) -> (r: Option<usize>)
        ensures
            match r {
                Some(i) => i < self.spec_doors().len() && self.spec_doors()[i as int].spec_dir() == dir,
                None => forall|i: int| 0 <= i < self.spec_doors().len() ==> self.spec_doors()[i].spec_dir() != dir,
            },
    {
        let mut i: usize = 0;
        while i < self.doors.len()
            invariant
                i <= self.doors@.len(),
                forall|j: int| 0 <= j < i ==> self.doors@[j].spec_dir() != dir,
            decreases self.doors@.len() - i,
        {
            if self.doors[i].dir() == dir {
                return Some(i);
            }
            i = i + 1;
        }
        None
    }

    /// The state of the door at position `i`.
    pub fn get_state_at(&self, i: usize) -> (r: DoorState)
        requires
            i < self.spec_doors().len(),
        ensures
            r@ == self.spec_doors()[i as int].spec_state(),
    {
        self.doors[i].state()
    }

    pub fn get(&self, dir: MapDir) -> (r: Option<&Door>)
        ensures
            match r {
                Some(d) => exists|i: int| 0 <= i < self.spec_doors().len() && self.spec_doors()[i] == *d && d.spec_dir() == dir,
                None => forall|i: int| 0 <= i < self.spec_doors().len() ==> self.spec_doors()[i].spec_dir() != dir,
            },
    {
        match self.position(dir) {
            Some(i) => Some(&self.doors[i]),
            None => None,
        }
    }

    /// Adds a door, or replaces the one in the same direction.
    pub fn insert(&mut self, door: Door)
        requires
            old(self).wf(),
        ensures
            final(self).wf(),
            exists|i: int| 0 <= i < final(self).spec_doors().len() && final(self).spec_doors()[i] == door,
            forall|i: int| 0 <= i < old(self).spec_doors().len() && old(self).spec_doors()[i].spec_dir() != door.spec_dir()
                ==> final(self).spec_doors().contains(#[trigger] old(self).spec_doors()[i]),
    {
        let ghost dir = door.spec_dir();
        match self.position(door.dir()) {
            Some(i) => {
                self.doors.set(i, door);
                assert(self.spec_doors()[i as int] == door);
            },
            None => {
                self.doors.push(door);
                assert(self.spec_doors()[self.doors@.len() - 1] == door);
            },
        }
        assert forall|i: int| 0 <= i < old(self).spec_doors().len() && old(self).spec_doors()[i].spec_dir() != dir
            implies self.spec_doors().contains(#[trigger] old(self).spec_doors()[i]) by {
            assert(self.spec_doors()[i] == old(self).spec_doors()[i]);
        }
    }

    /// Applies `unlock` to the door at position `i`.
    pub fn unlock_at(&mut self, i: usize, new_state: DoorState, key: Option<&KeyType>) -> (r: StateResult<DoorState>)
        requires
            i < old(self).spec_doors().len(),
        ensures
            old(self).wf() ==> final(self).wf(),
            final(self).spec_doors().len() == old(self).spec_doors().len(),
            forall|j: int| 0 <= j < old(self).spec_doors().len() && j != i ==> final(self).spec_doors()[j] == old(self).spec_doors()[j],
            ({
                let d0 = old(self).spec_doors()[i as int];
                let d1 = final(self).spec_doors()[i as int];
                let out = spec_door_unlock(d0.spec_state(), d0.spec_keyhole(), new_state@, key_value(key));
                &&& d1.spec_state() == out.0
                &&& result_view(r) == out.1
                &&& d1.spec_dir() == d0.spec_dir()
                &&& d1.spec_keyhole() == d0.spec_keyhole()
                &&& d1.spec_alt_dest() == d0.spec_alt_dest()
            }),
    {
        let r = self.doors[i].unlock(new_state, key);
        r
    }
}

} // verus!
