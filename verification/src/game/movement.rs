//! Moving players between rooms, and describing where they are.
use vstd::prelude::*;
use crate::map::list::RoomListTrait;
use crate::text::message::Broadcast;
use crate::describe::Describe;
use crate::error::{is_fatal, EnnuiError};
use crate::item::Item;
use crate::item::list::RenaissanceGuard;
use crate::location::direction::MapDir;
use crate::location::{can_step, spec_step, Coord, Locate};
use crate::map::list::{interior, spec_exits};
use crate::map::{spec_exit_line, spec_room_text, Room, Space};
use crate::obstacle::door::{doors_distinct, lemma_spec_door, spec_door, Door, DoorState, DoorStateView, GuardState, ObstacleState};
use crate::player::list::{not_id, PlayerIdList};
use crate::player::{PlayerType, PlayerView};
use crate::text::{spec_paint, yellow_code, Color};
use crate::text::message::MessageFormat;
use super::{output_view, spec_message, Game, GameOutput};

verus! {

/// A door that stands in the way: any door that is neither open nor
/// missing.
pub open spec fn spec_blocking(d: Option<Door>) -> Option<DoorStateView> {
    match d {
        Some(door) => match door.spec_state() {
            DoorStateView::Nothing => None,
            DoorStateView::Open => None,
            s => Some(s),
        },
        None => None,
    }
}

/// What the doors between `loc` and `next` let through: the way needs a
/// room on both sides, and neither the door of the first room in
/// direction `dir` nor that of the second in the opposite direction may
/// stand in the way.
pub open spec fn spec_check_doors(rooms: Map<Coord, Room>, loc: Coord, next: Option<Coord>, dir: MapDir) -> Result<(), DoorStateView> {
    if !rooms.contains_key(loc) {
        Err(DoorStateView::Nothing)
    } else {
        match spec_blocking(spec_door(rooms[loc]@.doors, dir)) {
            Some(s) => Err(s),
            None => match next {
                None => Err(DoorStateView::Nothing),
                Some(n) => if !rooms.contains_key(n) {
                    Err(DoorStateView::Nothing)
                } else {
                    match spec_blocking(spec_door(rooms[n]@.doors, dir.spec_opposite())) {
                        Some(s) => Err(s),
                        None => Ok(()),
                    }
                },
            },
        }
    }
}

/// Doors stand between two rooms: where the doors let a player through
/// from one room to the next, they let it back through the other way.
pub proof fn law_doors_let_back(rooms: Map<Coord, Room>, loc: Coord, dir: MapDir)
    requires
        can_step(loc, dir),
        spec_step(loc, dir) is Some,
        spec_check_doors(rooms, loc, spec_step(loc, dir), dir) is Ok,
    ensures
        spec_check_doors(rooms, spec_step(loc, dir)->0, spec_step(spec_step(loc, dir)->0, dir.spec_opposite()), dir.spec_opposite()) is Ok,
{
    crate::location::law_step_back(loc, dir);
    let next = spec_step(loc, dir)->0;
    assert(spec_step(next, dir.spec_opposite()) == Some(loc));
    assert(dir.spec_opposite().spec_opposite() == dir);
}

/// Position of the first guard among the items of a room.
pub open spec fn first_guard(items: Seq<Item>) -> Option<int>
    decreases items.len(),
{
    if items.len() == 0 {
        None
    } else if items[0] is Guard {
        Some(0)
    } else {
        match first_guard(items.drop_first()) {
            Some(i) => Some(i + 1),
            None => None,
        }
    }
}

pub proof fn lemma_first_guard(items: Seq<Item>)
    ensures
        match first_guard(items) {
            Some(i) => 0 <= i < items.len() && items[i] is Guard && forall|j: int| 0 <= j < i ==> !(items[j] is Guard),
            None => forall|j: int| 0 <= j < items.len() ==> !(items[j] is Guard),
        },
    decreases items.len(),
{
    if items.len() > 0 && !(items[0] is Guard) {
        lemma_first_guard(items.drop_first());
        match first_guard(items.drop_first()) {
            Some(i) => {
                assert forall|j: int| 0 <= j < i + 1 implies !(items[j] is Guard) by {
                    if j > 0 {
                        assert(items[j] == items.drop_first()[j - 1]);
                    }
                }
            },
            None => {
                assert forall|j: int| 0 <= j < items.len() implies !(items[j] is Guard) by {
                    if j > 0 {
                        assert(items[j] == items.drop_first()[j - 1]);
                    }
                }
            },
        }
    }
}

/// What the guards of a room let through in direction `dir`: only the
/// first guard of the room counts, and he stops the way he guards while he
/// is closed.
pub open spec fn spec_check_guard(items: Seq<Item>, dir: MapDir) -> Result<(), DoorStateView> {
    match first_guard(items) {
        Some(i) => match items[i] {
            Item::Guard(d, g) => if d == dir && g.state == GuardState::Closed {
                Err(DoorStateView::Guarded(g.info.name@))
            } else {
                Ok(())
            },
            _ => Ok(()),
        },
        None => Ok(()),
    }
}

/// The view of a result of a door check.
pub open spec fn door_result_view(r: Result<(), DoorState>) -> Result<(), DoorStateView> {
    match r {
        Ok(()) => Ok(()),
        Err(s) => Err(s@),
    }
}

/// The lines that list players under a room: for each id of a player of
/// the game, a new line with its display line in yellow.
pub open spec fn spec_player_lines(players: Map<u128, PlayerType>, ids: Seq<u128>) -> Seq<char>
    decreases ids.len(),
{
    if ids.len() == 0 {
        Seq::empty()
    } else {
        spec_player_lines(players, ids.drop_last()) + if players.contains_key(ids.last()) {
            seq!['\n'] + spec_paint(yellow_code(), players[ids.last()]@.info.info.display)
        } else {
            Seq::empty()
        }
    }
}

/// How a room looks to player `u`: the room, the other players in it,
/// and its exits.
pub open spec fn spec_room_view(players: Map<u128, PlayerType>, rooms: Map<Coord, Room>, loc: Coord, u: u128) -> Seq<char> {
    let r = rooms[loc]@;
    spec_room_text(r.info.info.name, r.info.info.description, r.items)
        + spec_player_lines(players, r.players.filter(not_id(u)))
        + spec_exit_line(spec_exits(rooms, loc))
}

/// Which door of a list lies in direction `dir`, with the door pinned down
/// when the directions are distinct.
fn door_in(doors: &crate::obstacle::door::DoorList, dir: MapDir) -> (r: Option<&Door>)
    requires
        doors_distinct(doors.spec_doors()),
    ensures
        match r {
            Some(d) => spec_door(doors.spec_doors(), dir) == Some(*d),
            None => spec_door(doors.spec_doors(), dir) is None,
        },
{
    let r = doors.get(dir);
    proof {
        match r {
            Some(d) => {
                let i = choose|i: int| 0 <= i < doors.spec_doors().len() && doors.spec_doors()[i] == *d && d.spec_dir() == dir;
                lemma_spec_door(doors.spec_doors(), i);
            },
            None => {},
        }
    }
    r
}

/// Whether a door stands in the way.
fn door_blocks(d: Option<&Door>) -> (r: Result<(), DoorState>)
    ensures
        match d {
            Some(door) => match spec_blocking(Some(*door)) {
                Some(s) => r matches Err(x) && x@ == s,
                None => r is Ok,
            },
            None => r is Ok,
        },
{
    match d {
        Some(door) => {
            let st = door.state();
            match st {
                DoorState::Nothing => Ok(()),
                DoorState::Open => Ok(()),
                s => Err(s),
            }
        },
        None => Ok(()),
    }
}

impl Game {
    /// Whether the doors let a player go from `loc` to `next_coord`.
    pub fn check_doors(&self, loc: Coord, next_coord: Option<Coord>, dir: MapDir) -> (r: Result<(), DoorState>)
        requires
            self.wf(),
        ensures
            door_result_view(r) == spec_check_doors(self.spec_rooms(), loc, next_coord, dir),
    {
        let src_room = match self.rooms.get(loc) {
            Some(r) => r,
            None => return Err(DoorState::Nothing),
        };
        match door_blocks(door_in(src_room.doors(), dir)) {
            Ok(()) => {},
            Err(s) => return Err(s),
        }
        let next = match next_coord {
            Some(n) => n,
            None => return Err(DoorState::Nothing),
        };
        let dst_room = match self.rooms.get(next) {
            Some(r) => r,
            None => return Err(DoorState::Nothing),
        };
        match door_blocks(door_in(dst_room.doors(), dir.opposite())) {
            Ok(()) => {},
            Err(s) => return Err(s),
        }
        Ok(())
    }

    /// Whether the first guard of the room lets a player go in direction
    /// `dir`.
    pub fn check_guard(dir: MapDir, src_room: &Room) -> (r: Result<(), DoorState>)
        ensures
            door_result_view(r) == spec_check_guard(src_room@.items, dir),
    {
        let items = src_room.items();
        proof {
            lemma_first_guard(src_room@.items);
        }
        let mut i: usize = 0;
        while i < items.len()
            invariant
                i <= items.spec_inner().len(),
                items.spec_inner() == src_room@.items,
                forall|j: int| 0 <= j < i ==> !(items.spec_inner()[j] is Guard),
            decreases items.spec_inner().len() - i,
        {
            match items.item_at(i) {
                Item::Guard(d, g) => {
                    proof {
                        lemma_first_guard(src_room@.items);
                        match first_guard(src_room@.items) {
                            Some(k) => {
                                if k < i {
                                } else if k > i {
                                }
                            },
                            None => {},
                        }
                    }
                    if *d == dir && g.state() == GuardState::Closed {
                        return Err(DoorState::Guarded(g.name()));
                    }
                    return Ok(());
                },
                _ => {},
            }
            i = i + 1;
        }
        Ok(())
    }
}

/// The ids of a room after `u` came in.
pub open spec fn with_id(s: Seq<u128>, u: u128) -> Seq<u128> {
    if s.contains(u) { s } else { s.push(u) }
}

/// Whether player `u` may go from `loc` in direction `dir`: the doors,
/// then the first guard of the room, must let it through.
pub open spec fn spec_may_move(rooms: Map<Coord, Room>, loc: Coord, dir: MapDir) -> Result<(), DoorStateView> {
    match spec_check_doors(rooms, loc, spec_step(loc, dir), dir) {
        Err(s) => Err(s),
        Ok(()) => spec_check_guard(rooms[loc]@.items, dir),
    }
}

/// The text that answers a move that a door or a guard stopped.
pub open spec fn spec_blocked_text(s: DoorStateView) -> Seq<char> {
    match s {
        DoorStateView::Nothing => "alas! you cannot go that way..."@,
        DoorStateView::Closed => "a door blocks your way"@,
        DoorStateView::Locked => "a door blocks your way"@,
        DoorStateView::Open => "it's already open"@,
        DoorStateView::MagicallySealed => "a door blocks your way. it's sealed with a mysterious force"@,
        DoorStateView::PermaLocked => "a door blocks your way. it's not going to budge, and there's no keyhole"@,
        DoorStateView::Guarded(g) => crate::text::spec_article(g) + " blocks your way. they look pretty scary"@,
    }
}

/// A door that is neither open nor missing stops a move: from a room whose
/// door in direction `dir` is closed, locked, sealed, guarded or
/// perma-locked, a move that way fails with that state.
pub proof fn law_door_blocks(rooms: Map<Coord, Room>, loc: Coord, dir: MapDir, i: int)
    requires
        rooms.contains_key(loc),
        doors_distinct(rooms[loc]@.doors),
        0 <= i < rooms[loc]@.doors.len(),
        rooms[loc]@.doors[i].spec_dir() == dir,
        rooms[loc]@.doors[i].spec_state() != DoorStateView::Open,
        rooms[loc]@.doors[i].spec_state() != DoorStateView::Nothing,
    ensures
        spec_may_move(rooms, loc, dir) == Err::<(), DoorStateView>(rooms[loc]@.doors[i].spec_state()),
{
    lemma_spec_door(rooms[loc]@.doors, i);
}

/// Every door of `doors` that faces `dir` is open or missing.
pub open spec fn way_clear(doors: Seq<Door>, dir: MapDir) -> bool {
    forall|j: int| 0 <= j < doors.len() && #[trigger] doors[j].spec_dir() == dir
        ==> doors[j].spec_state() == DoorStateView::Open || doors[j].spec_state() == DoorStateView::Nothing
}

proof fn lemma_way_clear(doors: Seq<Door>, dir: MapDir)
    requires
        way_clear(doors, dir),
    ensures
        spec_blocking(spec_door(doors, dir)) is None,
{
    if exists|i: int| 0 <= i < doors.len() && doors[i].spec_dir() == dir {
        let k = choose|i: int| 0 <= i < doors.len() && doors[i].spec_dir() == dir;
        assert(doors[k].spec_dir() == dir);
    }
}

/// The door on the far side counts too: where the way out of the room at
/// `loc` is clear but the next room's door facing back is neither open
/// nor missing, a move that way fails with that door's state.
pub proof fn law_far_door_blocks(rooms: Map<Coord, Room>, loc: Coord, dir: MapDir, next: Coord, i: int)
    requires
        rooms.contains_key(loc),
        way_clear(rooms[loc]@.doors, dir),
        spec_step(loc, dir) == Some(next),
        rooms.contains_key(next),
        doors_distinct(rooms[next]@.doors),
        0 <= i < rooms[next]@.doors.len(),
        rooms[next]@.doors[i].spec_dir() == dir.spec_opposite(),
        rooms[next]@.doors[i].spec_state() != DoorStateView::Open,
        rooms[next]@.doors[i].spec_state() != DoorStateView::Nothing,
    ensures
        spec_may_move(rooms, loc, dir) == Err::<(), DoorStateView>(rooms[next]@.doors[i].spec_state()),
{
    lemma_way_clear(rooms[loc]@.doors, dir);
    lemma_spec_door(rooms[next]@.doors, i);
}

/// A clear way is taken: with a room on both sides, every door on the way
/// open or missing, and no guard in the room, a move that way succeeds.
pub proof fn law_open_passage(rooms: Map<Coord, Room>, loc: Coord, dir: MapDir, next: Coord)
    requires
        rooms.contains_key(loc),
        spec_step(loc, dir) == Some(next),
        rooms.contains_key(next),
        way_clear(rooms[loc]@.doors, dir),
        way_clear(rooms[next]@.doors, dir.spec_opposite()),
        forall|k: int| 0 <= k < rooms[loc]@.items.len() ==> !(#[trigger] rooms[loc]@.items[k] is Guard),
    ensures
        spec_may_move(rooms, loc, dir) == Ok::<(), DoorStateView>(()),
{
    lemma_way_clear(rooms[loc]@.doors, dir);
    lemma_way_clear(rooms[next]@.doors, dir.spec_opposite());
    lemma_first_guard(rooms[loc]@.items);
}

/// A closed guard stops a move the way he watches: where the doors let a
/// player through but the one guard of the room watches direction `dir`
/// and is not yet appeased, the move fails, naming the guard.
pub proof fn law_guard_blocks(rooms: Map<Coord, Room>, loc: Coord, dir: MapDir, next: Coord, k: int)
    requires
        rooms.contains_key(loc),
        spec_step(loc, dir) == Some(next),
        rooms.contains_key(next),
        way_clear(rooms[loc]@.doors, dir),
        way_clear(rooms[next]@.doors, dir.spec_opposite()),
        0 <= k < rooms[loc]@.items.len(),
        forall|j: int| 0 <= j < rooms[loc]@.items.len() && j != k ==> !(#[trigger] rooms[loc]@.items[j] is Guard),
        rooms[loc]@.items[k] matches Item::Guard(d, g) && d == dir && g.state == GuardState::Closed,
    ensures
        rooms[loc]@.items[k] matches Item::Guard(_, g)
            && spec_may_move(rooms, loc, dir) == Err::<(), DoorStateView>(DoorStateView::Guarded(g.info.name@)),
{
    lemma_way_clear(rooms[loc]@.doors, dir);
    lemma_way_clear(rooms[next]@.doors, dir.spec_opposite());
    lemma_first_guard(rooms[loc]@.items);
    match first_guard(rooms[loc]@.items) {
        Some(i) => {
            if i != k {
                assert(rooms[loc]@.items[i] is Guard);
            }
        },
        None => {
            assert(rooms[loc]@.items[k] is Guard);
        },
    }
}

/// There is no way where there is no room: a move off the map, or towards
/// a place without a room, fails with `Nothing` ("alas! you cannot go that
/// way...") when the door of the room does not stop it first.
pub proof fn law_no_room_no_way(rooms: Map<Coord, Room>, loc: Coord, dir: MapDir)
    requires
        rooms.contains_key(loc),
        way_clear(rooms[loc]@.doors, dir),
        spec_step(loc, dir) is None || !rooms.contains_key(spec_step(loc, dir)->0),
    ensures
        spec_may_move(rooms, loc, dir) == Err::<(), DoorStateView>(DoorStateView::Nothing),
        spec_blocked_text(DoorStateView::Nothing) == "alas! you cannot go that way..."@,
{
    lemma_way_clear(rooms[loc]@.doors, dir);
}

/// A player who walks towards such a door stays where it is: no player
/// and no room changes, and the player is told what stopped it, "a door
/// blocks your way" for a closed or locked door.
pub proof fn law_door_blocks_player(g0: Game, g1: Game, u: u128, dir: MapDir, r: Result<GameOutput, EnnuiError>, i: int)
    requires
        g0.wf(),
        spec_dir_func_post(g0, g1, u, dir, r),
        g0.spec_players().contains_key(u),
        g0.spec_rooms().contains_key(g0.spec_players()[u]@.loc),
        0 <= i < g0.spec_rooms()[g0.spec_players()[u]@.loc]@.doors.len(),
        g0.spec_rooms()[g0.spec_players()[u]@.loc]@.doors[i].spec_dir() == dir,
        g0.spec_rooms()[g0.spec_players()[u]@.loc]@.doors[i].spec_state() != DoorStateView::Open,
        g0.spec_rooms()[g0.spec_players()[u]@.loc]@.doors[i].spec_state() != DoorStateView::Nothing,
    ensures
        g1.spec_players() == g0.spec_players(),
        g1.spec_rooms() == g0.spec_rooms(),
        g1.spec_players()[u]@.loc == g0.spec_players()[u]@.loc,
        r matches Ok(o) && output_view(o).3 == crate::text::message::spec_padded(
            spec_blocked_text(g0.spec_rooms()[g0.spec_players()[u]@.loc]@.doors[i].spec_state()),
        ),
        ({
            let st = g0.spec_rooms()[g0.spec_players()[u]@.loc]@.doors[i].spec_state();
            st == DoorStateView::Closed || st == DoorStateView::Locked
        }) ==> (r matches Ok(o) && output_view(o).3 == crate::text::message::spec_padded("a door blocks your way"@)),
{
    let loc = g0.spec_players()[u]@.loc;
    law_door_blocks(g0.spec_rooms(), loc, dir, i);
}

/// A player whose way is clear arrives: it stands in the next room, is
/// among that room's players and no longer among those of the room it
/// left, and is told "you go" and the direction.
pub proof fn law_way_clear_moves_player(g0: Game, g1: Game, u: u128, dir: MapDir, r: Result<GameOutput, EnnuiError>)
    requires
        spec_dir_func_post(g0, g1, u, dir, r),
        g0.spec_players().contains_key(u),
        spec_may_move(g0.spec_rooms(), g0.spec_players()[u]@.loc, dir) is Ok,
    ensures
        ({
            let loc = g0.spec_players()[u]@.loc;
            let next = spec_step(loc, dir)->0;
            &&& g1.spec_players()[u]@.loc == next
            &&& g1.spec_rooms()[next]@.players.contains(u)
            &&& !g1.spec_rooms()[loc]@.players.contains(u)
            &&& r matches Ok(o) && crate::text::strings::is_prefix("you go "@ + dir.spec_name(), output_view(o).3.drop_first())
        }),
{
    let loc = g0.spec_players()[u]@.loc;
    let next = spec_step(loc, dir)->0;
    let rooms1 = g1.spec_rooms();
    match r {
        Ok(o) => {
            let t = "you go "@ + dir.spec_name() + "\n\n"@ + spec_room_view(g1.spec_players(), rooms1, next, u);
            let p = "you go "@ + dir.spec_name();
            assert(output_view(o).3 == crate::text::message::spec_padded(t));
            assert(output_view(o).3.drop_first().subrange(0, p.len() as int) =~= p);
        },
        Err(_) => {},
    }
}

impl Game {
    /// Moves player `u` from the room at `loc` one step in direction
    /// `dir`, if the doors and the guard let it: it leaves the room's
    /// list, enters the list of the next room, stands there and leaves
    /// any fight. Otherwise nothing changes and the answer is what stood in
    /// the way.
    pub fn move_player(&mut self, loc: Coord, u: u128, dir: MapDir) -> (r: Result<(), DoorState>)
        requires
            old(self).wf(),
            interior(loc),
            old(self).spec_players().contains_key(u),
        ensures
            final(self).wf(),
            door_result_view(r) == spec_may_move(old(self).spec_rooms(), loc, dir),
            final(self).spec_player_ids() == old(self).spec_player_ids(),
            final(self).spec_outbox() == old(self).spec_outbox(),
            final(self).spec_fights() == old(self).spec_fights(),
            final(self).spec_fight_channel() == old(self).spec_fight_channel(),
            r is Err ==> final(self).spec_rooms() == old(self).spec_rooms() && final(self).spec_players() == old(self).spec_players()
                && final(self).spec_departures() == old(self).spec_departures(),
            r is Ok ==> final(self).spec_departures() == old(self).spec_departures() + if old(self).spec_players()[u]@.fighting {
                seq![u]
            } else {
                Seq::empty()
            },
            r is Ok ==> {
                let next = spec_step(loc, dir)->0;
                let rooms0 = old(self).spec_rooms();
                let rooms1 = final(self).spec_rooms();
                &&& rooms1.dom() == rooms0.dom()
                &&& forall|c: Coord| #[trigger] rooms0.contains_key(c) && c != loc && c != next ==> rooms1[c] == rooms0[c]
                &&& rooms1[loc]@ == (crate::map::RoomView { players: rooms0[loc]@.players.filter(not_id(u)), ..rooms0[loc]@ })
                &&& rooms1[next]@ == (crate::map::RoomView { players: with_id(rooms0[next]@.players, u), ..rooms0[next]@ })
                &&& rooms1[next]@.players.contains(u)
                &&& !rooms1[loc]@.players.contains(u)
                &&& final(self).spec_players() == old(self).spec_players().insert(u, final(self).spec_players()[u])
                &&& final(self).spec_players()[u]@ == (PlayerView { loc: next, fighting: false, ..old(self).spec_players()[u]@ })
                &&& crate::player::same_kind(old(self).spec_players()[u], final(self).spec_players()[u])
            },
    {
        let next_coord = loc.add(dir);
        match self.check_doors(loc, next_coord, dir) {
            Ok(()) => {},
            Err(s) => return Err(s),
        }
        let next = match next_coord {
            Some(n) => n,
            None => return Err(DoorState::Nothing),
        };
        match Self::check_guard(dir, self.rooms.get(loc).unwrap()) {
            Ok(()) => {},
            Err(s) => return Err(s),
        }
        proof {
            assert(loc != next);
        }
        let ghost rooms0 = self.rooms@;
        match self.rooms.get_mut(loc) {
            Some(src_room) => {
                src_room.remove_player(u);
            },
            None => {},
        }
        let ghost rooms_mid = self.rooms@;
        match self.rooms.get_mut(next) {
            Some(dst_room) => {
                dst_room.add_player(u);
            },
            None => {},
        }
        match self.players.get_mut(u) {
            Some(p) => {
                p.set_loc(next);
                if p.leave_fight() {
                    self.departures.push(u);
                }
            },
            None => {},
        }
        proof {
            let s0 = rooms0[next]@.players;
            if !s0.contains(u) {
                assert(s0.push(u)[s0.len() as int] == u);
            }
            let f = rooms0[loc]@.players.filter(not_id(u));
            if f.contains(u) {
                let k = choose|k: int| 0 <= k < f.len() && f[k] == u;
                rooms0[loc]@.players.lemma_filter_pred(not_id(u), k);
            }
            assert(self.rooms@.dom() =~= rooms0.dom());
            assert forall|k: u128| #[trigger] self.players@.contains_key(k) implies self.players@[k]@.uuid == k
                && interior(self.players@[k]@.loc) by {
                assert(old(self).players@.contains_key(k));
            }
            assert forall|c: Coord| #[trigger] self.rooms@.contains_key(c) implies interior(c) && doors_distinct(self.rooms@[c]@.doors) by {
                assert(old(self).rooms@.contains_key(c));
            }
        }
        Ok(())
    }

    /// The lines that list the players with ids `ids` under a room.
    pub fn player_lines(&self, ids: &PlayerIdList) -> (r: String)
        ensures
            r@ == spec_player_lines(self.spec_players(), ids@),
    {
        let mut s = String::new();
        let mut i: usize = 0;
        while i < ids.len()
            invariant
                i <= ids@.len(),
                s@ == spec_player_lines(self.spec_players(), ids@.subrange(0, i as int)),
            decreases ids@.len() - i,
        {
            let id = ids.id_at(i);
            proof {
                let t = ids@.subrange(0, i + 1);
                assert(t.drop_last() =~= ids@.subrange(0, i as int));
                assert(t.last() == id);
            }
            match self.players.get(id) {
                Some(p) => {
                    proof {
                        reveal_strlit("\n");
                        reveal_strlit("");
                    }
                    let line = Color::Yellow(p.display()).render();
                    let framed = line.custom_padded("\n", "");
                    s.append(framed.as_str());
                },
                None => {},
            }
            proof {
                assert(s@ =~= spec_player_lines(self.spec_players(), ids@.subrange(0, i + 1)));
            }
            i = i + 1;
        }
        assert(ids@.subrange(0, ids@.len() as int) =~= ids@);
        s
    }

    /// How the room of player `u` looks to it.
    pub fn describe_room(&self, u: u128) -> (r: Result<String, EnnuiError>)
        requires
            self.wf(),
        ensures
            match r {
                Ok(t) => self.spec_players().contains_key(u) && self.spec_rooms().contains_key(self.spec_players()[u]@.loc)
                    && t@ == spec_room_view(self.spec_players(), self.spec_rooms(), self.spec_players()[u]@.loc, u),
                Err(e) => if self.spec_players().contains_key(u) {
                    !self.spec_rooms().contains_key(self.spec_players()[u]@.loc) && e is NoneFound
                } else {
                    is_fatal(e, "PLAYER NOT FOUND"@)
                },
            },
    {
        let loc = match self.loc_of(u) {
            Ok(l) => l,
            Err(e) => return Err(e),
        };
        let r = match self.rooms.get(loc) {
            Some(r) => r,
            None => return Err(EnnuiError::NoneFound),
        };
        let others = r.players().except(u);
        let lines = self.player_lines(&others);
        let exits = self.rooms.exits(loc);
        let exit_str = Room::exit_display(exits.as_slice());
        let mut room_string = r.display();
        room_string.append(lines.as_str());
        room_string.append(exit_str.as_str());
        Ok(room_string)
    }
}

/// The ids of the players in the room at `c`; none where there is no room.
pub open spec fn room_ids(rooms: Map<Coord, Room>, c: Coord) -> Seq<u128> {
    if rooms.contains_key(c) { rooms[c]@.players } else { Seq::empty() }
}

/// The sender of an audience whose first id is `u`: none for id 0.
pub open spec fn sender_of(u: u128) -> Option<u128> {
    if u == 0 { None } else { Some(u) }
}

/// The text that answers a move that a door or a guard stopped.
fn blocked_text(s: &DoorState) -> (r: String)
    ensures
        r@ == spec_blocked_text(s@),
{
    match s {
        DoorState::Nothing => String::from_str("alas! you cannot go that way..."),
        DoorState::Closed => String::from_str("a door blocks your way"),
        DoorState::Locked => String::from_str("a door blocks your way"),
        DoorState::Open => String::from_str("it's already open"),
        DoorState::MagicallySealed => String::from_str("a door blocks your way. it's sealed with a mysterious force"),
        DoorState::PermaLocked => String::from_str("a door blocks your way. it's not going to budge, and there's no keyhole"),
        DoorState::Guarded(g) => {
            let a = crate::text::article(g.as_str());
            crate::text::strings::concat2(a.as_str(), " blocks your way. they look pretty scary")
        },
    }
}

/// What `dir_func` does and answers.
pub open spec fn spec_dir_func_post(g0: Game, g1: Game, u: u128, dir: MapDir, r: Result<GameOutput, EnnuiError>) -> bool {
    &&& (g1.wf())
    &&& (g1.spec_player_ids() == g0.spec_player_ids())
    &&& (g1.spec_fights() == g0.spec_fights())
    &&& (match r {
        Err(e) => !g0.spec_players().contains_key(u) && is_fatal(e, "PLAYER NOT FOUND"@)
            && g1.spec_players() == g0.spec_players()
            && g1.spec_rooms() == g0.spec_rooms()
            && g1.spec_outbox() == g0.spec_outbox(),
        Ok(o) => g0.spec_players().contains_key(u) && {
            let p = g0.spec_players()[u]@;
            let loc = p.loc;
            match spec_may_move(g0.spec_rooms(), loc, dir) {
                Err(s) => {
                    &&& output_view(o) == spec_message(
                        sender_of(u),
                        None,
                        room_ids(g0.spec_rooms(), loc).filter(not_id(u)),
                        spec_blocked_text(s),
                        None,
                        None,
                    )
                    &&& g1.spec_players() == g0.spec_players()
                    &&& g1.spec_rooms() == g0.spec_rooms()
                    &&& g1.spec_outbox() == g0.spec_outbox()
                    &&& g1.spec_departures() == g0.spec_departures()
                },
                Ok(()) => {
                    let next = spec_step(loc, dir)->0;
                    let rooms0 = g0.spec_rooms();
                    let rooms1 = g1.spec_rooms();
                    &&& rooms1.dom() == rooms0.dom()
                    &&& forall|c: Coord| #[trigger] rooms0.contains_key(c) && c != loc && c != next ==> rooms1[c] == rooms0[c]
                    &&& rooms1[loc]@ == (crate::map::RoomView { players: rooms0[loc]@.players.filter(not_id(u)), ..rooms0[loc]@ })
                    &&& rooms1[next]@ == (crate::map::RoomView { players: with_id(rooms0[next]@.players, u), ..rooms0[next]@ })
                    &&& g1.spec_players() == g0.spec_players().insert(u, g1.spec_players()[u])
                    &&& g1.spec_players()[u]@ == (PlayerView { loc: next, fighting: false, ..p })
                    &&& crate::player::same_kind(g0.spec_players()[u], g1.spec_players()[u])
                    &&& g1.spec_departures() == g0.spec_departures() + if p.fighting { seq![u] } else { Seq::empty() }
                    &&& g1.spec_players()[u]@.loc == next
                    &&& rooms1[next]@.players.contains(u)
                    &&& !rooms1[loc]@.players.contains(u)
                    &&& output_view(o) == spec_message(
                        sender_of(u),
                        None,
                        rooms1[loc]@.players.filter(not_id(u)),
                        "you go "@ + dir.spec_name() + "\n\n"@ + spec_room_view(g1.spec_players(), rooms1, next, u),
                        None,
                        Some(crate::text::message::spec_padded(p.info.info.name + " exits "@ + dir.spec_short_name())),
                    )
                    &&& g1.spec_outbox() == g0.spec_outbox() + super::spec_deliveries(
                        g1.spec_players(),
                        0,
                        0,
                        rooms1[next]@.players.filter(not_id(u)),
                        Seq::empty(),
                        None,
                        Some(crate::text::message::spec_padded(p.info.info.name + " enters the room"@)),
                    )
                },
            }
        },
    })
}

impl Game {
    /// Moves player `u` one step in direction `dir` and answers it: with
    /// the new room, while the onlookers it left see it go and those of
    /// the new room are told that it came in; or with what stood in the
    /// way.
    pub fn dir_func(&mut self, u: u128, dir: MapDir) -> (r: Result<GameOutput, EnnuiError>)
        requires
            old(self).wf(),
        ensures
            spec_dir_func_post(*old(self), *final(self), u, dir, r),
    {
        let loc = match self.loc_of(u) {
            Ok(l) => l,
            Err(e) => return Err(e),
        };
        let name = match self.name_of(u) {
            Ok(n) => n,
            Err(e) => return Err(e),
        };
        let mv = self.move_player(loc, u, dir);
        let moved = mv.is_ok();
        let (text, other_msg) = match mv {
            Ok(()) => {
                let d = match self.describe_room(u) {
                    Ok(d) => d,
                    Err(e) => {
                        proof {
                            assert(false);
                        }
                        return Err(e);
                    },
                };
                let mut t = crate::text::strings::concat3("you go ", dir.to_string(), "\n\n");
                t.append(d.as_str());
                let o = crate::text::strings::concat3(name.as_str(), " exits ", dir.to_string_short());
                (t, Some(o.padded()))
            },
            Err(s) => (blocked_text(&s), None),
        };
        let others = self.rooms.player_ids(loc).except(u);
        let aud = crate::text::message::Audience(u, others);
        let fm = crate::text::message::FightMessage { s: text, obj: None, oth: other_msg };
        let return_msg = match super::message(aud, fm) {
            Ok(o) => o,
            Err(e) => {
                proof {
                    assert(false);
                }
                return Err(e);
            },
        };
        if !moved {
            return Ok(return_msg);
        }
        let next = match loc.add(dir) {
            Some(n) => n,
            None => {
                proof {
                    assert(spec_may_move(old(self).spec_rooms(), loc, dir) is Ok);
                    assert(spec_step(loc, dir) is Some);
                    assert(false);
                }
                return Err(EnnuiError::NoneFound);
            },
        };
        let watchers = match self.rooms.get(next) {
            Some(room) => room.players_except(u),
            None => return Ok(return_msg),
        };
        let enter = crate::text::strings::concat2(name.as_str(), " enters the room");
        let note = crate::text::message::Msg { s: String::new(), o: Some(enter.padded()) };
        self.send(&crate::text::message::Audience(0u128, watchers), &note);
        Ok(return_msg)
    }
}

} // verus!
