//! Items changing hands: taken, dropped, given, worn and taken off.
use vstd::prelude::*;
use crate::attribute::{Attribute, Quality};
use crate::describe::Describe;
use crate::error::{is_fatal, is_msg, EnnuiError, Simple};
use crate::hook::{is_all_form, spec_grab, Grabber};
use crate::item::{item_has, lemma_item_has, Item};
use crate::item::list::{is_fitting_key, RenaissanceGuard};
use crate::list::{nth_answering, transfer, ListTrait};
use crate::location::{Coord, Locate};
use crate::map::{Room, RoomView};
use crate::obstacle::door::{doors_distinct, GuardState};
use crate::map::list::interior;
use crate::player::{same_kind, PlayerType, PlayerView, Uuid};
use crate::text::parse::{format_i64, format_u128, spec_decimal, spec_nat_digits};
use crate::text::strings::{concat2, concat3};
use crate::text::{article, spec_article};
use super::Game;

verus! {

/// Which way an item goes.
#[derive(Clone, Copy, Debug, PartialEq, Eq, Structural)]
pub enum Direction {
    Take,
    Give,
    Drop,
    Wear,
    Remove,
}

/// How a coordinate is written in error messages: `Coord(x, y)`.
pub open spec fn spec_coord_text(c: Coord) -> Seq<char> {
    "Coord("@ + spec_decimal(c.0 as int) + ", "@ + spec_decimal(c.1 as int) + ")"@
}

fn coord_text(c: Coord) -> (r: String)
    ensures
        r@ == spec_coord_text(c),
{
    let a = format_i64(c.0);
    let b = format_i64(c.1);
    let mut r = concat3("Coord(", a.as_str(), ", ");
    r.append(b.as_str());
    r.append(")");
    r
}

/// The first player whose handles hold `name`, in the order of `ids`.
pub open spec fn first_named(players: Map<u128, PlayerType>, ids: Seq<u128>, name: Seq<char>) -> Option<u128>
    decreases ids.len(),
{
    if ids.len() == 0 {
        None
    } else if players.contains_key(ids[0]) && players[ids[0]]@.info.info.handle.contains(name) {
        Some(ids[0])
    } else {
        first_named(players, ids.drop_first(), name)
    }
}

/// Moving the `i`-th item of a room into a player's hands.
pub open spec fn spec_room_to_player(
    rooms0: Map<Coord, Room>,
    rooms1: Map<Coord, Room>,
    players0: Map<u128, PlayerType>,
    players1: Map<u128, PlayerType>,
    loc: Coord,
    u: u128,
    i: int,
) -> bool {
    let item = rooms0[loc]@.items[i];
    &&& rooms1 == rooms0.insert(loc, rooms1[loc])
    &&& rooms1[loc]@ == (RoomView { items: rooms0[loc]@.items.remove(i), ..rooms0[loc]@ })
    &&& players1 == players0.insert(u, players1[u])
    &&& players1[u]@ == (PlayerView { items: players0[u]@.items.push(item), ..players0[u]@ })
    &&& same_kind(players0[u], players1[u])
}

/// Moving the `i`-th item in a player's hands into a room.
pub open spec fn spec_player_to_room(
    rooms0: Map<Coord, Room>,
    rooms1: Map<Coord, Room>,
    players0: Map<u128, PlayerType>,
    players1: Map<u128, PlayerType>,
    loc: Coord,
    u: u128,
    i: int,
) -> bool {
    let item = players0[u]@.items[i];
    &&& rooms1 == rooms0.insert(loc, rooms1[loc])
    &&& rooms1[loc]@ == (RoomView { items: rooms0[loc]@.items.push(item), ..rooms0[loc]@ })
    &&& players1 == players0.insert(u, players1[u])
    &&& players1[u]@ == (PlayerView { items: players0[u]@.items.remove(i), ..players0[u]@ })
    &&& same_kind(players0[u], players1[u])
}

/// Taking an item from a room moves it from the room to the player: the
/// items of the room and of the player together stay the same.
pub proof fn law_take_keeps_items(
    rooms0: Map<Coord, Room>,
    rooms1: Map<Coord, Room>,
    players0: Map<u128, PlayerType>,
    players1: Map<u128, PlayerType>,
    loc: Coord,
    u: u128,
    i: int,
)
    requires
        0 <= i < rooms0[loc]@.items.len(),
        spec_room_to_player(rooms0, rooms1, players0, players1, loc, u, i),
    ensures
        rooms1[loc]@.items.to_multiset().add(players1[u]@.items.to_multiset())
            == rooms0[loc]@.items.to_multiset().add(players0[u]@.items.to_multiset()),
{
    crate::list::law_transfer_keeps_items(rooms0[loc]@.items, players0[u]@.items, i);
}

/// Dropping an item moves it from the player to the room: the items of the
/// room and of the player together stay the same.
pub proof fn law_drop_keeps_items(
    rooms0: Map<Coord, Room>,
    rooms1: Map<Coord, Room>,
    players0: Map<u128, PlayerType>,
    players1: Map<u128, PlayerType>,
    loc: Coord,
    u: u128,
    i: int,
)
    requires
        0 <= i < players0[u]@.items.len(),
        spec_player_to_room(rooms0, rooms1, players0, players1, loc, u, i),
    ensures
        rooms1[loc]@.items.to_multiset().add(players1[u]@.items.to_multiset())
            == rooms0[loc]@.items.to_multiset().add(players0[u]@.items.to_multiset()),
{
    crate::list::law_transfer_keeps_items(players0[u]@.items, rooms0[loc]@.items, i);
    assert(rooms1[loc]@.items.to_multiset().add(players1[u]@.items.to_multiset())
        =~= players1[u]@.items.to_multiset().add(rooms1[loc]@.items.to_multiset()));
    assert(rooms0[loc]@.items.to_multiset().add(players0[u]@.items.to_multiset())
        =~= players0[u]@.items.to_multiset().add(rooms0[loc]@.items.to_multiset()));
}

/// Giving an item to another player moves it from one to the other: the
/// items of the two players together stay the same.
pub proof fn law_give_keeps_items(
    players0: Map<u128, PlayerType>,
    players1: Map<u128, PlayerType>,
    giver: u128,
    taker: u128,
    i: int,
)
    requires
        giver != taker,
        0 <= i < players0[giver]@.items.len(),
        players1[giver]@ == (PlayerView { items: players0[giver]@.items.remove(i), ..players0[giver]@ }),
        players1[taker]@ == (PlayerView { items: players0[taker]@.items.push(players0[giver]@.items[i]), ..players0[taker]@ }),
    ensures
        players1[giver]@.items.to_multiset().add(players1[taker]@.items.to_multiset())
            == players0[giver]@.items.to_multiset().add(players0[taker]@.items.to_multiset()),
{
    crate::list::law_transfer_keeps_items(players0[giver]@.items, players0[taker]@.items, i);
}

/// What `take` does and answers.
pub open spec fn spec_take_post(
    rooms0: Map<Coord, Room>,
    players0: Map<u128, PlayerType>,
    rooms1: Map<Coord, Room>,
    players1: Map<u128, PlayerType>,
    uuid: u128,
    loc: Coord,
    handle: Seq<char>,
    r: Result<String, EnnuiError>,
) -> bool {
    let g = spec_grab(handle);
    let unchanged = rooms1 == rooms0 && players1 == players0;
    if !rooms0.contains_key(loc) {
        r matches Err(EnnuiError::Simple(Simple::ItemNotFound)) && unchanged
    } else {
        match nth_answering(rooms0[loc]@.items, g.0, g.1) {
            Some(i) => if item_has(rooms0[loc]@.items[i], Quality::Scenery) {
                r matches Err(EnnuiError::Simple(Simple::TooHeavy)) && unchanged
            } else if !players0.contains_key(uuid) {
                (r matches Err(e) && is_fatal(e, "Could not find primary player with uuid: "@ + spec_nat_digits(uuid as nat))) && unchanged
            } else {
                &&& r matches Ok(n) && n@ == rooms0[loc]@.items[i].spec_name()
                &&& spec_room_to_player(rooms0, rooms1, players0, players1, loc, uuid, i)
            },
            None => if !players0.contains_key(uuid) {
                (r matches Err(e) && is_fatal(e, "Could not find primary player with uuid: "@ + spec_nat_digits(uuid as nat))) && unchanged
            } else {
                r matches Err(EnnuiError::Simple(Simple::ItemNotFound)) && unchanged
            },
        }
    }
}

/// What `drop` does and answers.
pub open spec fn spec_drop_post(
    rooms0: Map<Coord, Room>,
    players0: Map<u128, PlayerType>,
    rooms1: Map<Coord, Room>,
    players1: Map<u128, PlayerType>,
    uuid: u128,
    loc: Coord,
    handle: Seq<char>,
    r: Result<String, EnnuiError>,
) -> bool {
    let g = spec_grab(handle);
    let unchanged = rooms1 == rooms0 && players1 == players0;
    if !rooms0.contains_key(loc) {
        (r matches Err(e) && is_fatal(e, "unable to find room for player "@ + spec_nat_digits(uuid as nat) + " at "@ + spec_coord_text(loc))) && unchanged
    } else if !players0.contains_key(uuid) {
        (r matches Err(e) && is_fatal(e, "unable to find player "@ + spec_nat_digits(uuid as nat))) && unchanged
    } else {
        match nth_answering(players0[uuid]@.items, g.0, g.1) {
            Some(i) => {
                &&& r matches Ok(n) && n@ == players0[uuid]@.items[i].spec_name()
                &&& spec_player_to_room(rooms0, rooms1, players0, players1, loc, uuid, i)
            },
            None => r matches Err(EnnuiError::Simple(Simple::ItemNotFound)) && unchanged,
        }
    }
}

/// What wearing and taking off do to the player and answer: the player
/// changes as `wear` (or `take_off`) says, nothing else does.
pub open spec fn spec_clothes_post(
    players0: Map<u128, PlayerType>,
    players1: Map<u128, PlayerType>,
    uuid: u128,
    r: Result<String, EnnuiError>,
) -> bool {
    if !players0.contains_key(uuid) {
        (r matches Err(e) && is_fatal(e, "UNABLE TO FIND PLAYER "@ + spec_nat_digits(uuid as nat))) && players1 == players0
    } else {
        players1 == players0.insert(uuid, players1[uuid]) && same_kind(players0[uuid], players1[uuid])
    }
}

/// What `wear` does to the player in the game.
pub open spec fn spec_wear_post(
    players0: Map<u128, PlayerType>,
    players1: Map<u128, PlayerType>,
    uuid: u128,
    handle: Seq<char>,
    r: Result<String, EnnuiError>,
) -> bool {
    &&& spec_clothes_post(players0, players1, uuid, r)
    &&& players0.contains_key(uuid) ==> {
        let g = spec_grab(handle);
        let p0 = players0[uuid]@;
        match nth_answering(p0.items, g.0, g.1) {
            None => r matches Err(EnnuiError::Simple(Simple::ItemNotFound)) && players1[uuid]@ == p0,
            Some(i) => if item_has(p0.items[i], Quality::Clothing) {
                &&& r matches Ok(n) && n@ == p0.items[i].spec_name()
                &&& players1[uuid]@ == (PlayerView { items: p0.items.remove(i), clothing: p0.clothing.push(p0.items[i]), ..p0 })
            } else {
                r matches Err(EnnuiError::Simple(Simple::NotClothing)) && players1[uuid]@ == p0
            },
        }
    }
}

/// What `remove` does to the player in the game.
pub open spec fn spec_remove_post(
    players0: Map<u128, PlayerType>,
    players1: Map<u128, PlayerType>,
    uuid: u128,
    handle: Seq<char>,
    r: Result<String, EnnuiError>,
) -> bool {
    &&& spec_clothes_post(players0, players1, uuid, r)
    &&& players0.contains_key(uuid) ==> {
        let g = spec_grab(handle);
        let p0 = players0[uuid]@;
        match nth_answering(p0.clothing, g.0, g.1) {
            None => r matches Err(EnnuiError::Simple(Simple::ItemNotFound)) && players1[uuid]@ == p0,
            Some(i) => {
                &&& r matches Ok(n) && n@ == p0.clothing[i].spec_name()
                &&& players1[uuid]@ == (PlayerView { clothing: p0.clothing.remove(i), items: p0.items.push(p0.clothing[i]), ..p0 })
            },
        }
    }
}

/// The rooms hold the same, as far as their views show.
pub open spec fn same_rooms(rooms0: Map<Coord, Room>, rooms1: Map<Coord, Room>) -> bool {
    rooms1.dom() == rooms0.dom() && forall|c: Coord| #[trigger] rooms0.contains_key(c) ==> rooms1[c]@ == rooms0[c]@
}

/// What `give` does and answers: the item goes to the other player; where
/// there is none, to a guard of that name in the room, who takes only the
/// key of his lock and hands anything else back; an item that finds no
/// taker is lost.
pub open spec fn spec_give_post(
    rooms0: Map<Coord, Room>,
    players0: Map<u128, PlayerType>,
    rooms1: Map<Coord, Room>,
    players1: Map<u128, PlayerType>,
    uuid: u128,
    other_id: u128,
    other_name: Seq<char>,
    loc: Coord,
    handle: Seq<char>,
    r: Result<String, EnnuiError>,
) -> bool {
    let g = spec_grab(handle);
    let unchanged = rooms1 == rooms0 && players1 == players0;
    if !players0.contains_key(uuid) {
        (r matches Err(e) && is_fatal(e, "unable to find player "@ + spec_nat_digits(uuid as nat))) && unchanged
    } else {
        match nth_answering(players0[uuid]@.items, g.0, g.1) {
            None => r matches Err(EnnuiError::Simple(Simple::ItemNotFound)) && unchanged,
            Some(i) => {
                let p0 = players0[uuid]@;
                let item = p0.items[i];
                let name = item.spec_name();
                let lost = players1 == players0.insert(uuid, players1[uuid])
                    && players1[uuid]@ == (PlayerView { items: p0.items.remove(i), ..p0 })
                    && same_kind(players0[uuid], players1[uuid]);
                let back = players1 == players0.insert(uuid, players1[uuid])
                    && players1[uuid]@ == (PlayerView { items: p0.items.remove(i).push(item), ..p0 })
                    && same_kind(players0[uuid], players1[uuid]);
                let not_here = r matches Err(e) && is_msg(e, "you don't see "@ + other_name + " here!"@);
                if players0.contains_key(other_id) {
                    &&& r matches Ok(n) && n@ == name
                    &&& rooms1 == rooms0
                    &&& if other_id == uuid {
                        back
                    } else {
                        &&& players1.dom() == players0.dom()
                        &&& players1[uuid]@ == (PlayerView { items: p0.items.remove(i), ..p0 })
                        &&& players1[other_id]@ == (PlayerView { items: players0[other_id]@.items.push(item), ..players0[other_id]@ })
                        &&& same_kind(players0[uuid], players1[uuid])
                        &&& same_kind(players0[other_id], players1[other_id])
                        &&& forall|k: u128| #[trigger] players0.contains_key(k) && k != uuid && k != other_id ==> players1[k] == players0[k]
                    }
                } else if !rooms0.contains_key(loc) {
                    &&& r matches Err(e) && is_fatal(e, "unable to find other player "@ + spec_nat_digits(other_id as nat) + " in room at "@ + spec_coord_text(loc))
                    &&& lost
                    &&& rooms1 == rooms0
                } else {
                    let og = spec_grab(other_name);
                    match nth_answering(rooms0[loc]@.items, og.0, og.1) {
                        Some(j) => match rooms0[loc]@.items[j] {
                            Item::Guard(d, gd) => if is_fitting_key(item, gd.lock) {
                                &&& r matches Err(e) && is_msg(e, "you see "@ + spec_article(gd.info.name@) + " relax a little bit. maybe now they'll let you through"@)
                                &&& lost
                                &&& rooms1 == rooms0.insert(loc, rooms1[loc])
                                &&& rooms1[loc]@ == (RoomView { items: rooms0[loc]@.items.update(j, rooms1[loc]@.items[j]), ..rooms0[loc]@ })
                                &&& rooms1[loc]@.items[j] matches Item::Guard(d2, g2)
                                    && d2 == d && g2.state == GuardState::Open && g2.lock == gd.lock && g2.info == gd.info
                            } else {
                                &&& r matches Err(e) && is_msg(e, "I don't think "@ + spec_article(gd.info.name@) + " can accept "@ + spec_article(name))
                                &&& back
                                &&& same_rooms(rooms0, rooms1)
                            },
                            _ => not_here && lost && same_rooms(rooms0, rooms1),
                        },
                        None => not_here && lost && same_rooms(rooms0, rooms1),
                    }
                }
            },
        }
    }
}

/// The name that an optional name stands for: the empty name where there
/// is none.
pub open spec fn name_or_empty(other: Option<Seq<char>>) -> Seq<char> {
    match other {
        Some(o) => o,
        None => Seq::empty(),
    }
}

/// Whether a transfer may go on: only a gift is checked; the name of the
/// receiver, if no player answers to it, must be something in the room
/// (else: no player found, `Err(None)`), and a player who answers to it
/// must stand in the same room (else: the message in `Err(Some(..))`).
pub open spec fn spec_validate_other(
    rooms: Map<Coord, Room>,
    players: Map<u128, PlayerType>,
    ids: Seq<u128>,
    other: Option<Seq<char>>,
    loc: Coord,
    dir: Direction,
) -> Result<(), Option<Seq<char>>> {
    let name = name_or_empty(other);
    let oid = first_named(players, ids, name);
    let other_id = match oid { Some(i) => i, None => 0 };
    if dir != Direction::Give {
        Ok(())
    } else if other is Some && oid is None {
        let g = spec_grab(name);
        if rooms.contains_key(loc) && nth_answering(rooms[loc]@.items, g.0, g.1) is Some {
            Ok(())
        } else {
            Err(None)
        }
    } else if players.contains_key(other_id) && players[other_id]@.loc != loc {
        Err(Some("you don't see "@ + name + " here !"@))
    } else {
        Ok(())
    }
}

/// The view of an optional name.
pub open spec fn opt_str_view(o: Option<&str>) -> Option<Seq<char>> {
    match o {
        Some(s) => Some(s@),
        None => None,
    }
}

/// What `transfer` does and answers.
pub open spec fn spec_transfer_post(
    rooms0: Map<Coord, Room>,
    players0: Map<u128, PlayerType>,
    ids0: Seq<u128>,
    rooms1: Map<Coord, Room>,
    players1: Map<u128, PlayerType>,
    u: u128,
    other: Option<Seq<char>>,
    dir: Direction,
    handle: Seq<char>,
    r: Result<String, EnnuiError>,
) -> bool {
    let loc = if players0.contains_key(u) { players0[u]@.loc } else { Coord(0, 0) };
    let name = name_or_empty(other);
    let other_id = match first_named(players0, ids0, name) { Some(i) => i, None => 0 };
    if spec_validate_other(rooms0, players0, ids0, other, loc, dir) is Err {
        &&& r matches Err(e) && is_msg(e, "You don't see "@ + name + " in here. I'm beginning to question your sanity"@)
        &&& rooms1 == rooms0
        &&& players1 == players0
    } else {
        match dir {
            Direction::Take => spec_take_post(rooms0, players0, rooms1, players1, u, loc, handle, r),
            Direction::Drop => spec_drop_post(rooms0, players0, rooms1, players1, u, loc, handle, r),
            Direction::Give => spec_give_post(rooms0, players0, rooms1, players1, u, other_id, name, loc, handle, r),
            Direction::Wear => rooms1 == rooms0 && spec_wear_post(players0, players1, u, handle, r),
            Direction::Remove => rooms1 == rooms0 && spec_remove_post(players0, players1, u, handle, r),
        }
    }
}

impl Game {
    /// The first player, in the order in which players joined, that
    /// answers to `name`.
    pub fn id_of(&self, name: &str) -> (r: Option<u128>)
        requires
            self.wf(),
        ensures
            r == first_named(self.spec_players(), self.spec_player_ids(), name@),
    {
        proof {
            self.players.lemma_ids();
        }
        let mut i: usize = 0;
        let n = self.players.len();
        assert(self.spec_player_ids().subrange(0, n as int) =~= self.spec_player_ids());
        while i < n
            invariant
                n == self.spec_player_ids().len(),
                i <= n,
                self.wf(),
                first_named(self.spec_players(), self.spec_player_ids(), name@)
                    == first_named(self.spec_players(), self.spec_player_ids().subrange(i as int, n as int), name@),
            decreases n - i,
        {
            let id = self.players.id_at(i);
            let p = self.players.player_at(i);
            let ghost rest = self.spec_player_ids().subrange(i as int, n as int);
            proof {
                assert(rest[0] == id);
                assert(rest.drop_first() =~= self.spec_player_ids().subrange(i + 1, n as int));
            }
            if p.handle().answers_to(name) {
                return Some(id);
            }
            i = i + 1;
        }
        None
    }

    /// Takes the item that `handle` picks from the room at `loc` into the
    /// hands of player `uuid`; scenery is too heavy.
    pub fn take(&mut self, uuid: u128, loc: Coord, handle: &str) -> (r: Result<String, EnnuiError>)
        requires
            old(self).wf(),
            !is_all_form(handle@),
        ensures
            final(self).wf(),
            final(self).spec_player_ids() == old(self).spec_player_ids(),
            final(self).spec_outbox() == old(self).spec_outbox(),
            final(self).spec_fights() == old(self).spec_fights(),
            spec_take_post(old(self).spec_rooms(), old(self).spec_players(), final(self).spec_rooms(), final(self).spec_players(), uuid, loc, handle@, r),
    {
        if !self.rooms.contains_key(loc) {
            return Err(EnnuiError::Simple(Simple::ItemNotFound));
        }
        let found = match self.rooms.get(loc).unwrap().get_item_by(handle) {
            Some(s) => {
                proof {
                    lemma_item_has(*s, Quality::Scenery);
                }
                if s.is(Quality::Scenery) {
                    return Err(EnnuiError::Simple(Simple::TooHeavy));
                }
                true
            },
            None => false,
        };
        if !self.players.contains_key(uuid) {
            let n = format_u128(uuid);
            return Err(EnnuiError::Fatal(concat2("Could not find primary player with uuid: ", n.as_str())));
        }
        if !found {
            return Err(EnnuiError::Simple(Simple::ItemNotFound));
        }
        let ghost rooms0 = self.rooms@;
        let ghost players0 = self.players@;
        let room = self.rooms.get_mut(loc).unwrap();
        let item = match room.get_item_owned(Grabber::from_str(handle)) {
            Ok(i) => i,
            Err(e) => return Err(e),
        };
        let name = item.name();
        let player = self.players.get_mut(uuid).unwrap();
        let _ = player.insert_item(item);
        proof {
            assert forall|k: u128| #[trigger] self.players@.contains_key(k) implies self.players@[k]@.uuid == k
                && interior(self.players@[k]@.loc) by {
                assert(players0.contains_key(k));
            }
            assert forall|c: Coord| #[trigger] self.rooms@.contains_key(c) implies interior(c) && doors_distinct(self.rooms@[c]@.doors) by {
                assert(rooms0.contains_key(c));
            }
        }
        Ok(name)
    }

    /// Puts the item that `handle` picks from the hands of player `uuid`
    /// down in the room at `loc`.
    pub fn drop(&mut self, uuid: u128, loc: Coord, handle: &str) -> (r: Result<String, EnnuiError>)
        requires
            old(self).wf(),
            !is_all_form(handle@),
        ensures
            final(self).wf(),
            final(self).spec_player_ids() == old(self).spec_player_ids(),
            final(self).spec_outbox() == old(self).spec_outbox(),
            final(self).spec_fights() == old(self).spec_fights(),
            spec_drop_post(old(self).spec_rooms(), old(self).spec_players(), final(self).spec_rooms(), final(self).spec_players(), uuid, loc, handle@, r),
    {
        if !self.rooms.contains_key(loc) {
            let n = format_u128(uuid);
            let c = coord_text(loc);
            let mut m = concat3("unable to find room for player ", n.as_str(), " at ");
            m.append(c.as_str());
            return Err(EnnuiError::Fatal(m));
        }
        if !self.players.contains_key(uuid) {
            let n = format_u128(uuid);
            return Err(EnnuiError::Fatal(concat2("unable to find player ", n.as_str())));
        }
        if self.players.get(uuid).unwrap().get_item(Grabber::from_str(handle)).is_none() {
            return Err(EnnuiError::Simple(Simple::ItemNotFound));
        }
        let ghost rooms0 = self.rooms@;
        let ghost players0 = self.players@;
        let player = self.players.get_mut(uuid).unwrap();
        let item = match player.get_item_owned(Grabber::from_str(handle)) {
            Ok(i) => i,
            Err(e) => return Err(e),
        };
        let name = item.name();
        let room = self.rooms.get_mut(loc).unwrap();
        let _ = room.insert_item(item);
        proof {
            assert forall|k: u128| #[trigger] self.players@.contains_key(k) implies self.players@[k]@.uuid == k
                && interior(self.players@[k]@.loc) by {
                assert(players0.contains_key(k));
            }
            assert forall|c: Coord| #[trigger] self.rooms@.contains_key(c) implies interior(c) && doors_distinct(self.rooms@[c]@.doors) by {
                assert(rooms0.contains_key(c));
            }
        }
        Ok(name)
    }

    /// Puts on the piece of clothing that `handle` picks from the hands of
    /// player `uuid`.
    pub fn wear(&mut self, uuid: u128, handle: &str) -> (r: Result<String, EnnuiError>)
        requires
            old(self).wf(),
            !is_all_form(handle@),
        ensures
            final(self).wf(),
            final(self).spec_player_ids() == old(self).spec_player_ids(),
            final(self).spec_rooms() == old(self).spec_rooms(),
            final(self).spec_outbox() == old(self).spec_outbox(),
            final(self).spec_fights() == old(self).spec_fights(),
            spec_wear_post(old(self).spec_players(), final(self).spec_players(), uuid, handle@, r),
    {
        let ghost players0 = self.players@;
        match self.players.get_mut(uuid) {
            Some(p) => {
                let r = p.player_mut().wear(handle);
                proof {
                    assert forall|k: u128| #[trigger] self.players@.contains_key(k) implies self.players@[k]@.uuid == k
                        && interior(self.players@[k]@.loc) by {
                        assert(players0.contains_key(k));
                    }
                }
                r
            },
            None => {
                let n = format_u128(uuid);
                Err(EnnuiError::Fatal(concat2("UNABLE TO FIND PLAYER ", n.as_str())))
            },
        }
    }

    /// Takes off the piece of clothing that `handle` picks from player
    /// `uuid`.
    pub fn remove(&mut self, uuid: u128, handle: &str) -> (r: Result<String, EnnuiError>)
        requires
            old(self).wf(),
            !is_all_form(handle@),
        ensures
            final(self).wf(),
            final(self).spec_player_ids() == old(self).spec_player_ids(),
            final(self).spec_rooms() == old(self).spec_rooms(),
            final(self).spec_outbox() == old(self).spec_outbox(),
            final(self).spec_fights() == old(self).spec_fights(),
            spec_remove_post(old(self).spec_players(), final(self).spec_players(), uuid, handle@, r),
    {
        let ghost players0 = self.players@;
        match self.players.get_mut(uuid) {
            Some(p) => {
                let r = p.player_mut().take_off(handle);
                proof {
                    assert forall|k: u128| #[trigger] self.players@.contains_key(k) implies self.players@[k]@.uuid == k
                        && interior(self.players@[k]@.loc) by {
                        assert(players0.contains_key(k));
                    }
                }
                r
            },
            None => {
                let n = format_u128(uuid);
                Err(EnnuiError::Fatal(concat2("UNABLE TO FIND PLAYER ", n.as_str())))
            },
        }
    }

    /// Gives the item that `handle` picks from the hands of player `uuid`
    /// to player `other_id`, or else to the guard called `other_name` in
    /// the room at `loc`.
    pub fn give(&mut self, uuid: u128, other_id: u128, other_name: &str, loc: Coord, handle: &str) -> (r: Result<String, EnnuiError>)
        requires
            old(self).wf(),
            !is_all_form(handle@),
            !is_all_form(other_name@),
        ensures
            final(self).wf(),
            final(self).spec_player_ids() == old(self).spec_player_ids(),
            final(self).spec_outbox() == old(self).spec_outbox(),
            final(self).spec_fights() == old(self).spec_fights(),
            spec_give_post(old(self).spec_rooms(), old(self).spec_players(), final(self).spec_rooms(), final(self).spec_players(),
                uuid, other_id, other_name@, loc, handle@, r),
    {
        if !self.players.contains_key(uuid) {
            let n = format_u128(uuid);
            return Err(EnnuiError::Fatal(concat2("unable to find player ", n.as_str())));
        }
        if self.players.get(uuid).unwrap().get_item(Grabber::from_str(handle)).is_none() {
            return Err(EnnuiError::Simple(Simple::ItemNotFound));
        }
        let ghost rooms0 = self.rooms@;
        let ghost players0 = self.players@;
        let item = match self.players.get_mut(uuid).unwrap().get_item_owned(Grabber::from_str(handle)) {
            Ok(i) => i,
            Err(e) => return Err(e),
        };
        let item_name = item.name();
        let ghost players_mid = self.players@;
        proof {
            assert forall|k: u128| #[trigger] self.players@.contains_key(k) implies self.players@[k]@.uuid == k
                && interior(self.players@[k]@.loc) by {
                assert(players0.contains_key(k));
            }
        }
        if self.players.contains_key(other_id) {
            let _ = self.players.get_mut(other_id).unwrap().insert_item(item);
            proof {
                assert forall|k: u128| #[trigger] self.players@.contains_key(k) implies self.players@[k]@.uuid == k
                    && interior(self.players@[k]@.loc) by {
                    assert(players_mid.contains_key(k));
                }
                assert(self.players@.dom() =~= players0.dom());
                if other_id == uuid {
                    assert(self.players@ =~= players0.insert(uuid, self.players@[uuid]));
                } else {
                    assert forall|k: u128| #[trigger] players0.contains_key(k) && k != uuid && k != other_id implies self.players@[k] == players0[k] by {
                        assert(players_mid[k] == players0[k]);
                    }
                }
            }
            return Ok(item_name);
        }
        if !self.rooms.contains_key(loc) {
            let n = format_u128(other_id);
            let c = coord_text(loc);
            let mut m = concat3("unable to find other player ", n.as_str(), " in room at ");
            m.append(c.as_str());
            return Err(EnnuiError::Fatal(m));
        }
        let is_guard = match self.rooms.get(loc).unwrap().get_item_by(other_name) {
            Some(Item::Guard(_, _)) => true,
            _ => false,
        };
        if !is_guard {
            return Err(EnnuiError::Msg(concat3("you don't see ", other_name, " here!")));
        }
        let ghost mut rejected = false;
        let room = self.rooms.get_mut(loc).unwrap();
        let r = match room.get_item_mut(other_name) {
            Some(Item::Guard(_, guard)) => {
                let ghost g0 = **guard;
                match guard.insert_item(item) {
                    Ok(()) => {
                        let a = article(guard.name().as_str());
                        Err(EnnuiError::Msg(concat3("you see ", a.as_str(), " relax a little bit. maybe now they'll let you through")))
                    },
                    Err(given_back) => {
                        let a = article(guard.name().as_str());
                        let b = article(item_name.as_str());
                        let mut m = concat3("I don't think ", a.as_str(), " can accept ");
                        m.append(b.as_str());
                        proof {
                            assert(**guard == g0);
                            rejected = true;
                        }
                        let _ = self.players.get_mut(uuid).unwrap().insert_item(given_back);
                        Err(EnnuiError::Msg(m))
                    },
                }
            },
            _ => {
                proof {
                    assert(false);
                }
                Err(EnnuiError::Msg(concat3("you don't see ", other_name, " here!")))
            },
        };
        proof {
            assert forall|k: u128| #[trigger] self.players@.contains_key(k) implies self.players@[k]@.uuid == k
                && interior(self.players@[k]@.loc) by {
                assert(players_mid.contains_key(k));
            }
            assert forall|c: Coord| #[trigger] self.rooms@.contains_key(c) implies interior(c) && doors_distinct(self.rooms@[c]@.doors) by {
                assert(rooms0.contains_key(c));
            }
            if self.players@ != players_mid {
                assert(self.players@ =~= players0.insert(uuid, self.players@[uuid]));
            }
            assert(self.rooms@.dom() =~= rooms0.dom());
            if rejected {
                assert(self.rooms@[loc]@.items =~= rooms0[loc]@.items);
            }
        }
        r
    }

    /// Whether a transfer in direction `dir` to the player or thing named
    /// `other` may go on, for a player standing at `loc`.
    pub fn validate_other_player(&self, other: Option<&str>, loc: Coord, dir: Direction) -> (r: Result<(), EnnuiError>)
        requires
            self.wf(),
            !is_all_form(name_or_empty(opt_str_view(other))),
        ensures
            match spec_validate_other(self.spec_rooms(), self.spec_players(), self.spec_player_ids(), opt_str_view(other), loc, dir) {
                Ok(()) => r is Ok,
                Err(None) => r matches Err(EnnuiError::Simple(Simple::PlayerNotFound)),
                Err(Some(m)) => r matches Err(e) && is_msg(e, m),
            },
    {
        let name = match other {
            Some(o) => o,
            None => "",
        };
        proof {
            reveal_strlit("");
            assert(""@ =~= Seq::<char>::empty());
            assert(name@ == name_or_empty(opt_str_view(other)));
        }
        let oid = self.id_of(name);
        let other_id = match oid {
            Some(i) => i,
            None => 0,
        };
        if dir == Direction::Give {
            if other.is_some() && oid.is_none() {
                match self.rooms.get(loc) {
                    Some(room) => {
                        if room.get_item_by(name).is_some() {
                            return Ok(());
                        }
                    },
                    None => {},
                }
                return Err(EnnuiError::Simple(Simple::PlayerNotFound));
            }
            match self.players.get(other_id) {
                Some(p) => {
                    if p.loc() != loc {
                        return Err(EnnuiError::Msg(concat3("you don't see ", name, " here !")));
                    }
                },
                None => return Ok(()),
            }
        }
        Ok(())
    }

    /// Moves an item for player `u` in direction `dir`: takes it from the
    /// room, drops it there, gives it to `other`, wears it or takes it off.
    pub fn transfer(&mut self, u: u128, other: Option<&str>, dir: Direction, handle: &str) -> (r: Result<String, EnnuiError>)
        requires
            old(self).wf(),
            !is_all_form(handle@),
            !is_all_form(name_or_empty(opt_str_view(other))),
        ensures
            final(self).wf(),
            final(self).spec_player_ids() == old(self).spec_player_ids(),
            final(self).spec_outbox() == old(self).spec_outbox(),
            final(self).spec_fights() == old(self).spec_fights(),
            spec_transfer_post(old(self).spec_rooms(), old(self).spec_players(), old(self).spec_player_ids(), final(self).spec_rooms(), final(self).spec_players(), u, opt_str_view(other), dir, handle@, r),
    {
        let loc = match self.loc_of(u) {
            Ok(l) => l,
            Err(_) => Coord(0, 0),
        };
        let name = match other {
            Some(o) => o,
            None => "",
        };
        proof {
            reveal_strlit("");
            assert(""@ =~= Seq::<char>::empty());
            assert(name@ == name_or_empty(opt_str_view(other)));
        }
        let oid = self.id_of(name);
        let other_id = match oid {
            Some(i) => i,
            None => 0,
        };
        if self.validate_other_player(other, loc, dir).is_err() {
            let mut m = concat3("You don't see ", name, " in here. I'm beginning to question your sanity");
            return Err(EnnuiError::Msg(m));
        }
        match dir {
            Direction::Take => self.take(u, loc, handle),
            Direction::Drop => self.drop(u, loc, handle),
            Direction::Give => self.give(u, other_id, name, loc, handle),
            Direction::Wear => self.wear(u, handle),
            Direction::Remove => self.remove(u, handle),
        }
    }
}

} // verus!
