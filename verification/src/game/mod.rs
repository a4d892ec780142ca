//! The game: its players, its map, and what commands do to them.
pub mod commands;
pub mod fight;
pub mod item;
pub mod movement;
pub mod session;
pub mod util;

use vstd::prelude::*;
use crate::map::list::RoomListTrait;
use crate::attribute::Attribute;
use crate::describe::Describe;
use crate::error::{is_fatal, EnnuiError};
use crate::interpreter::{spec_command_qualities, CommandKind, CommandQuality};
use crate::location::{Coord, Locate};
use crate::map::list::{interior, RoomList};
use crate::map::{initialized, Room, Space};
use crate::obstacle::door::doors_distinct;
use crate::player::list::PlayerList;
use crate::player::{PlayerStatus, PlayerType, Uuid};
use crate::text::message::{opt_view, pad, spec_padded, Broadcast, Envelope, FightMessage, Message, Messenger};
use crate::text::wrap::{spec_send_wrap, wrap_or_keep};

verus! {

/// What a command answers: who receives it and what each of them reads.
pub type GameOutput = (Envelope, FightMessage);

/// A fight that a command started, for the caller to run: the aggressor,
/// the defender and the onlookers.
pub struct FightRequest {
    pub aggressor: u128,
    pub defender: u128,
    pub audience: crate::player::list::PlayerIdList,
}

/// The game: the players by id, the rooms by coordinate, whether fights
/// can be reported, the texts waiting to be written to players, the
/// fights waiting to be run, and the onlookers who walked away from a
/// fight, for the fights to be told.
pub struct Game {
    players: PlayerList,
    rooms: RoomList,
    fight_channel: bool,
    outbox: Vec<(u128, String)>,
    fights: Vec<FightRequest>,
    departures: Vec<u128>,
}

/// The width to which messages to players are wrapped.
pub open spec fn line_width() -> int {
    90
}

/// The texts that a message sends: the sender reads its own text, the
/// player it is aimed at the text for it, and each onlooker the text for
/// onlookers; only players of the game receive anything, and each text is
/// wrapped to the line width in bytes (a text whose cuts would split a
/// character is sent as it is).
pub open spec fn spec_deliveries(
    players: Map<u128, PlayerType>,
    id: u128,
    object: u128,
    others: Seq<u128>,
    self_text: Seq<char>,
    obj_text: Option<Seq<char>>,
    oth_text: Option<Seq<char>>,
) -> Seq<(u128, Seq<char>)> {
    let first = if players.contains_key(id) {
        seq![(id, spec_send_wrap(self_text, line_width()))]
    } else {
        Seq::empty()
    };
    let second = match obj_text {
        Some(t) => if players.contains_key(object) {
            seq![(object, spec_send_wrap(t, line_width()))]
        } else {
            Seq::empty()
        },
        None => Seq::empty(),
    };
    let third = match oth_text {
        Some(t) => others.filter(|o: u128| players.contains_key(o)).map_values(
            |o: u128| (o, spec_send_wrap(t, line_width())),
        ),
        None => Seq::empty(),
    };
    first + second + third
}

/// The texts of a list of deliveries.
pub open spec fn deliveries_view(v: Seq<(u128, String)>) -> Seq<(u128, Seq<char>)> {
    v.map_values(|d: (u128, String)| (d.0, d.1@))
}

impl Game {
    /// The players, rooms and flags of a well-kept game: no player id
    /// twice, each player filed under its own id, and every player and
    /// room far enough from the edge of the map to step in any direction.
    pub closed spec fn wf(&self) -> bool {
        &&& self.players.wf()
        &&& forall|k: u128| #[trigger] self.players@.contains_key(k) ==> self.players@[k]@.uuid == k
        &&& forall|k: u128| #[trigger] self.players@.contains_key(k) ==> interior(self.players@[k]@.loc)
        &&& forall|c: Coord| #[trigger] self.rooms@.contains_key(c) ==> interior(c) && doors_distinct(self.rooms@[c]@.doors)
    }

    pub closed spec fn spec_players(&self) -> Map<u128, PlayerType> {
        self.players@
    }

    /// The ids of the players, in the order in which they joined.
    pub closed spec fn spec_player_ids(&self) -> Seq<u128> {
        self.players.spec_ids()
    }

    pub closed spec fn spec_rooms(&self) -> Map<Coord, Room> {
        self.rooms@
    }

    pub closed spec fn spec_outbox(&self) -> Seq<(u128, Seq<char>)> {
        deliveries_view(self.outbox@)
    }

    pub closed spec fn spec_fight_channel(&self) -> bool {
        self.fight_channel
    }

    /// The onlookers who walked away from a fight, in order.
    pub closed spec fn spec_departures(&self) -> Seq<u128> {
        self.departures@
    }

    /// The fights waiting to be run: aggressor, defender, onlookers.
    pub closed spec fn spec_fights(&self) -> Seq<(u128, u128, Seq<u128>)> {
        self.fights@.map_values(|f: FightRequest| (f.aggressor, f.defender, f.audience@))
    }

    /// A game on the given rooms, each filed under its own coordinate
    /// after its written items became game items; a later room with the
    /// same coordinate replaces an earlier one.
    pub fn new(rooms: Vec<Room>) -> (r: Self)
        requires
            forall|i: int| 0 <= i < rooms@.len() ==> interior(#[trigger] rooms@[i]@.loc) && doors_distinct(rooms@[i]@.doors),
        ensures
            r.wf(),
            r.spec_players() == Map::<u128, PlayerType>::empty(),
            forall|c: Coord| r.spec_rooms().contains_key(c) <==> exists|i: int| 0 <= i < rooms@.len() && #[trigger] rooms@[i]@.loc == c,
            forall|c: Coord| #[trigger] r.spec_rooms().contains_key(c) ==> exists|i: int| {
                &&& 0 <= i < rooms@.len()
                &&& rooms@[i]@.loc == c
                &&& (forall|j: int| i < j < rooms@.len() ==> #[trigger] rooms@[j]@.loc != c)
                &&& initialized(rooms@[i], r.spec_rooms()[c])
            },
            r.spec_outbox() == Seq::<(u128, Seq<char>)>::empty(),
            !r.spec_fight_channel(),
            r.spec_fights() == Seq::<(u128, u128, Seq<u128>)>::empty(),
            r.spec_departures() == Seq::<u128>::empty(),
    {
        let mut list = RoomList::new();
        let mut rooms = rooms;
        let ghost all = rooms@;
        let mut i: usize = 0;
        let n = rooms.len();
        while i < n
            invariant
                n == all.len(),
                i <= n,
                rooms@ == all.subrange(i as int, n as int),
                forall|j: int| 0 <= j < all.len() ==> interior(#[trigger] all[j]@.loc) && doors_distinct(all[j]@.doors),
                forall|c: Coord| list@.contains_key(c) <==> exists|j: int| 0 <= j < i && #[trigger] all[j]@.loc == c,
                forall|c: Coord| #[trigger] list@.contains_key(c) ==> doors_distinct(list@[c]@.doors),
                forall|c: Coord| #[trigger] list@.contains_key(c) ==> exists|k: int| {
                    &&& 0 <= k < i
                    &&& all[k]@.loc == c
                    &&& (forall|j: int| k < j < i ==> #[trigger] all[j]@.loc != c)
                    &&& initialized(all[k], list@[c])
                },
            decreases n - i,
        {
            let mut r = rooms.remove(0);
            proof {
                assert(r == all[i as int]);
            }
            let ghost r0 = r;
            r.init();
            let loc = r.loc();
            let ghost list0 = list@;
            list.insert(loc, r);
            proof {
                assert forall|c: Coord| #[trigger] list@.contains_key(c) implies exists|k: int| {
                    &&& 0 <= k < i + 1
                    &&& all[k]@.loc == c
                    &&& (forall|j: int| k < j < i + 1 ==> #[trigger] all[j]@.loc != c)
                    &&& initialized(all[k], list@[c])
                } by {
                    if c == loc {
                        assert(all[i as int]@.loc == c);
                        assert(initialized(all[i as int], list@[c]));
                    } else {
                        assert(list0.contains_key(c));
                        let k = choose|k: int| {
                            &&& 0 <= k < i
                            &&& all[k]@.loc == c
                            &&& (forall|j: int| k < j < i ==> #[trigger] all[j]@.loc != c)
                            &&& initialized(all[k], list0[c])
                        };
                        assert(list@[c] == list0[c]);
                        assert forall|j: int| k < j < i + 1 implies #[trigger] all[j]@.loc != c by {
                            if j == i {
                                assert(all[i as int]@.loc == loc);
                            }
                        }
                    }
                }
                assert forall|c: Coord| list@.contains_key(c) <==> exists|j: int| 0 <= j < i + 1 && #[trigger] all[j]@.loc == c by {
                    if c == loc {
                        assert(all[i as int]@.loc == c);
                    }
                }
                assert(rooms@ =~= all.subrange(i + 1, n as int));
            }
            i = i + 1;
        }
        let g = Game { players: PlayerList::new(), rooms: list, fight_channel: false, outbox: Vec::new(), fights: Vec::new(), departures: Vec::new() };
        proof {
            assert forall|c: Coord| #[trigger] g.rooms@.contains_key(c) implies interior(c) && doors_distinct(g.rooms@[c]@.doors) by {
                let j = choose|j: int| 0 <= j < all.len() && #[trigger] all[j]@.loc == c;
            }
            assert(g.fights@.map_values(|f: FightRequest| (f.aggressor, f.defender, f.audience@)) =~= Seq::<(u128, u128, Seq<u128>)>::empty());
            assert(deliveries_view(g.outbox@) =~= Seq::<(u128, Seq<char>)>::empty());
        }
        g
    }

    /// Fights can be reported from now on.
    pub fn set_fight_sender(&mut self)
        ensures
            final(self).spec_fight_channel(),
            final(self).spec_players() == old(self).spec_players(),
            final(self).spec_rooms() == old(self).spec_rooms(),
            final(self).spec_player_ids() == old(self).spec_player_ids(),
            final(self).spec_outbox() == old(self).spec_outbox(),
            final(self).spec_fights() == old(self).spec_fights(),
            old(self).wf() ==> final(self).wf(),
    {
        self.fight_channel = true;
    }

    /// Takes out the texts waiting to be written.
    pub fn take_outbox(&mut self) -> (r: Vec<(u128, String)>)
        ensures
            deliveries_view(r@) == old(self).spec_outbox(),
            final(self).spec_outbox() == Seq::<(u128, Seq<char>)>::empty(),
            final(self).spec_players() == old(self).spec_players(),
            final(self).spec_rooms() == old(self).spec_rooms(),
            final(self).spec_player_ids() == old(self).spec_player_ids(),
            final(self).spec_fights() == old(self).spec_fights(),
            final(self).spec_fight_channel() == old(self).spec_fight_channel(),
            final(self).spec_departures() == old(self).spec_departures(),
            old(self).wf() ==> final(self).wf(),
    {
        let mut out = Vec::new();
        std::mem::swap(&mut out, &mut self.outbox);
        assert(deliveries_view(self.outbox@) =~= Seq::<(u128, Seq<char>)>::empty());
        out
    }

    /// Takes out the onlookers who walked away from a fight.
    pub fn take_departures(&mut self) -> (r: Vec<u128>)
        ensures
            r@ == old(self).spec_departures(),
            final(self).spec_departures() == Seq::<u128>::empty(),
            final(self).spec_players() == old(self).spec_players(),
            final(self).spec_rooms() == old(self).spec_rooms(),
            final(self).spec_player_ids() == old(self).spec_player_ids(),
            final(self).spec_outbox() == old(self).spec_outbox(),
            final(self).spec_fights() == old(self).spec_fights(),
            final(self).spec_fight_channel() == old(self).spec_fight_channel(),
            old(self).wf() ==> final(self).wf(),
    {
        let mut out = Vec::new();
        std::mem::swap(&mut out, &mut self.departures);
        out
    }

    /// Takes out the fights waiting to be run.
    pub fn take_fights(&mut self) -> (r: Vec<FightRequest>)
        ensures
            r@.map_values(|f: FightRequest| (f.aggressor, f.defender, f.audience@)) == old(self).spec_fights(),
            final(self).spec_fights() == Seq::<(u128, u128, Seq<u128>)>::empty(),
            final(self).spec_players() == old(self).spec_players(),
            final(self).spec_rooms() == old(self).spec_rooms(),
            final(self).spec_player_ids() == old(self).spec_player_ids(),
            final(self).spec_outbox() == old(self).spec_outbox(),
            final(self).spec_fight_channel() == old(self).spec_fight_channel(),
            final(self).spec_departures() == old(self).spec_departures(),
            old(self).wf() ==> final(self).wf(),
    {
        let mut out = Vec::new();
        std::mem::swap(&mut out, &mut self.fights);
        assert(self.fights@.map_values(|f: FightRequest| (f.aggressor, f.defender, f.audience@)) =~= Seq::<(u128, u128, Seq<u128>)>::empty());
        out
    }
}

impl Broadcast for Game {
    open spec fn queued(&self) -> Seq<(u128, Seq<char>)> {
        self.spec_outbox()
    }

    open spec fn deliveries_for(
        &self,
        id: u128,
        object: u128,
        others: Seq<u128>,
        self_text: Seq<char>,
        obj_text: Option<Seq<char>>,
        oth_text: Option<Seq<char>>,
    ) -> Seq<(u128, Seq<char>)> {
        spec_deliveries(self.spec_players(), id, object, others, self_text, obj_text, oth_text)
    }

    fn send<A: Messenger, M: Message>(&mut self, audience: &A, message: &M)
        ensures
            final(self).spec_outbox() == old(self).spec_outbox() + spec_deliveries(
                old(self).spec_players(),
                match audience.id_view() { Some(i) => i, None => 0 },
                match audience.object_id_view() { Some(i) => i, None => 0 },
                audience.others_view(),
                message.self_view(),
                message.object_view(),
                message.others_view(),
            ),
            final(self).spec_players() == old(self).spec_players(),
            final(self).spec_rooms() == old(self).spec_rooms(),
            final(self).spec_player_ids() == old(self).spec_player_ids(),
            final(self).spec_fights() == old(self).spec_fights(),
            final(self).spec_fight_channel() == old(self).spec_fight_channel(),
            final(self).spec_departures() == old(self).spec_departures(),
            old(self).wf() ==> final(self).wf(),
    {
        let self_id = match audience.id() {
            Some(i) => i,
            None => 0,
        };
        let object_id = match audience.object() {
            Some(i) => i,
            None => 0,
        };
        let other_ids = audience.others();
        let self_msg = message.to_self();
        let obj_msg = message.to_object();
        let other_msg = message.to_others();
        let ghost start = self.outbox@;
        let ghost first = deliveries_view(self.outbox@);
        if self.players.contains_key(self_id) {
            let w = wrap_or_keep(self_msg.as_str(), 90);
            self.outbox.push((self_id, w));
        }
        proof {
            assert(deliveries_view(self.outbox@) =~= first + if self.players@.contains_key(self_id) {
                seq![(self_id, spec_send_wrap(self_msg@, line_width()))]
            } else {
                Seq::empty()
            });
        }
        let ghost second = deliveries_view(self.outbox@);
        match &obj_msg {
            Some(m) => {
                if self.players.contains_key(object_id) {
                    let w = wrap_or_keep(m.as_str(), 90);
                    self.outbox.push((object_id, w));
                }
            },
            None => {},
        }
        proof {
            assert(deliveries_view(self.outbox@) =~= second + match opt_view(obj_msg) {
                Some(t) => if self.players@.contains_key(object_id) {
                    seq![(object_id, spec_send_wrap(t, line_width()))]
                } else {
                    Seq::empty()
                },
                None => Seq::empty(),
            });
        }
        let ghost third = deliveries_view(self.outbox@);
        match &other_msg {
            Some(m) => {
                let w = wrap_or_keep(m.as_str(), 90);
                let ghost pm = self.players@;
                let ghost f = |o: u128| pm.contains_key(o);
                let ghost g = |o: u128| (o, w@);
                let mut i: usize = 0;
                while i < other_ids.len()
                    invariant
                        i <= other_ids@.len(),
                        pm == self.players@,
                        self.players == old(self).players,
                        self.rooms == old(self).rooms,
                        self.fights == old(self).fights,
                        self.fight_channel == old(self).fight_channel,
                        self.departures == old(self).departures,
                        f == (|o: u128| pm.contains_key(o)),
                        g == (|o: u128| (o, w@)),
                        w@ == spec_send_wrap(m@, line_width()),
                        deliveries_view(self.outbox@) == third + other_ids@.subrange(0, i as int).filter(f).map_values(g),
                    decreases other_ids@.len() - i,
                {
                    let id = other_ids[i];
                    proof {
                        let s = other_ids@.subrange(0, i + 1);
                        assert(s.drop_last() =~= other_ids@.subrange(0, i as int));
                        assert(s.last() == id);
                        reveal(Seq::filter);
                    }
                    if self.players.contains_key(id) {
                        let ghost before = self.outbox@;
                        self.outbox.push((id, w.clone()));
                        proof {
                            assert(deliveries_view(self.outbox@) =~= deliveries_view(before).push((id, w@)));
                        }
                    }
                    proof {
                        let s = other_ids@.subrange(0, i + 1);
                        assert(s.filter(f).map_values(g) =~= other_ids@.subrange(0, i as int).filter(f).map_values(g) + if f(id) { seq![g(id)] } else { Seq::empty() });
                    }
                    i = i + 1;
                }
                assert(other_ids@.subrange(0, other_ids@.len() as int) =~= other_ids@);
            },
            None => {},
        }
        proof {
            assert(deliveries_view(self.outbox@) =~= old(self).spec_outbox() + spec_deliveries(
                old(self).spec_players(),
                self_id,
                object_id,
                audience.others_view(),
                message.self_view(),
                message.object_view(),
                message.others_view(),
            ));
        }
    }
}

/// The receivers and texts of an answer, as plain values: sender,
/// aimed-at player, onlookers, and the texts for each.
pub open spec fn output_view(o: GameOutput) -> (Option<u128>, Option<u128>, Seq<u128>, Seq<char>, Option<Seq<char>>, Option<Seq<char>>) {
    (o.0.id, o.0.object, o.0.others@, o.1.s@, opt_view(o.1.obj), opt_view(o.1.oth))
}

/// An optional text on a line of its own, followed by the prompt.
pub open spec fn opt_padded(t: Option<Seq<char>>) -> Option<Seq<char>> {
    match t {
        Some(x) => Some(spec_padded(x)),
        None => None,
    }
}

/// The answer that `message` builds: the receivers as the audience names
/// them, each text framed by `padded`; the aimed-at player reads its text
/// (empty if there is none) only where the audience names one.
pub open spec fn spec_message(
    id: Option<u128>,
    object: Option<u128>,
    others: Seq<u128>,
    self_text: Seq<char>,
    obj_text: Option<Seq<char>>,
    oth_text: Option<Seq<char>>,
) -> (Option<u128>, Option<u128>, Seq<u128>, Seq<char>, Option<Seq<char>>, Option<Seq<char>>) {
    (
        id,
        object,
        others,
        spec_padded(self_text),
        if object is Some {
            Some(spec_padded(match obj_text { Some(t) => t, None => Seq::empty() }))
        } else {
            None
        },
        opt_padded(oth_text),
    )
}

/// Frames a message for its audience.
pub fn message<A: Messenger, M: Message>(aud: A, msg: M) -> (r: Result<GameOutput, EnnuiError>)
    ensures
        r matches Ok(o) && output_view(o) == spec_message(
            aud.id_view(),
            aud.object_id_view(),
            aud.others_view(),
            msg.self_view(),
            msg.object_view(),
            msg.others_view(),
        ),
{
    let obj = match aud.object() {
        Some(_) => {
            let t = match msg.to_object() {
                Some(t) => t,
                None => String::new(),
            };
            Some(pad(t.as_str()))
        },
        None => None,
    };
    let oth = match msg.to_others() {
        Some(m) => Some(pad(m.as_str())),
        None => None,
    };
    let s = msg.to_self();
    let fm = FightMessage { s: pad(s.as_str()), obj, oth };
    let env = Envelope { id: aud.id(), object: aud.object(), others: aud.others() };
    proof {
        reveal_strlit("");
    }
    Ok((env, fm))
}

/// The answer to a player alone.
pub open spec fn spec_reply(u: u128, text: Seq<char>) -> (Option<u128>, Option<u128>, Seq<u128>, Seq<char>, Option<Seq<char>>, Option<Seq<char>>) {
    spec_message(Some(u), None, Seq::empty(), text, None, Some(text))
}

/// Answers a player alone with `text`.
pub fn reply(u: u128, text: String) -> (r: GameOutput)
    ensures
        output_view(r) == spec_reply(u, text@),
{
    let s = pad(text.as_str());
    let oth = Some(pad(text.as_str()));
    let env = Envelope { id: Some(u), object: None, others: Vec::new() };
    assert(env.others@ =~= Seq::<u128>::empty());
    (env, FightMessage { s, obj: None, oth })
}

impl Game {
    /// The player with id `p`.
    pub fn get_player(&self, p: u128) -> (r: Result<&PlayerType, EnnuiError>)
        ensures
            match r {
                Ok(pl) => self.spec_players().contains_key(p) && *pl == self.spec_players()[p],
                Err(e) => !self.spec_players().contains_key(p) && is_fatal(e, "PLAYER NOT FOUND"@),
            },
    {
        match self.players.get(p) {
            Some(pl) => Ok(pl),
            None => Err(EnnuiError::Fatal(String::from_str("PLAYER NOT FOUND"))),
        }
    }

    /// Where the player with id `p` stands.
    pub fn loc_of(&self, p: u128) -> (r: Result<Coord, EnnuiError>)
        ensures
            match r {
                Ok(c) => self.spec_players().contains_key(p) && c == self.spec_players()[p]@.loc,
                Err(e) => !self.spec_players().contains_key(p) && is_fatal(e, "PLAYER NOT FOUND"@),
            },
    {
        match self.get_player(p) {
            Ok(pl) => Ok(pl.loc()),
            Err(e) => Err(e),
        }
    }

    /// The name of the player with id `p`.
    pub fn name_of(&self, p: u128) -> (r: Result<String, EnnuiError>)
        ensures
            match r {
                Ok(n) => self.spec_players().contains_key(p) && n@ == self.spec_players()[p]@.info.info.name,
                Err(e) => !self.spec_players().contains_key(p) && is_fatal(e, "PLAYER NOT FOUND"@),
            },
    {
        match self.get_player(p) {
            Ok(pl) => Ok(pl.name()),
            Err(e) => Err(e),
        }
    }

    /// The room at `loc`.
    pub fn get_room(&self, loc: Coord) -> (r: Result<&Room, EnnuiError>)
        ensures
            match r {
                Ok(room) => self.spec_rooms().contains_key(loc) && *room == self.spec_rooms()[loc],
                Err(e) => !self.spec_rooms().contains_key(loc) && is_fatal(e, "UNABLE TO FIND ROOM"@),
            },
    {
        match self.rooms.get(loc) {
            Some(r) => Ok(r),
            None => Err(EnnuiError::Fatal(String::from_str("UNABLE TO FIND ROOM"))),
        }
    }

    /// The ids of the players in the room at `loc`.
    pub fn players_in(&self, loc: Coord) -> (r: crate::player::list::PlayerIdList)
        ensures
            r@ == if self.spec_rooms().contains_key(loc) {
                self.spec_rooms()[loc]@.players
            } else {
                Seq::<u128>::empty()
            },
    {
        self.rooms.player_ids(loc)
    }

    /// Adds a player to the game, and to the room where it stands; a room
    /// that is not there yet is made, empty.
    pub fn add_player(&mut self, p: PlayerType)
        requires
            old(self).wf(),
            interior(p@.loc),
        ensures
            final(self).wf(),
            final(self).spec_players() == old(self).spec_players().insert(p@.uuid, p),
            final(self).spec_rooms().contains_key(p@.loc),
            final(self).spec_rooms()[p@.loc]@.players == if old(self).spec_rooms().contains_key(p@.loc) {
                let ps = old(self).spec_rooms()[p@.loc]@.players;
                if ps.contains(p@.uuid) { ps } else { ps.push(p@.uuid) }
            } else {
                seq![p@.uuid]
            },
            forall|c: Coord| c != p@.loc ==> #[trigger] final(self).spec_rooms().contains_key(c) == old(self).spec_rooms().contains_key(c)
                && (old(self).spec_rooms().contains_key(c) ==> final(self).spec_rooms()[c] == old(self).spec_rooms()[c]),
            final(self).spec_outbox() == old(self).spec_outbox(),
            final(self).spec_fights() == old(self).spec_fights(),
            final(self).spec_fight_channel() == old(self).spec_fight_channel(),
            final(self).spec_departures() == old(self).spec_departures(),
    {
        let loc = p.loc();
        let id = p.uuid();
        if !self.rooms.contains_key(loc) {
            proof {
                reveal_strlit("");
            }
            self.rooms.insert(loc, Room::new("", None));
        }
        match self.rooms.get_mut(loc) {
            Some(room) => {
                room.add_player(id);
            },
            None => {},
        }
        self.players.insert(id, p);
        proof {
            assert forall|k: u128| #[trigger] self.players@.contains_key(k) implies self.players@[k]@.uuid == k by {
                if k != id {
                    assert(old(self).players@.contains_key(k));
                }
            }
            assert forall|k: u128| #[trigger] self.players@.contains_key(k) implies interior(self.players@[k]@.loc) by {
                if k != id {
                    assert(old(self).players@.contains_key(k));
                }
            }
            assert forall|c: Coord| #[trigger] self.rooms@.contains_key(c) implies interior(c) && doors_distinct(self.rooms@[c]@.doors) by {
                if c != loc {
                    assert(old(self).rooms@.contains_key(c));
                } else {
                    assert(doors_distinct(self.rooms@[c]@.doors));
                }
            }
        }
    }

    /// Renames the player with id `u`.
    pub fn set_player_name(&mut self, u: u128, name: &str) -> (r: Result<(), EnnuiError>)
        requires
            old(self).wf(),
        ensures
            final(self).wf(),
            r is Ok == old(self).spec_players().contains_key(u),
            r is Ok ==> final(self).spec_players().contains_key(u)
                && final(self).spec_players()[u]@ == crate::player::spec_renamed(old(self).spec_players()[u]@, name@)
                && crate::player::same_kind(old(self).spec_players()[u], final(self).spec_players()[u]),
            r is Err ==> final(self).spec_players() == old(self).spec_players()
                && (r matches Err(e) && is_fatal(e, "PLAYER NOT FOUND"@)),
            forall|k: u128| k != u ==> #[trigger] final(self).spec_players().contains_key(k) == old(self).spec_players().contains_key(k)
                && (old(self).spec_players().contains_key(k) ==> final(self).spec_players()[k] == old(self).spec_players()[k]),
            final(self).spec_players().dom() == old(self).spec_players().dom(),
            final(self).spec_rooms() == old(self).spec_rooms(),
            final(self).spec_outbox() == old(self).spec_outbox(),
            final(self).spec_fights() == old(self).spec_fights(),
    {
        match self.players.get_mut(u) {
            Some(p) => {
                p.set_name(name);
                proof {
                    assert(self.players@.dom() =~= old(self).players@.dom());
                    assert forall|k: u128| #[trigger] self.players@.contains_key(k) implies self.players@[k]@.uuid == k
                        && interior(self.players@[k]@.loc) by {
                        assert(old(self).players@.contains_key(k));
                    }
                    assert(self.players.wf());
                    assert forall|c: Coord| #[trigger] self.rooms@.contains_key(c) implies interior(c) && doors_distinct(self.rooms@[c]@.doors) by {
                        assert(old(self).rooms@.contains_key(c));
                    }
                }
                Ok(())
            },
            None => Err(EnnuiError::Fatal(String::from_str("PLAYER NOT FOUND"))),
        }
    }

    /// The answer that stands in for a command the player's state forbids:
    /// the dead can do nothing but quit, the sleeping nothing that needs
    /// them awake, the sitting nothing that needs them standing.
    pub fn verify_status(&self, cmd: CommandKind, u: u128) -> (r: Result<Option<GameOutput>, EnnuiError>)
        ensures
            match r {
                Err(e) => !self.spec_players().contains_key(u) && is_fatal(e, "PLAYER NOT FOUND"@),
                Ok(o) => self.spec_players().contains_key(u) && match spec_status_text(self.spec_players()[u]@.status, cmd) {
                    Some(t) => o matches Some(x) && output_view(x) == spec_reply(u, t),
                    None => o is None,
                },
            },
    {
        let p = match self.get_player(u) {
            Ok(p) => p,
            Err(e) => return Err(e),
        };
        if p.is(PlayerStatus::Dead) && cmd != CommandKind::Quit {
            return Ok(Some(reply(u, String::from_str("oh boy. you can't move. you're dead."))));
        }
        if p.is(PlayerStatus::Asleep) && cmd.is(CommandQuality::Awake) {
            return Ok(Some(reply(u, String::from_str("you're asleep. why not just sleep?"))));
        }
        if p.is(PlayerStatus::Sitting) && cmd.is(CommandQuality::Motion) {
            return Ok(Some(reply(u, String::from_str("why don't you try standing up first?"))));
        }
        Ok(None)
    }
}

/// What the state of a player forbids of a command, if anything.
pub open spec fn spec_status_text(st: Seq<PlayerStatus>, cmd: CommandKind) -> Option<Seq<char>> {
    let q = spec_command_qualities(cmd);
    if st.contains(PlayerStatus::Dead) && cmd != CommandKind::Quit {
        Some("oh boy. you can't move. you're dead."@)
    } else if st.contains(PlayerStatus::Asleep) && q.contains(CommandQuality::Awake) {
        Some("you're asleep. why not just sleep?"@)
    } else if st.contains(PlayerStatus::Sitting) && q.contains(CommandQuality::Motion) {
        Some("why don't you try standing up first?"@)
    } else {
        None
    }
}

} // verus!
