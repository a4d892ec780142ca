//! Players joining and leaving the game.
use vstd::prelude::*;
use crate::map::list::RoomListTrait;
use crate::text::message::Broadcast;
use crate::describe::Describe;
use crate::error::{is_fatal, EnnuiError};
use crate::item::Item;
use crate::list::{List, ListTrait};
use crate::location::{Coord, Locate};
use crate::map::list::interior;
use crate::map::RoomView;
use crate::obstacle::door::doors_distinct;
use crate::player::list::{not_id, PlayerIdList};
use crate::player::npc::{draw_npc_line, spec_draw_count, spec_npc_line, AI};
use crate::player::{spec_inner_player, spec_with_player, PlayerType, PlayerView};
use crate::text::message::{opt_view, spec_padded, MessageFormat};
use crate::text::strings::{concat2, concat3};
use crate::text::{article, spec_article};
use super::commands::{command_ok, spec_interpret_post};
use super::{output_view, spec_deliveries, Game, GameOutput};

verus! {

/// What the other players read when a player joins.
pub open spec fn spec_joined_text(name: Seq<char>) -> Seq<char> {
    "\n\n"@ + name + " has joined the game."@ + "\n\n > "@
}

/// What the remaining players read when a player leaves.
pub open spec fn spec_left_text(name: Seq<char>) -> Seq<char> {
    spec_padded(name + " has left the game"@)
}

/// What the others in the room read of each item that a leaving player
/// drops.
pub open spec fn spec_drop_lines(name: Seq<char>, items: Seq<Item>) -> Seq<Seq<char>> {
    items.map_values(|i: Item| "\n"@ + name + " drops "@ + spec_article(i.spec_name()))
}

/// The texts queued when each of `lines` is sent, in turn, to the
/// onlookers `aud`.
pub open spec fn spec_line_deliveries(players: Map<u128, PlayerType>, aud: Seq<u128>, lines: Seq<Seq<char>>) -> Seq<(u128, Seq<char>)>
    decreases lines.len(),
{
    if lines.len() == 0 {
        Seq::empty()
    } else {
        spec_line_deliveries(players, aud, lines.drop_last()) + spec_deliveries(
            players,
            0,
            0,
            aud,
            lines.last(),
            None,
            Some(lines.last()),
        )
    }
}

/// The texts queued when an answer is sent to its receivers.
pub open spec fn output_deliveries(players: Map<u128, PlayerType>, o: GameOutput) -> Seq<(u128, Seq<char>)> {
    let v = output_view(o);
    spec_deliveries(
        players,
        match v.0 { Some(i) => i, None => 0 },
        match v.1 { Some(i) => i, None => 0 },
        v.2,
        v.3,
        v.4,
        v.5,
    )
}

/// What `act_for` does: the line is run as `interpret` runs it, and an
/// answer is queued for its receivers; an error is handed back.
pub open spec fn spec_act_post(g0: Game, g1: Game, p: u128, s: Seq<char>, r: Result<(), EnnuiError>) -> bool {
    exists|g: Game, o: Result<GameOutput, EnnuiError>| {
        &&& #[trigger] spec_interpret_post(g0, g, p, s, o)
        &&& match o {
            Ok(out) => {
                &&& r is Ok
                &&& g1.spec_outbox() == g.spec_outbox() + output_deliveries(g.spec_players(), out)
                &&& g1.spec_players() == g.spec_players()
                &&& g1.spec_player_ids() == g.spec_player_ids()
                &&& g1.spec_rooms() == g.spec_rooms()
                &&& g1.spec_fights() == g.spec_fights()
                &&& g1.spec_fight_channel() == g.spec_fight_channel()
                &&& g1.spec_departures() == g.spec_departures()
            },
            Err(e) => r == Err::<(), EnnuiError>(e) && g1 == g,
        }
    }
}

/// A line that a character of this behaviour may type: the line its
/// behaviour gives for one of its draws.
pub open spec fn allowed_line(ai: AI, line: Seq<char>) -> bool {
    exists|n: int| 0 <= n < spec_draw_count(ai) && spec_npc_line(ai, n) == Some(line)
}

/// What one turn of a character does. Where the character is in the game
/// and its behaviour gives a line, that line is one the behaviour allows
/// and is run for the character as `act_for` runs it (`Some`). Otherwise
/// (it stands still, it is gone, or the line is of the `all.name` form)
/// nothing changes (`None`).
pub open spec fn spec_npc_turn_post(g0: Game, g1: Game, id: u128, ai: AI, r: Option<Result<(), EnnuiError>>) -> bool {
    match r {
        None => g1 == g0 && (ai is Static || !g0.spec_players().contains_key(id)
            || exists|line: Seq<char>| #[trigger] allowed_line(ai, line) && !command_ok(line)),
        Some(res) => g0.spec_players().contains_key(id) && !(ai is Static)
            && exists|line: Seq<char>| #[trigger] allowed_line(ai, line) && command_ok(line) && spec_act_post(g0, g1, id, line, res),
    }
}

/// Step `i` of a character's run of turns.
pub open spec fn npc_step(gs: Seq<Game>, id: u128, ai: AI, rs: Seq<Option<Result<(), EnnuiError>>>, i: int) -> bool {
    spec_npc_turn_post(gs[i], gs[i + 1], id, ai, rs[i])
}

/// A run of turns of the character `id`: one more game than turns, each
/// following from the one before by the turn's outcome.
pub open spec fn is_npc_run(gs: Seq<Game>, id: u128, ai: AI, rs: Seq<Option<Result<(), EnnuiError>>>) -> bool {
    &&& gs.len() == rs.len() + 1
    &&& forall|i: int| 0 <= i < rs.len() ==> #[trigger] npc_step(gs, id, ai, rs, i)
}

/// Over a run of turns of a character: every line it types is run for
/// that character, and is one of `n`, `s`, `e`, `w` for a walker, and
/// `say` with one of its phrases for a talker; a character that stands
/// still never types anything and leaves the game as it is; a turn that
/// types nothing (the character stands still or is gone) changes nothing.
pub proof fn law_npc_run(gs: Seq<Game>, id: u128, ai: AI, rs: Seq<Option<Result<(), EnnuiError>>>, i: int)
    requires
        is_npc_run(gs, id, ai, rs),
        0 <= i < rs.len(),
    ensures
        rs[i] is None ==> gs[i + 1] == gs[i],
        ai is Static ==> rs[i] is None && gs[i + 1] == gs[0],
        rs[i] is Some ==> gs[i].spec_players().contains_key(id),
        rs[i] is Some && ai is Walker ==> exists|line: Seq<char>|
            (line == "n"@ || line == "s"@ || line == "e"@ || line == "w"@) && #[trigger] spec_act_post(gs[i], gs[i + 1], id, line, rs[i]->0),
        rs[i] is Some ==> forall|v: Vec<String>| ai == AI::Talker(v) ==> exists|line: Seq<char>|
            (exists|k: int| 0 <= k < v@.len() && line == "say "@ + #[trigger] v@[k]@) && #[trigger] spec_act_post(gs[i], gs[i + 1], id, line, rs[i]->0),
    decreases i,
{
    assert(npc_step(gs, id, ai, rs, i));
    if ai is Static && i > 0 {
        law_npc_run(gs, id, ai, rs, i - 1);
    }
    if rs[i] is Some {
        let line = choose|line: Seq<char>| #[trigger] allowed_line(ai, line) && command_ok(line)
            && spec_act_post(gs[i], gs[i + 1], id, line, rs[i]->0);
        let n = choose|n: int| 0 <= n < spec_draw_count(ai) && spec_npc_line(ai, n) == Some(line);
        assert(spec_act_post(gs[i], gs[i + 1], id, line, rs[i]->0));
        match ai {
            AI::Talker(v) => {
                assert(line == "say "@ + v@[n]@);
            },
            _ => {},
        }
    }
}

impl Game {
    /// Player `p`, moved by the game, types `line`: the line is run and its
    /// answer queued for its receivers. A line with a word of the
    /// `all.name` form is left alone.
    pub fn act_for(&mut self, p: u128, line: &str) -> (r: Option<Result<(), EnnuiError>>)
        requires
            old(self).wf(),
        ensures
            final(self).wf(),
            match r {
                None => !command_ok(line@) && *final(self) == *old(self),
                Some(res) => command_ok(line@) && spec_act_post(*old(self), *final(self), p, line@, res),
            },
    {
        let out = match self.run_line(p, line) {
            None => return None,
            Some(o) => o,
        };
        let ghost g = *self;
        let ghost o = out;
        match out {
            Ok((env, msg)) => {
                self.send(&env, &msg);
                proof {
                    assert(spec_interpret_post(*old(self), g, p, line@, o));
                }
                Some(Ok(()))
            },
            Err(e) => {
                proof {
                    assert(spec_interpret_post(*old(self), g, p, line@, o));
                }
                Some(Err(e))
            },
        }
    }

    /// One turn of the character `id`, which behaves as `ai`: it types the
    /// line its behaviour draws, run for it as `act_for` runs it. Nothing
    /// happens to a character that stands still or is no longer in the
    /// game (`None`: its turns are over).
    pub fn npc_turn(&mut self, id: u128, ai: &AI) -> (r: Option<Result<(), EnnuiError>>)
        requires
            old(self).wf(),
            *ai is Talker ==> spec_draw_count(*ai) > 0,
        ensures
            final(self).wf(),
            spec_npc_turn_post(*old(self), *final(self), id, *ai, r),
    {
        if !self.players.contains_key(id) {
            return None;
        }
        let line = match draw_npc_line(ai) {
            Some(l) => l,
            None => return None,
        };
        proof {
            let n = choose|n: int| 0 <= n < spec_draw_count(*ai) && opt_view(Some(line)) == spec_npc_line(*ai, n);
            assert(spec_npc_line(*ai, n) == Some(line@));
            assert(allowed_line(*ai, line@));
        }
        self.act_for(id, line.as_str())
    }

    /// Tells the other players that player `u` joined.
    pub fn announce_player(&mut self, u: u128) -> (r: Result<(), EnnuiError>)
        requires
            old(self).wf(),
        ensures
            final(self).wf(),
            match r {
                Ok(()) => {
                    let text = spec_joined_text(old(self).spec_players()[u]@.info.info.name);
                    &&& old(self).spec_players().contains_key(u)
                    &&& final(self).spec_outbox() == old(self).spec_outbox() + spec_deliveries(
                        old(self).spec_players(),
                        0,
                        0,
                        old(self).spec_player_ids().filter(not_id(u)),
                        text,
                        None,
                        Some(text),
                    )
                    &&& final(self).spec_players() == old(self).spec_players()
                    &&& final(self).spec_player_ids() == old(self).spec_player_ids()
                    &&& final(self).spec_rooms() == old(self).spec_rooms()
                    &&& final(self).spec_fights() == old(self).spec_fights()
                    &&& final(self).spec_fight_channel() == old(self).spec_fight_channel()
                    &&& final(self).spec_departures() == old(self).spec_departures()
                },
                Err(e) => !old(self).spec_players().contains_key(u) && is_fatal(e, "PLAYER NOT FOUND"@)
                    && *final(self) == *old(self),
            },
    {
        let name = match self.get_player(u) {
            Ok(p) => p.name(),
            Err(e) => return Err(e),
        };
        let others = self.players.to_id_list().except(u);
        let text = name.custom_padded("\n\n", " has joined the game.\n\n > ");
        proof {
            reveal_strlit("\n\n");
            reveal_strlit(" has joined the game.\n\n > ");
            reveal_strlit(" has joined the game.");
            reveal_strlit("\n\n > ");
            assert(text@ =~= spec_joined_text(name@));
        }
        self.send(&others, &text);
        Ok(())
    }

    /// Takes player `u` out of the game. The items it holds are dropped in
    /// the room where it stands, each told to the others there; the
    /// remaining players are told that it left. The player comes back with
    /// empty hands and no connection. Nothing changes when the player or
    /// its room is not there.
    pub fn remove_player(&mut self, u: u128) -> (r: Option<PlayerType>)
        requires
            old(self).wf(),
        ensures
            final(self).wf(),
            match r {
                None => (!old(self).spec_players().contains_key(u)
                    || !old(self).spec_rooms().contains_key(old(self).spec_players()[u]@.loc))
                    && *final(self) == *old(self),
                Some(p) => {
                    let p0 = old(self).spec_players()[u];
                    let loc = p0@.loc;
                    let room0 = old(self).spec_rooms()[loc];
                    let remaining = old(self).spec_players().remove(u);
                    &&& old(self).spec_players().contains_key(u)
                    &&& old(self).spec_rooms().contains_key(loc)
                    &&& p@ == (PlayerView { items: Seq::empty(), connected: false, ..p0@ })
                    &&& p == spec_with_player(p0, spec_inner_player(p))
                    &&& final(self).spec_players() == remaining
                    &&& final(self).spec_player_ids() == old(self).spec_player_ids().remove(
                        old(self).spec_player_ids().index_of(u),
                    )
                    &&& final(self).spec_rooms().dom() == old(self).spec_rooms().dom()
                    &&& final(self).spec_rooms()[loc]@ == (RoomView { items: room0@.items + p0@.items, ..room0@ })
                    &&& forall|c: Coord| c != loc && #[trigger] old(self).spec_rooms().contains_key(c)
                        ==> final(self).spec_rooms()[c] == old(self).spec_rooms()[c]
                    &&& final(self).spec_outbox() == old(self).spec_outbox() + spec_line_deliveries(
                        remaining,
                        room0@.players.filter(not_id(u)),
                        spec_drop_lines(p0@.info.info.name, p0@.items),
                    ) + spec_deliveries(
                        remaining,
                        0,
                        0,
                        final(self).spec_player_ids(),
                        spec_left_text(p0@.info.info.name),
                        None,
                        Some(spec_left_text(p0@.info.info.name)),
                    )
                    &&& final(self).spec_fights() == old(self).spec_fights()
                    &&& final(self).spec_fight_channel() == old(self).spec_fight_channel()
                    &&& final(self).spec_departures() == old(self).spec_departures()
                },
            },
    {
        let (loc, name) = match self.players.get(u) {
            Some(p) => (p.loc(), p.name()),
            None => return None,
        };
        if !self.rooms.contains_key(loc) {
            return None;
        }
        let ghost g0 = *self;
        let mut pl = match self.players.remove(u) {
            Some(p) => p,
            None => return None,
        };
        let ghost p0 = pl;
        let mut bag: List<Item, crate::attribute::Quality> = List::new();
        {
            let inner = pl.player_mut();
            let held = inner.items_mut();
            std::mem::swap(&mut bag, held);
        }
        pl.drop_stream();
        let aud = self.rooms.player_ids(loc).except(u);
        let mut items = bag.into_inner();
        let ghost all = items@;
        let ghost players1 = self.players;
        let n = items.len();
        let mut lines: Vec<String> = Vec::new();
        let mut i: usize = 0;
        proof {
            assert forall|k: u128| #[trigger] self.players@.contains_key(k) implies self.players@[k]@.uuid == k
                && interior(self.players@[k]@.loc) by {
                assert(g0.players@.contains_key(k));
            }
            assert(all == p0@.items);
        }
        while i < n
            invariant
                n == all.len(),
                i <= n,
                items@ == all.subrange(i as int, n as int),
                self.players == players1,
                self.rooms@.dom() == g0.rooms@.dom(),
                self.rooms@.contains_key(loc),
                self.rooms@[loc]@ == (RoomView { items: g0.rooms@[loc]@.items + all.subrange(0, i as int), ..g0.rooms@[loc]@ }),
                forall|c: Coord| c != loc && #[trigger] g0.rooms@.contains_key(c) ==> self.rooms@[c] == g0.rooms@[c],
                self.outbox == g0.outbox,
                self.fights == g0.fights,
                self.fight_channel == g0.fight_channel,
                self.departures == g0.departures,
                strs_of(lines@) == spec_drop_lines(name@, all.subrange(0, i as int)),
            decreases n - i,
        {
            let item = items.remove(0);
            proof {
                assert(item == all[i as int]);
                assert(items@ =~= all.subrange(i + 1, n as int));
            }
            let line = concat3("\n", name.as_str(), " drops ");
            let iname = item.name();
            let a = article(iname.as_str());
            let full = concat2(line.as_str(), a.as_str());
            proof {
                reveal_strlit("\n");
                reveal_strlit(" drops ");
                assert(full@ == "\n"@ + name@ + " drops "@ + spec_article(all[i as int].spec_name()));
            }
            let ghost lines0 = lines@;
            lines.push(full);
            proof {
                assert(strs_of(lines@) =~= strs_of(lines0).push(full@));
            }
            match self.rooms.get_mut(loc) {
                Some(room) => {
                    let _ = room.insert_item(item);
                },
                None => {},
            }
            proof {
                reveal_strlit("\n");
                reveal_strlit(" drops ");
                assert(all.subrange(0, i + 1) =~= all.subrange(0, i as int).push(all[i as int]));
                assert(strs_of(lines@) =~= spec_drop_lines(name@, all.subrange(0, i + 1)));
            }
            i = i + 1;
        }
        proof {
            assert(all.subrange(0, n as int) =~= all);
        }
        let ghost rooms1 = self.rooms;
        proof {
            assert forall|c: Coord| #[trigger] self.rooms@.contains_key(c) implies interior(c) && doors_distinct(self.rooms@[c]@.doors) by {
                assert(g0.rooms@.contains_key(c));
            }
            assert(self.wf());
        }
        let mut j: usize = 0;
        while j < lines.len()
            invariant
                j <= lines@.len(),
                self.wf(),
                self.spec_players() == players1@,
                self.spec_player_ids() == players1.spec_ids(),
                self.spec_rooms() == rooms1@,
                self.spec_fights() == g0.spec_fights(),
                self.spec_fight_channel() == g0.spec_fight_channel(),
                self.spec_departures() == g0.spec_departures(),
                strs_of(lines@) == spec_drop_lines(name@, all),
                strs_of(lines@).len() == lines@.len(),
                self.spec_outbox() == g0.spec_outbox() + spec_line_deliveries(
                    players1@,
                    aud@,
                    strs_of(lines@).subrange(0, j as int),
                ),
            decreases lines@.len() - j,
        {
            self.send(&aud, &lines[j]);
            proof {
                let t = strs_of(lines@).subrange(0, j + 1);
                assert(t.drop_last() =~= strs_of(lines@).subrange(0, j as int));
                assert(t.last() == lines@[j as int]@);
            }
            j = j + 1;
        }
        proof {
            assert(strs_of(lines@).subrange(0, lines@.len() as int) =~= strs_of(lines@));
        }
        let everyone = self.players.to_id_list();
        let left = concat2(name.as_str(), " has left the game").padded();
        proof {
            reveal_strlit(" has left the game");
        }
        self.send(&everyone, &left);
        proof {
            assert(pl@ == (PlayerView { items: Seq::empty(), connected: false, ..p0@ }));
            assert(pl == spec_with_player(p0, spec_inner_player(pl)));
            assert(self.spec_players() == g0.spec_players().remove(u));
            assert(self.spec_rooms().dom() == g0.spec_rooms().dom());
            assert(aud@ == g0.spec_rooms()[loc]@.players.filter(not_id(u)));
            assert(name@ == p0@.info.info.name);
        }
        Some(pl)
    }
}

/// The texts of a list of strings.
pub open spec fn strs_of(v: Seq<String>) -> Seq<Seq<char>> {
    v.map_values(|s: String| s@)
}

} // verus!
