//! The blows of a fight, struck in the game.
use vstd::prelude::*;
use crate::text::message::Broadcast;
use crate::attribute::Attribute;
use crate::describe::Describe;
use crate::fight::{blow_message, spec_blow_texts, BasicFight, Fight, FightView, Starter};
use crate::location::{Coord, Locate};
use crate::player::{
    first_hit, spec_hp, spec_hurt, spec_inner_player, spec_with_player, ConnectionStatus, PlayerStatus, PlayerType,
    PlayerView,
};
use crate::text::message::FightAudience;
use super::{spec_deliveries, FightRequest, Game};

verus! {

/// Who strikes and who is struck.
pub open spec fn fighters(f: FightView, starter: Starter) -> (u128, u128) {
    match starter {
        Starter::Aggressor => (f.aggressor, f.defender),
        Starter::Defender => (f.defender, f.aggressor),
    }
}

/// The names of the striker and of its target.
pub open spec fn fighter_names(f: FightView, starter: Starter) -> (Seq<char>, Seq<char>) {
    match starter {
        Starter::Aggressor => (f.aggressor_name, f.defender_name),
        Starter::Defender => (f.defender_name, f.aggressor_name),
    }
}

/// A blow's worth can be taken from the hit points of the player: it has
/// a hit-point gauge whose value stays in range.
pub open spec fn can_take_blow(p: PlayerView) -> bool {
    first_hit(p.stats) is Some && spec_hp(p.stats) - 25 >= i64::MIN
}

/// The name of a player of the game; empty for one that is not there.
pub open spec fn name_or_nothing(players: Map<u128, PlayerType>, u: u128) -> Seq<char> {
    if players.contains_key(u) { players[u]@.info.info.name } else { Seq::empty() }
}

/// Where a player of the game stands; the origin for one that is not
/// there.
pub open spec fn loc_or_origin(players: Map<u128, PlayerType>, u: u128) -> Coord {
    if players.contains_key(u) { players[u]@.loc } else { Coord(0, 0) }
}

/// Both fighters are in the game.
pub open spec fn both_present(g: Game, f: FightView) -> bool {
    g.spec_players().contains_key(f.aggressor) && g.spec_players().contains_key(f.defender)
}

/// What the fight has seen once the striker looked: the aggressor looks
/// at where it stands now, the defender at where it stands now; each
/// checks that against where the other was last seen.
pub open spec fn seen_after(g: Game, f: FightView, starter: Starter) -> FightView {
    match starter {
        Starter::Aggressor => FightView { aggressor_loc: g.spec_players()[f.aggressor]@.loc, ..f },
        Starter::Defender => FightView { defender_loc: g.spec_players()[f.defender]@.loc, ..f },
    }
}

/// The blow lands: before the aggressor strikes, the fighters were last
/// seen in one place; and after the striker looked, they are seen in one
/// place.
pub open spec fn blow_lands(g: Game, f: FightView, starter: Starter) -> bool {
    &&& (starter is Aggressor ==> f.aggressor_loc == f.defender_loc)
    &&& seen_after(g, f, starter).aggressor_loc == seen_after(g, f, starter).defender_loc
}

/// The player is connected to a client.
pub open spec fn connected(p: PlayerType) -> bool {
    p is Human && p@.connected
}

/// What one blow does. A fight that is over stays as it is. Fighters that
/// are not both in the game end the fight, and so does a blow that does
/// not land. Otherwise the striker takes 25 from its own hit points, the
/// blow is told to the striker, its target and the onlookers, and the
/// fight ends when the striker is not connected or its hit points fell to
/// 0 or below, in which case it is dead.
pub open spec fn spec_fight_turn_post(g0: Game, g1: Game, f0: FightView, f1: FightView, starter: Starter) -> bool {
    let (s, t) = fighters(f0, starter);
    if f0.ended {
        g1 == g0 && f1 == f0
    } else if !both_present(g0, f0) {
        g1 == g0 && f1 == (FightView { ended: true, ..f0 })
    } else if !blow_lands(g0, f0, starter) {
        g1 == g0 && f1 == (FightView { ended: true, ..seen_after(g0, f0, starter) })
    } else {
        let p0 = g0.spec_players()[s];
        let p1 = g1.spec_players()[s];
        let dead = spec_hp(p0@.stats) - 25 <= 0;
        let names = fighter_names(f0, starter);
        let texts = spec_blow_texts(starter, names.0, names.1);
        &&& g1.spec_players() == g0.spec_players().insert(s, p1)
        &&& p1@ == (PlayerView {
            stats: spec_hurt(p0@.stats, 25),
            status: if dead { p0@.status.push(PlayerStatus::Dead) } else { p0@.status },
            ..p0@
        })
        &&& p1 == spec_with_player(p0, spec_inner_player(p1))
        &&& g1.spec_rooms() == g0.spec_rooms()
        &&& g1.spec_player_ids() == g0.spec_player_ids()
        &&& g1.spec_fights() == g0.spec_fights()
        &&& g1.spec_fight_channel() == g0.spec_fight_channel()
        &&& g1.spec_departures() == g0.spec_departures()
        &&& g1.spec_outbox() == g0.spec_outbox() + spec_deliveries(
            g0.spec_players(),
            s,
            t,
            f0.audience,
            texts.0,
            Some(texts.1),
            Some(texts.2),
        )
        &&& f1 == (FightView { ended: dead || !connected(p0), ..seen_after(g0, f0, starter) })
    }
}

/// Step `i` of a run of blows: the game and the fight after it follow
/// from those before it by one blow of `starters[i]`.
pub open spec fn fight_step(gs: Seq<Game>, fs: Seq<FightView>, starters: Seq<Starter>, i: int) -> bool {
    spec_fight_turn_post(gs[i], gs[i + 1], fs[i], fs[i + 1], starters[i])
}

/// A run of blows: games and fights, one more of each than there are
/// blows, each following from the one before by the blow named for that
/// step.
pub open spec fn is_fight_run(gs: Seq<Game>, fs: Seq<FightView>, starters: Seq<Starter>) -> bool {
    &&& gs.len() == fs.len()
    &&& gs.len() == starters.len() + 1
    &&& forall|i: int| 0 <= i < starters.len() ==> #[trigger] fight_step(gs, fs, starters, i)
}

/// Over a run of blows: the fighters, the names they are known by and the
/// audience never change; once the fight is over, it and the game stay as
/// they are; a step changes the game only by a blow struck while the fight
/// was not over, both fighters were in the game and they were seen in one
/// place; and a step in which a fighter is gone, or the fighters are seen
/// apart, leaves the game alone and ends the fight.
pub proof fn law_fight_run(gs: Seq<Game>, fs: Seq<FightView>, starters: Seq<Starter>, i: int, j: int)
    requires
        is_fight_run(gs, fs, starters),
        0 <= i <= j < gs.len(),
    ensures
        fs[j].aggressor == fs[i].aggressor,
        fs[j].defender == fs[i].defender,
        fs[j].aggressor_name == fs[i].aggressor_name,
        fs[j].defender_name == fs[i].defender_name,
        fs[j].audience == fs[i].audience,
        fs[i].ended ==> fs[j] == fs[i] && gs[j] == gs[i],
        fs[i].ended ==> fs[j].ended,
        i < j && gs[i + 1] != gs[i] ==> !fs[i].ended && both_present(gs[i], fs[i]) && blow_lands(gs[i], fs[i], starters[i]),
        i < j && !(both_present(gs[i], fs[i]) && blow_lands(gs[i], fs[i], starters[i])) ==> fs[i + 1].ended && gs[i + 1] == gs[i],
    decreases j - i,
{
    if i < j {
        assert(fight_step(gs, fs, starters, i));
        law_fight_run(gs, fs, starters, i, j - 1);
        assert(fight_step(gs, fs, starters, j - 1));
    }
}

impl Game {
    /// Begins a fight that a command asked for: the fighters are known from
    /// now on by the names they have now (empty for one that is gone).
    pub fn begin_fight(&self, info: FightRequest) -> (r: BasicFight)
        ensures
            r@ == (FightView {
                aggressor: info.aggressor,
                defender: info.defender,
                aggressor_name: name_or_nothing(self.spec_players(), info.aggressor),
                defender_name: name_or_nothing(self.spec_players(), info.defender),
                aggressor_loc: loc_or_origin(self.spec_players(), info.aggressor),
                defender_loc: loc_or_origin(self.spec_players(), info.defender),
                ended: false,
                audience: info.audience@,
            }),
    {
        let (a, a_loc) = match self.players.get(info.aggressor) {
            Some(p) => (p.name(), p.loc()),
            None => (String::new(), Coord(0, 0)),
        };
        let (d, d_loc) = match self.players.get(info.defender) {
            Some(p) => (p.name(), p.loc()),
            None => (String::new(), Coord(0, 0)),
        };
        BasicFight::new(info, (a, d), (a_loc, d_loc))
    }

    /// Whether the player with id `u`, if it is in the game, can take a
    /// blow's worth from its hit points.
    pub fn can_strike(&self, u: u128) -> (r: bool)
        ensures
            r == (self.spec_players().contains_key(u) ==> can_take_blow(self.spec_players()[u]@)),
    {
        match self.players.get(u) {
            Some(p) => {
                if !p.player().has_hit_gauge() {
                    return false;
                }
                let hp = p.hp();
                hp >= i64::MIN + 25
            },
            None => true,
        }
    }

    /// Whether the next blow of `starter` would land: the fight is not
    /// over, both fighters are in the game, and they are seen in one place.
    pub fn blow_would_land(&self, fight: &BasicFight, starter: Starter) -> (r: bool)
        ensures
            r == (!fight@.ended && both_present(*self, fight@) && blow_lands(*self, fight@, starter)),
    {
        if fight.status().ended {
            return false;
        }
        let a_loc = match self.players.get(fight.aggressor()) {
            Some(p) => p.loc(),
            None => return false,
        };
        let b_loc = match self.players.get(fight.defender()) {
            Some(p) => p.loc(),
            None => return false,
        };
        let (seen_a, seen_b) = fight.last_seen();
        match starter {
            Starter::Aggressor => seen_a == seen_b && a_loc == seen_b,
            Starter::Defender => seen_a == b_loc,
        }
    }

    /// One blow of a running fight, by the aggressor or the defender.
    pub fn fight_turn(&mut self, fight: &mut BasicFight, starter: Starter)
        requires
            old(self).wf(),
            !old(fight)@.ended && both_present(*old(self), old(fight)@) && blow_lands(*old(self), old(fight)@, starter)
                ==> can_take_blow(old(self).spec_players()[fighters(old(fight)@, starter).0]@),
        ensures
            final(self).wf(),
            spec_fight_turn_post(*old(self), *final(self), old(fight)@, final(fight)@, starter),
    {
        if fight.status().ended {
            return;
        }
        let (s, t) = match starter {
            Starter::Aggressor => (fight.aggressor(), fight.defender()),
            Starter::Defender => (fight.defender(), fight.aggressor()),
        };
        let a_loc = match self.players.get(fight.aggressor()) {
            Some(p) => p.loc(),
            None => {
                fight.end();
                return;
            },
        };
        let b_loc = match self.players.get(fight.defender()) {
            Some(p) => p.loc(),
            None => {
                fight.end();
                return;
            },
        };
        let (seen_a, seen_b) = fight.last_seen();
        let lands = match starter {
            Starter::Aggressor => {
                fight.saw(Starter::Aggressor, a_loc);
                seen_a == seen_b && a_loc == seen_b
            },
            Starter::Defender => {
                fight.saw(Starter::Defender, b_loc);
                seen_a == b_loc
            },
        };
        if !lands {
            fight.end();
            return;
        }
        let linked = match self.players.get(s) {
            Some(p) => p.is_connected() == ConnectionStatus::Connected,
            None => return,
        };
        let (a_name, d_name) = fight.names();
        let (s_name, t_name) = match starter {
            Starter::Aggressor => (String::from_str(a_name), String::from_str(d_name)),
            Starter::Defender => (String::from_str(d_name), String::from_str(a_name)),
        };
        if !linked {
            fight.end();
        }
        let ghost g0 = *self;
        match self.players.get_mut(s) {
            Some(p) => p.hurt(25),
            None => {},
        }
        proof {
            assert forall|k: u128| #[trigger] self.players@.contains_key(k) implies self.players@[k]@.uuid == k
                && crate::map::list::interior(self.players@[k]@.loc) by {
                assert(g0.players@.contains_key(k));
            }
        }
        let ghost g1 = *self;
        let msg = blow_message(starter, s_name.as_str(), t_name.as_str());
        let aud = FightAudience(s, t, fight.audience());
        self.send(&aud, &msg);
        proof {
            assert(g1.players@.dom() == g0.players@.dom());
            assert(self.spec_outbox() == g0.spec_outbox() + spec_deliveries(
                g0.spec_players(),
                s,
                t,
                old(fight)@.audience,
                spec_blow_texts(starter, s_name@, t_name@).0,
                Some(spec_blow_texts(starter, s_name@, t_name@).1),
                Some(spec_blow_texts(starter, s_name@, t_name@).2),
            ));
        }
        let hp = match self.players.get(s) {
            Some(p) => p.hp(),
            None => 0,
        };
        if hp <= 0 {
            match self.players.get_mut(s) {
                Some(p) => p.set_attr(PlayerStatus::Dead),
                None => {},
            }
            fight.end();
        }
        proof {
            let p0 = g0.spec_players()[s];
            let p1 = self.spec_players()[s];
            assert(self.spec_players() == g0.spec_players().insert(s, p1));
            assert(p1 == spec_with_player(p0, spec_inner_player(p1)));
            assert(p1@.stats == spec_hurt(p0@.stats, 25));
            assert(self.spec_rooms() == g0.spec_rooms());
            assert(self.spec_player_ids() == g0.spec_player_ids());
            assert(self.spec_fights() == g0.spec_fights());
            assert(fight@.ended == (spec_hp(p0@.stats) - 25 <= 0 || !connected(p0)));
        }
    }
}

} // verus!
