//! Players that the game itself moves.
use vstd::prelude::*;
use crate::attribute::Quality;
use crate::describe::{Description, DescriptionView};
use crate::item::Item;
use crate::list::List;
use crate::location::Coord;
use crate::player::{draw_between, spec_inner_player, Player, PlayerType};
use crate::text::message::opt_view;
use crate::text::strings::{concat2, concat3};

verus! {

/// How a non-player character behaves.
#[derive(Debug, PartialEq, Eq)]
pub enum AI {
    Static,
    Talker(Vec<String>),
    Walker,
}

/// A player as a map file writes it.
pub struct YamlPlayer {
    pub info: Description,
    pub ai_type: Option<AI>,
    pub loc: Coord,
}

/// A non-player character: a player and the way it behaves.
#[derive(Debug)]
pub struct Npc {
    pub player: Player,
    pub ai_type: Option<AI>,
}

/// What the thread that moves a character is told.
pub enum NpcMessage {
    Stop,
}

impl Npc {
    pub fn new(player: Player, ai_type: AI) -> (r: Self)
        ensures
            r.player == player,
            r.ai_type == Some(ai_type),
    {
        Npc { player, ai_type: Some(ai_type) }
    }

    pub fn player(&self) -> (r: &Player)
        ensures
            *r == self.player,
    {
        &self.player
    }

    pub fn player_mut(&mut self) -> (r: &mut Player)
        ensures
            *r == old(self).player,
            *final(self) == (Npc { player: *final(r), ..*old(self) }),
    {
        &mut self.player
    }

    /// Takes out the way the character behaves, for the thread that moves
    /// it; a character without one stands still.
    pub fn take_ai(&mut self) -> (r: AI)
        ensures
            r == match old(self).ai_type {
                Some(a) => a,
                None => AI::Static,
            },
            final(self).ai_type is None,
            final(self).player == old(self).player,
    {
        match self.ai_type.take() {
            Some(a) => a,
            None => AI::Static,
        }
    }
}

/// The word that a walking character types for a draw: north, south,
/// east, or west for any other draw.
pub open spec fn spec_walk_word(n: int) -> Seq<char> {
    if n == 0 {
        "n"@
    } else if n == 1 {
        "s"@
    } else if n == 2 {
        "e"@
    } else {
        "w"@
    }
}

/// The line that a character of this kind types for the draw `n`: a
/// talker says its `n`-th phrase, a walker walks, a character that stands
/// still types nothing.
pub open spec fn spec_npc_line(ai: AI, n: int) -> Option<Seq<char>> {
    match ai {
        AI::Static => None,
        AI::Talker(v) => Some("say "@ + v@[n]@),
        AI::Walker => Some(spec_walk_word(n)),
    }
}

/// The draws that a character of this kind picks among: one per phrase of
/// a talker, four directions of a walker.
pub open spec fn spec_draw_count(ai: AI) -> int {
    match ai {
        AI::Static => 0,
        AI::Talker(v) => v@.len() as int,
        AI::Walker => 4,
    }
}

/// The line that a character of this kind types for the draw `n`.
pub fn npc_line(ai: &AI, n: usize) -> (r: Option<String>)
    requires
        *ai is Talker ==> n < spec_draw_count(*ai),
    ensures
        opt_view(r) == spec_npc_line(*ai, n as int),
{
    match ai {
        AI::Static => None,
        AI::Talker(v) => Some(concat2("say ", v[n].as_str())),
        AI::Walker => {
            proof {
                reveal_strlit("n");
                reveal_strlit("s");
                reveal_strlit("e");
                reveal_strlit("w");
            }
            let w = if n == 0 {
                "n"
            } else if n == 1 {
                "s"
            } else if n == 2 {
                "e"
            } else {
                "w"
            };
            Some(String::from_str(w))
        },
    }
}

/// Draws the line that a character types next: for a talker one of its
/// phrases, for a walker one of the four directions.
pub fn draw_npc_line(ai: &AI) -> (r: Option<String>)
    requires
        *ai is Talker ==> spec_draw_count(*ai) > 0,
    ensures
        *ai is Static ==> r is None,
        !(*ai is Static) ==> exists|n: int| 0 <= n < spec_draw_count(*ai) && opt_view(r) == spec_npc_line(*ai, n),
{
    match ai {
        AI::Static => None,
        AI::Talker(v) => {
            let n = draw_between(0, v.len() as u128) as usize;
            let r = npc_line(ai, n);
            assert(0 <= n as int && (n as int) < spec_draw_count(*ai) && opt_view(r) == spec_npc_line(*ai, n as int));
            r
        },
        AI::Walker => {
            let n = draw_between(0, 4) as usize;
            let r = npc_line(ai, n);
            assert(0 <= n as int && (n as int) < spec_draw_count(*ai) && opt_view(r) == spec_npc_line(*ai, n as int));
            r
        },
    }
}

/// The seconds that a character waits before it acts, drawn from 20 to 29.
pub fn npc_interval() -> (r: u64)
    ensures
        20 <= r < 30,
{
    draw_between(20, 30) as u64
}

/// What a corpse says of itself: the dead player's name, a line for the
/// room and a close look, and the player's names together with "corpse".
pub open spec fn spec_corpse_info(d: DescriptionView) -> DescriptionView {
    DescriptionView {
        name: d.name,
        display: "The corpse of "@ + d.name + " lies here, decomposing"@,
        description: "Where once stood "@ + d.name + ", now lies a rotting corpse"@,
        handle: d.handle.push("corpse"@),
    }
}

/// The corpse is a container described by `spec_corpse_info`, with the
/// player's qualities and scenery, holding what the player held and then
/// what it wore.
pub open spec fn is_corpse_of(r: Item, p: crate::player::PlayerView) -> bool {
    r matches Item::Container(l) && {
        &&& l.spec_info()@ == spec_corpse_info(p.info.info)
        &&& l.spec_attr() == p.info.attr.push(Quality::Scenery)
        &&& l.spec_inner() == p.items + p.clothing
    }
}

impl Item {
    /// The corpse that a player leaves behind.
    pub fn from_player(p: Player) -> (r: Item)
        ensures
            is_corpse_of(r, p@),
    {
        let Player { info, items, clothing, .. } = p;
        let mut info = info;
        let name = info.info.name.clone();
        info.info.handle.push(String::from_str("corpse"));
        info.info.display = concat3("The corpse of ", name.as_str(), " lies here, decomposing");
        info.info.description = concat3("Where once stood ", name.as_str(), ", now lies a rotting corpse");
        info.attr.push(Quality::Scenery);
        let mut held = items.into_inner();
        let mut worn = clothing.into_inner();
        held.append(&mut worn);
        proof {
            reveal_strlit("corpse");
            reveal_strlit("The corpse of ");
            reveal_strlit(" lies here, decomposing");
            reveal_strlit("Where once stood ");
            reveal_strlit(", now lies a rotting corpse");
        }
        Item::Container(Box::new(List::from_parts(held, info.info, info.attr)))
    }

    /// The corpse that a player of any kind leaves behind.
    pub fn from_player_type(p: PlayerType) -> (r: Item)
        ensures
            is_corpse_of(r, p@),
    {
        let inner = match p {
            PlayerType::Npc(npc) => npc.player,
            PlayerType::Human(h) => h,
            PlayerType::Dummy(d) => d,
        };
        Item::from_player(inner)
    }
}

} // verus!
