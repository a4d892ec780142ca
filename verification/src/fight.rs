//! Fights between two players: who fights whom, who watches, and whether
//! the fight is over.
use vstd::prelude::*;
use crate::error::{EnnuiError, Simple};
use crate::game::FightRequest;
use crate::location::Coord;
use crate::player::list::{not_id, PlayerIdList};
use crate::text::message::FightMessage;
use crate::text::strings::{concat2, concat3};
use crate::text::{spec_paint, yellow_code, Color};

verus! {

/// A change to a running fight.
#[derive(Copy, Clone)]
pub enum FightMod {
    /// The player leaves the onlookers.
    Leave(u128),
}

/// Whether a fight is over.
pub struct FightStatus {
    pub ended: bool,
}

/// Which of the two fighters strikes.
#[derive(Copy, Clone)]
pub enum Starter {
    Aggressor,
    Defender,
}

/// A fight as plain values.
pub struct FightView {
    pub aggressor: u128,
    pub defender: u128,
    pub aggressor_name: Seq<char>,
    pub defender_name: Seq<char>,
    pub aggressor_loc: Coord,
    pub defender_loc: Coord,
    pub ended: bool,
    pub audience: Seq<u128>,
}

/// A fight between the aggressor and the defender, known by the names
/// they had when it began and by where each was last seen, watched by the
/// audience.
pub struct BasicFight {
    aggressor: u128,
    defender: u128,
    aggressor_name: String,
    defender_name: String,
    aggressor_loc: Coord,
    defender_loc: Coord,
    ended: bool,
    audience: PlayerIdList,
}

impl View for BasicFight {
    type V = FightView;

    closed spec fn view(&self) -> FightView {
        FightView {
            aggressor: self.aggressor,
            defender: self.defender,
            aggressor_name: self.aggressor_name@,
            defender_name: self.defender_name@,
            aggressor_loc: self.aggressor_loc,
            defender_loc: self.defender_loc,
            ended: self.ended,
            audience: self.audience@,
        }
    }
}

/// What a running fight offers: its state, a change of its onlookers,
/// and its end.
pub trait Fight {
    spec fn fight_view(&self) -> FightView;

    fn status(&self) -> (r: FightStatus)
        ensures
            r.ended == self.fight_view().ended,
    ;

    fn send_message(&mut self, m: FightMod) -> (r: Result<(), EnnuiError>)
        ensures
            match m {
                FightMod::Leave(u) => {
                    &&& final(self).fight_view() == (FightView {
                        audience: old(self).fight_view().audience.filter(not_id(u)),
                        ..old(self).fight_view()
                    })
                    &&& (r is Ok <==> old(self).fight_view().audience.contains(u))
                    &&& (r matches Err(e) ==> e matches EnnuiError::Simple(Simple::PlayerNotFound))
                },
            },
    ;

    fn end(&mut self)
        ensures
            final(self).fight_view() == (FightView { ended: true, ..old(self).fight_view() }),
    ;
}

impl BasicFight {
    /// A fight that has not ended, between the fighters of the request, who
    /// go by the given names and were seen at the given places, and
    /// watched by its onlookers.
    pub fn new(info: FightRequest, names: (String, String), seen: (Coord, Coord)) -> (r: Self)
        ensures
            r@ == (FightView {
                aggressor: info.aggressor,
                defender: info.defender,
                aggressor_name: names.0@,
                defender_name: names.1@,
                aggressor_loc: seen.0,
                defender_loc: seen.1,
                ended: false,
                audience: info.audience@,
            }),
    {
        let (aggressor_name, defender_name) = names;
        BasicFight {
            aggressor: info.aggressor,
            defender: info.defender,
            aggressor_name,
            defender_name,
            aggressor_loc: seen.0,
            defender_loc: seen.1,
            ended: false,
            audience: info.audience,
        }
    }

    /// Where the aggressor and the defender were last seen.
    pub fn last_seen(&self) -> (r: (Coord, Coord))
        ensures
            r == (self@.aggressor_loc, self@.defender_loc),
    {
        (self.aggressor_loc, self.defender_loc)
    }

    /// Records where a fighter was seen.
    pub fn saw(&mut self, who: Starter, c: Coord)
        ensures
            final(self)@ == match who {
                Starter::Aggressor => FightView { aggressor_loc: c, ..old(self)@ },
                Starter::Defender => FightView { defender_loc: c, ..old(self)@ },
            },
    {
        match who {
            Starter::Aggressor => self.aggressor_loc = c,
            Starter::Defender => self.defender_loc = c,
        }
    }

    /// The names of the aggressor and the defender.
    pub fn names(&self) -> (r: (&str, &str))
        ensures
            r.0@ == self@.aggressor_name,
            r.1@ == self@.defender_name,
    {
        (self.aggressor_name.as_str(), self.defender_name.as_str())
    }

    pub fn aggressor(&self) -> (r: u128)
        ensures
            r == self@.aggressor,
    {
        self.aggressor
    }

    pub fn defender(&self) -> (r: u128)
        ensures
            r == self@.defender,
    {
        self.defender
    }

    /// The onlookers, in order.
    pub fn audience(&self) -> (r: Vec<u128>)
        ensures
            r@ == self@.audience,
    {
        self.audience.to_vec()
    }
}

impl Fight for BasicFight {
    open spec fn fight_view(&self) -> FightView {
        self@
    }

    fn status(&self) -> (r: FightStatus) {
        FightStatus { ended: self.ended }
    }

    fn send_message(&mut self, m: FightMod) -> (r: Result<(), EnnuiError>) {
        match m {
            FightMod::Leave(u) => {
                if self.audience.remove(u) {
                    Ok(())
                } else {
                    Err(EnnuiError::Simple(Simple::PlayerNotFound))
                }
            },
        }
    }

    fn end(&mut self) {
        self.ended = true;
    }
}

/// The text before and after each line of a blow: the aggressor's blows
/// open a new paragraph, the defender's end with the prompt.
pub open spec fn blow_frame(starter: Starter) -> (Seq<char>, Seq<char>) {
    match starter {
        Starter::Aggressor => ("\n\n"@, ""@),
        Starter::Defender => ("\n"@, "\n\n > "@),
    }
}

/// The code of red.
pub open spec fn red_code() -> Seq<char> {
    seq!['[', '3', '1', 'm']
}

/// What the striker `a` reads, what its target `b` reads, and what
/// onlookers read of one blow.
pub open spec fn spec_blow_texts(starter: Starter, a: Seq<char>, b: Seq<char>) -> (Seq<char>, Seq<char>, Seq<char>) {
    let (before, after) = blow_frame(starter);
    (
        before + spec_paint(yellow_code(), "you hit "@ + b) + after,
        before + spec_paint(red_code(), a + " hits you"@) + after,
        before + a + " hits "@ + b + after,
    )
}

/// The message of one blow of `a` against `b`.
pub fn blow_message(starter: Starter, a: &str, b: &str) -> (r: FightMessage)
    ensures
        r.s@ == spec_blow_texts(starter, a@, b@).0,
        r.obj matches Some(o) && o@ == spec_blow_texts(starter, a@, b@).1,
        r.oth matches Some(o) && o@ == spec_blow_texts(starter, a@, b@).2,
{
    let (before, after) = match starter {
        Starter::Aggressor => ("\n\n", ""),
        Starter::Defender => ("\n", "\n\n > "),
    };
    proof {
        reveal_strlit("\n\n");
        reveal_strlit("");
        reveal_strlit("\n");
        reveal_strlit("\n\n > ");
    }
    let own = Color::Yellow(concat2("you hit ", b)).render();
    let aimed = Color::Red(concat2(a, " hits you")).render();
    let watched = concat3(a, " hits ", b);
    FightMessage {
        s: concat3(before, own.as_str(), after),
        obj: Some(concat3(before, aimed.as_str(), after)),
        oth: Some(concat3(before, watched.as_str(), after)),
    }
}

} // verus!
