//! Players: who they are, where they stand, what they carry.
pub mod list;
pub mod meter;
pub mod npc;

use vstd::prelude::*;
use crate::attribute::{index_of, lemma_index_of, lemma_index_of_unique, remove_first, Attribute, Quality};
use crate::describe::{Describe, Description};
use crate::error::{EnnuiError, Simple};
use crate::hook::{is_all_form, spec_grab, Grabber, Hook};
use crate::item::{DescriptionWithQualities, DescriptionWithQualitiesView, Item};
use crate::list::{nth_answering, spec_display_items, transfer, List, ListTrait};
use crate::location::{Coord, Locate};
use crate::soul::SoulKind;
use crate::text::strings::{concat3, str_lowercase, to_lowercase};
use self::meter::{spec_meter, spec_with_meter, Meter, MeterKind};
use self::npc::{Npc, YamlPlayer, AI};
use rand::Rng;

verus! {

/// Things that are, or stand for, players by their ids.
pub trait Uuid {
    spec fn uuid_view(&self) -> u128;

    spec fn others_view(&self) -> Seq<u128>;

    fn uuid(&self) -> (r: u128)
        ensures
            r == self.uuid_view(),
    ;

    fn others(&self) -> (r: Vec<u128>)
        ensures
            r@ == self.others_view(),
    ;
}

impl Uuid for u128 {
    open spec fn uuid_view(&self) -> u128 {
        *self
    }

    open spec fn others_view(&self) -> Seq<u128> {
        Seq::empty()
    }

    fn uuid(&self) -> (r: u128) {
        *self
    }

    fn others(&self) -> (r: Vec<u128>) {
        Vec::new()
    }
}

impl Uuid for Vec<u128> {
    open spec fn uuid_view(&self) -> u128 {
        0
    }

    open spec fn others_view(&self) -> Seq<u128> {
        self@
    }

    fn uuid(&self) -> (r: u128) {
        0
    }

    fn others(&self) -> (r: Vec<u128>) {
        self.clone()
    }
}


/// What a player's state holds besides its gauges.
#[derive(Copy, Clone, Debug, PartialEq, Eq, Structural)]
pub enum PlayerStatus {
    Fighting,
    Dead,
    Asleep,
    Sitting,
}

/// Draws a number with `rand::thread_rng().gen_range(low, high)`. rand
/// documents the result to lie in `[low, high)`, and the call to panic
/// where `low >= high`; which number comes is chance, and nothing more is
/// claimed.
#[verifier::external_body]
pub(crate) fn draw_between(low: u128, high: u128) -> (r: u128)
    requires
        low < high,
    ensures
        low <= r < high,
{
    rand::thread_rng().gen_range(low, high)
}

/// A fresh player id: never 0 (the id of blank and dummy players), and
/// below `u128::MAX`.
fn new_player_id() -> (r: u128)
    ensures
        0 < r < u128::MAX,
{
    draw_between(1, u128::MAX)
}

/// A player: id, description, place, belongings, souls, gauges and state.
/// The connection to a client is held outside the library; `connected`
/// says whether there is one, `fighting` whether the player is in a fight
/// that must be told when the player leaves.
#[derive(Debug)]
pub struct Player {
    uuid: u128,
    info: DescriptionWithQualities,
    loc: Coord,
    items: List<Item, Quality>,
    clothing: List<Item, Quality>,
    souls: List<SoulKind, Quality>,
    connected: bool,
    fighting: bool,
    stats: Vec<MeterKind>,
    status: Vec<PlayerStatus>,
}

/// The contents of a player.
pub struct PlayerView {
    pub uuid: u128,
    pub info: DescriptionWithQualitiesView,
    pub loc: Coord,
    pub items: Seq<Item>,
    pub clothing: Seq<Item>,
    pub souls: Seq<SoulKind>,
    pub connected: bool,
    pub fighting: bool,
    pub stats: Seq<MeterKind>,
    pub status: Seq<PlayerStatus>,
}

impl View for Player {
    type V = PlayerView;

    closed spec fn view(&self) -> PlayerView {
        PlayerView {
            uuid: self.uuid,
            info: self.info@,
            loc: self.loc,
            items: self.items.spec_inner(),
            clothing: self.clothing.spec_inner(),
            souls: self.souls.spec_inner(),
            connected: self.connected,
            fighting: self.fighting,
            stats: self.stats@,
            status: self.status@,
        }
    }
}

/// Position of the first hit-point gauge.
pub open spec fn first_hit(s: Seq<MeterKind>) -> Option<int>
    decreases s.len(),
{
    if s.len() == 0 {
        None
    } else if s[0] is Hit {
        Some(0)
    } else {
        match first_hit(s.drop_first()) {
            Some(i) => Some(i + 1),
            None => None,
        }
    }
}

pub proof fn lemma_first_hit(s: Seq<MeterKind>)
    ensures
        match first_hit(s) {
            Some(i) => 0 <= i < s.len() && s[i] is Hit && forall|j: int| 0 <= j < i ==> !(s[j] is Hit),
            None => forall|j: int| 0 <= j < s.len() ==> !(s[j] is Hit),
        },
    decreases s.len(),
{
    if s.len() > 0 && !(s[0] is Hit) {
        lemma_first_hit(s.drop_first());
        match first_hit(s.drop_first()) {
            Some(i) => {
                assert forall|j: int| 0 <= j < i + 1 implies !(s[j] is Hit) by {
                    if j > 0 {
                        assert(s[j] == s.drop_first()[j - 1]);
                    }
                }
            },
            None => {
                assert forall|j: int| 0 <= j < s.len() implies !(s[j] is Hit) by {
                    if j > 0 {
                        assert(s[j] == s.drop_first()[j - 1]);
                    }
                }
            },
        }
    }
}

/// The hit points of a player: the current value of its first hit-point
/// gauge.
pub open spec fn spec_hp(stats: Seq<MeterKind>) -> int {
    match first_hit(stats) {
        Some(i) => spec_meter(stats[i]).0 as int,
        None => 0,
    }
}

/// The gauges after `amt` is taken from the hit points: the first
/// hit-point gauge holds its current value less `amt`, the rest is as it
/// was.
pub open spec fn spec_hurt(stats: Seq<MeterKind>, amt: int) -> Seq<MeterKind> {
    match first_hit(stats) {
        Some(i) => stats.update(
            i,
            spec_with_meter(stats[i], Meter((spec_hp(stats) - amt) as i64, spec_meter(stats[i]).1)),
        ),
        None => stats,
    }
}

/// Position of the first hit-point gauge, if any.
fn hit_position(stats: &Vec<MeterKind>) -> (r: Option<usize>)
    ensures
        match r {
            Some(i) => first_hit(stats@) == Some(i as int) && i < stats@.len() && stats@[i as int] is Hit,
            None => first_hit(stats@) is None,
        },
{
    proof {
        lemma_first_hit(stats@);
    }
    let mut i: usize = 0;
    while i < stats.len()
        invariant
            i <= stats@.len(),
            forall|j: int| 0 <= j < i ==> !(stats@[j] is Hit),
        decreases stats@.len() - i,
    {
        if let MeterKind::Hit(_) = &stats[i] {
            proof {
                lemma_first_hit(stats@);
                match first_hit(stats@) {
                    Some(k) => {
                        if k < i {
                        } else if k > i {
                        }
                    },
                    None => {},
                }
            }
            return Some(i);
        }
        i = i + 1;
    }
    None
}

/// The empty description of a new player.
fn blank_info() -> (r: DescriptionWithQualities)
    ensures
        r@.info.name == Seq::<char>::empty(),
        r@.info.display == Seq::<char>::empty(),
        r@.info.description == Seq::<char>::empty(),
        r@.info.handle == Seq::<Seq<char>>::empty(),
        r@.attr == Seq::<Quality>::empty(),
{
    proof {
        reveal_strlit("");
    }
    let h = Hook(Vec::new());
    assert(h@ =~= Seq::<Seq<char>>::empty());
    DescriptionWithQualities {
        info: Description {
            name: String::new(),
            display: String::new(),
            description: String::new(),
            handle: h,
        },
        attr: Vec::new(),
    }
}

/// Whether a list of states holds `q`.
fn status_position(v: &Vec<PlayerStatus>, q: PlayerStatus) -> (r: Option<usize>)
    ensures
        match r {
            Some(i) => index_of(v@, q) == Some(i as int),
            None => index_of(v@, q) is None,
        },
{
    let mut i: usize = 0;
    while i < v.len()
        invariant
            i <= v.len(),
            forall|j: int| 0 <= j < i ==> v@[j] != q,
        decreases v.len() - i,
    {
        if v[i] == q {
            proof {
                lemma_index_of_unique(v@, q, i as int);
            }
            return Some(i);
        }
        i = i + 1;
    }
    proof {
        lemma_index_of(v@, q);
    }
    None
}

impl Player {
    /// A fresh player with a random id, never 0 and below `u128::MAX`, an empty
    /// description, at the origin, with nothing, and with full hit,
    /// movement and mana gauges of 100.
    pub fn new() -> (r: Self)
        ensures
            0 < r@.uuid < u128::MAX,
            r@.info.info.name == Seq::<char>::empty(),
            r@.info.info.display == Seq::<char>::empty(),
            r@.info.info.description == Seq::<char>::empty(),
            r@.info.info.handle == Seq::<Seq<char>>::empty(),
            r@.info.attr == Seq::<Quality>::empty(),
            r@.loc == Coord(0, 0),
            r@.items == Seq::<Item>::empty(),
            r@.clothing == Seq::<Item>::empty(),
            r@.souls == Seq::<SoulKind>::empty(),
            !r@.connected,
            !r@.fighting,
            r@.stats == seq![
                MeterKind::Hit(Meter(100, 100)),
                MeterKind::Movement(Meter(100, 100)),
                MeterKind::Mana(Meter(100, 100)),
            ],
            r@.status == Seq::<PlayerStatus>::empty(),
    {
        let stats = vec![
            MeterKind::Hit(Meter(100, 100)),
            MeterKind::Movement(Meter(100, 100)),
            MeterKind::Mana(Meter(100, 100)),
        ];
        let uuid = new_player_id();
        let p = Player {
            uuid,
            info: blank_info(),
            loc: Coord(0, 0),
            items: List::new(),
            clothing: List::new(),
            souls: List::new(),
            connected: false,
            fighting: false,
            stats,
            status: Vec::new(),
        };
        assert(p@.stats =~= seq![
            MeterKind::Hit(Meter(100, 100)),
            MeterKind::Movement(Meter(100, 100)),
            MeterKind::Mana(Meter(100, 100)),
        ]);
        p
    }

    /// The placeholder player: id 0, nothing described, no gauges.
    pub fn blank() -> (r: Self)
        ensures
            r@.uuid == 0,
            r@.info.info.name == Seq::<char>::empty(),
            r@.info.info.display == Seq::<char>::empty(),
            r@.info.info.description == Seq::<char>::empty(),
            r@.info.info.handle == Seq::<Seq<char>>::empty(),
            r@.info.attr == Seq::<Quality>::empty(),
            r@.loc == Coord(0, 0),
            r@.items == Seq::<Item>::empty(),
            r@.clothing == Seq::<Item>::empty(),
            r@.souls == Seq::<SoulKind>::empty(),
            !r@.connected,
            !r@.fighting,
            r@.stats == Seq::<MeterKind>::empty(),
            r@.status == Seq::<PlayerStatus>::empty(),
    {
        Player {
            uuid: 0,
            info: blank_info(),
            loc: Coord(0, 0),
            items: List::new(),
            clothing: List::new(),
            souls: List::new(),
            connected: false,
            fighting: false,
            stats: Vec::new(),
            status: Vec::new(),
        }
    }

    /// Marks the player as holding a client connection.
    pub fn assign_stream(&mut self)
        ensures
            final(self)@ == (PlayerView { connected: true, ..old(self)@ }),
    {
        self.connected = true;
    }

    pub fn uuid(&self) -> (r: u128)
        ensures
            r == self@.uuid,
    {
        self.uuid
    }

    pub fn loc(&self) -> (r: Coord)
        ensures
            r == self@.loc,
    {
        self.loc
    }

    pub fn set_loc(&mut self, new_loc: Coord)
        ensures
            final(self)@ == (PlayerView { loc: new_loc, ..old(self)@ }),
    {
        self.loc = new_loc;
    }

    pub fn info(&self) -> (r: &DescriptionWithQualities)
        ensures
            r@ == self@.info,
    {
        &self.info
    }

    /// Names the player: the name becomes its name and display line, and
    /// its lower-case form one more handle.
    pub fn set_name(&mut self, name: &str)
        ensures
            final(self)@ == spec_renamed(old(self)@, name@),
    {
        self.info.info.handle.push(to_lowercase(name));
        self.info.info.name = String::from_str(name);
        self.info.info.display = String::from_str(name);
    }

    /// Whether the player has a hit-point gauge.
    pub fn has_hit_gauge(&self) -> (r: bool)
        ensures
            r == first_hit(self@.stats) is Some,
    {
        match hit_position(&self.stats) {
            Some(_) => true,
            None => false,
        }
    }

    /// The current value of the first hit-point gauge.
    pub fn hp(&self) -> (r: i64)
        requires
            first_hit(self@.stats) is Some,
        ensures
            r == spec_hp(self@.stats),
    {
        match hit_position(&self.stats) {
            Some(i) => self.stats[i].current(),
            None => 0,
        }
    }

    /// Takes `amt` from the hit points.
    pub fn hurt(&mut self, amt: usize)
        requires
            first_hit(old(self)@.stats) is Some,
            amt <= i64::MAX,
            spec_hp(old(self)@.stats) - amt >= i64::MIN,
        ensures
            ({
                let i = first_hit(old(self)@.stats)->0;
                let m = old(self)@.stats[i];
                final(self)@ == (PlayerView {
                    stats: old(self)@.stats.update(
                        i,
                        spec_with_meter(m, Meter((spec_hp(old(self)@.stats) - amt) as i64, spec_meter(m).1)),
                    ),
                    ..old(self)@
                })
            }),
    {
        let current = self.hp();
        match hit_position(&self.stats) {
            Some(i) => {
                let mut m = self.stats[i];
                m.set(current - amt as i64);
                self.stats.set(i, m);
            },
            None => {},
        }
    }

    pub fn stats(&self) -> (r: &[MeterKind])
        ensures
            r@ == self@.stats,
    {
        self.stats.as_slice()
    }

    pub fn status(&self) -> (r: &Vec<PlayerStatus>)
        ensures
            r@ == self@.status,
    {
        &self.status
    }

    pub fn items(&self) -> (r: &List<Item, Quality>)
        ensures
            r.spec_inner() == self@.items,
    {
        &self.items
    }

    pub fn clothing(&self) -> (r: &List<Item, Quality>)
        ensures
            r.spec_inner() == self@.clothing,
    {
        &self.clothing
    }

    pub fn souls(&self) -> (r: &List<SoulKind, Quality>)
        ensures
            r.spec_inner() == self@.souls,
    {
        &self.souls
    }

    pub fn items_mut(&mut self) -> (r: &mut List<Item, Quality>)
        ensures
            r.spec_inner() == old(self)@.items,
            final(self)@ == (PlayerView { items: final(r).spec_inner(), ..old(self)@ }),
    {
        &mut self.items
    }

    pub fn clothing_mut(&mut self) -> (r: &mut List<Item, Quality>)
        ensures
            r.spec_inner() == old(self)@.clothing,
            final(self)@ == (PlayerView { clothing: final(r).spec_inner(), ..old(self)@ }),
    {
        &mut self.clothing
    }

    pub fn souls_mut(&mut self) -> (r: &mut List<SoulKind, Quality>)
        ensures
            r.spec_inner() == old(self)@.souls,
            final(self)@ == (PlayerView { souls: final(r).spec_inner(), ..old(self)@ }),
    {
        &mut self.souls
    }

    /// Moves the piece of clothing that `handle` picks from the player's
    /// hands to its body: an item that is not clothing stays.
    pub fn wear(&mut self, handle: &str) -> (r: Result<String, EnnuiError>)
        requires
            !is_all_form(handle@),
        ensures
            ({
                let g = spec_grab(handle@);
                match nth_answering(old(self)@.items, g.0, g.1) {
                    None => r matches Err(EnnuiError::Simple(Simple::ItemNotFound)) && final(self)@ == old(self)@,
                    Some(i) => {
                        let item = old(self)@.items[i];
                        if crate::item::item_has(item, Quality::Clothing) {
                            &&& r matches Ok(n) && n@ == item.spec_name()
                            &&& final(self)@ == (PlayerView {
                                items: old(self)@.items.remove(i),
                                clothing: old(self)@.clothing.push(item),
                                ..old(self)@
                            })
                        } else {
                            r matches Err(EnnuiError::Simple(Simple::NotClothing)) && final(self)@ == old(self)@
                        }
                    },
                }
            }),
    {
        match self.items.get_item(Grabber::from_str(handle)) {
            Some(i) => {
                proof {
                    crate::item::lemma_item_has(*i, Quality::Clothing);
                }
                if !i.is(Quality::Clothing) {
                    return Err(EnnuiError::Simple(Simple::NotClothing));
                }
            },
            None => return Err(EnnuiError::Simple(Simple::ItemNotFound)),
        }
        transfer(&mut self.items, &mut self.clothing, handle)
    }

    /// Moves the piece of clothing that `handle` picks from the player's
    /// body back to its hands.
    pub fn take_off(&mut self, handle: &str) -> (r: Result<String, EnnuiError>)
        requires
            !is_all_form(handle@),
        ensures
            ({
                let g = spec_grab(handle@);
                match nth_answering(old(self)@.clothing, g.0, g.1) {
                    None => r matches Err(EnnuiError::Simple(Simple::ItemNotFound)) && final(self)@ == old(self)@,
                    Some(i) => {
                        let item = old(self)@.clothing[i];
                        &&& r matches Ok(n) && n@ == item.spec_name()
                        &&& final(self)@ == (PlayerView {
                            clothing: old(self)@.clothing.remove(i),
                            items: old(self)@.items.push(item),
                            ..old(self)@
                        })
                    },
                }
            }),
    {
        transfer(&mut self.clothing, &mut self.items, handle)
    }

    /// Forgets the client connection.
    pub fn drop_stream(&mut self)
        ensures
            final(self)@ == (PlayerView { connected: false, ..old(self)@ }),
    {
        self.connected = false;
    }

    /// Enters a fight that is to be told when the player leaves.
    pub fn assign_fight_sender(&mut self)
        ensures
            final(self)@ == (PlayerView { fighting: true, ..old(self)@ }),
    {
        self.fighting = true;
    }

    /// Leaves the current fight; answers whether there was one to tell.
    pub fn leave_fight(&mut self) -> (r: bool)
        ensures
            r == old(self)@.fighting,
            final(self)@ == (PlayerView { fighting: false, ..old(self)@ }),
    {
        let was = self.fighting;
        self.fighting = false;
        was
    }

    pub fn set_status(&mut self, q: PlayerStatus)
        ensures
            final(self)@ == (PlayerView { status: old(self)@.status.push(q), ..old(self)@ }),
    {
        self.status.push(q);
    }

    pub fn unset_status(&mut self, q: PlayerStatus)
        ensures
            final(self)@ == (PlayerView { status: remove_first(old(self)@.status, q), ..old(self)@ }),
    {
        proof {
            lemma_index_of(self.status@, q);
        }
        match status_position(&self.status, q) {
            Some(i) => {
                self.status.remove(i);
            },
            None => {},
        }
    }
}

/// Whether, and how, a player is connected.
#[derive(Copy, Clone, Debug, PartialEq, Eq, Structural)]
pub enum ConnectionStatus {
    Npc,
    Connected,
    Disconnected,
    Nothing,
}

/// A player by the way it is moved: by a client, by the game, or not at
/// all.
#[derive(Debug)]
pub enum PlayerType {
    Human(Player),
    Npc(Npc),
    Dummy(Player),
}

impl View for PlayerType {
    type V = PlayerView;

    open spec fn view(&self) -> PlayerView {
        spec_inner_player(*self)@
    }
}

/// The player inside.
pub open spec fn spec_inner_player(pt: PlayerType) -> Player {
    match pt {
        PlayerType::Human(p) => p,
        PlayerType::Npc(n) => n.player,
        PlayerType::Dummy(p) => p,
    }
}

/// The same kind of player with another player inside.
pub open spec fn spec_with_player(pt: PlayerType, p: Player) -> PlayerType {
    match pt {
        PlayerType::Human(_) => PlayerType::Human(p),
        PlayerType::Npc(n) => PlayerType::Npc(Npc { player: p, ..n }),
        PlayerType::Dummy(_) => PlayerType::Dummy(p),
    }
}

/// Whether `b` is a player of the same kind as `a`: a human player stays
/// human, a dummy a dummy, and a character the game moves keeps its
/// behaviour; only the player inside may differ.
pub open spec fn same_kind(a: PlayerType, b: PlayerType) -> bool {
    b == spec_with_player(a, spec_inner_player(b))
}

/// A player view renamed: the name becomes its name and display line, and
/// its lower-case form one more handle; nothing else changes.
pub open spec fn spec_renamed(v: PlayerView, name: Seq<char>) -> PlayerView {
    PlayerView {
        info: DescriptionWithQualitiesView {
            info: crate::describe::DescriptionView {
                name: name,
                display: name,
                handle: v.info.info.handle.push(str_lowercase(name)),
                ..v.info.info
            },
            ..v.info
        },
        ..v
    }
}

impl Default for PlayerType {
    fn default() -> (r: Self)
        ensures
            r is Dummy,
            r@.uuid == 0,
            r@.info.info.name == Seq::<char>::empty(),
            r@.info.info.display == Seq::<char>::empty(),
            r@.info.info.description == Seq::<char>::empty(),
            r@.info.info.handle == Seq::<Seq<char>>::empty(),
            r@.info.attr == Seq::<Quality>::empty(),
            r@.loc == Coord(0, 0),
            r@.items == Seq::<Item>::empty(),
            r@.clothing == Seq::<Item>::empty(),
            r@.souls == Seq::<SoulKind>::empty(),
            !r@.connected,
            !r@.fighting,
            r@.stats == Seq::<MeterKind>::empty(),
            r@.status == Seq::<PlayerStatus>::empty(),
    {
        PlayerType::Dummy(Player::blank())
    }
}

impl PlayerType {
    fn safe_unwrap(&self) -> (r: &Player)
        ensures
            *r == spec_inner_player(*self),
    {
        match self {
            PlayerType::Human(h) => h,
            PlayerType::Npc(npc) => npc.player(),
            PlayerType::Dummy(p) => p,
        }
    }

    fn safe_unwrap_mut(&mut self) -> (r: &mut Player)
        ensures
            *r == spec_inner_player(*old(self)),
            *final(self) == spec_with_player(*old(self), *final(r)),
    {
        match self {
            PlayerType::Human(h) => h,
            PlayerType::Npc(npc) => npc.player_mut(),
            PlayerType::Dummy(p) => p,
        }
    }

    /// The player inside.
    pub fn player(&self) -> (r: &Player)
        ensures
            *r == spec_inner_player(*self),
    {
        self.safe_unwrap()
    }

    /// The player inside, to change; the kind stays.
    pub fn player_mut(&mut self) -> (r: &mut Player)
        ensures
            *r == spec_inner_player(*old(self)),
            *final(self) == spec_with_player(*old(self), *final(r)),
    {
        self.safe_unwrap_mut()
    }

    /// A new human player whose client connection the caller holds.
    pub fn new_with_stream() -> (r: Self)
        ensures
            r is Human,
            r@.connected,
            0 < r@.uuid < u128::MAX,
            r@.info.info.name == Seq::<char>::empty(),
            r@.info.info.display == Seq::<char>::empty(),
            r@.info.info.description == Seq::<char>::empty(),
            r@.info.info.handle == Seq::<Seq<char>>::empty(),
            r@.info.attr == Seq::<Quality>::empty(),
            r@.items == Seq::<Item>::empty(),
            r@.clothing == Seq::<Item>::empty(),
            r@.souls == Seq::<SoulKind>::empty(),
            !r@.fighting,
            r@.status == Seq::<PlayerStatus>::empty(),
            r@.loc == Coord(0, 0),
            r@.stats == seq![
                MeterKind::Hit(Meter(100, 100)),
                MeterKind::Movement(Meter(100, 100)),
                MeterKind::Mana(Meter(100, 100)),
            ],
    {
        let mut p = Player::new();
        p.assign_stream();
        PlayerType::Human(p)
    }

    /// A player read from a map file: a character the game moves where it
    /// names a behaviour, else a human player.
    pub fn from_yaml(other: YamlPlayer) -> (r: Self)
        ensures
            r@.info.info == other.info@,
            r@.info.attr == Seq::<Quality>::empty(),
            r@.loc == other.loc,
            r@.items == Seq::<Item>::empty(),
            r@.clothing == Seq::<Item>::empty(),
            r@.souls == Seq::<SoulKind>::empty(),
            !r@.connected,
            !r@.fighting,
            r@.stats == seq![
                MeterKind::Hit(Meter(100, 100)),
                MeterKind::Movement(Meter(100, 100)),
                MeterKind::Mana(Meter(100, 100)),
            ],
            r@.status == Seq::<PlayerStatus>::empty(),
            0 < r@.uuid < u128::MAX,
            match other.ai_type {
                Some(t) => r matches PlayerType::Npc(n) && n.ai_type == Some(t),
                None => r is Human,
            },
    {
        let mut p = Player::new();
        let YamlPlayer { info, ai_type, loc } = other;
        p.info = DescriptionWithQualities { info, attr: Vec::new() };
        p.loc = loc;
        match ai_type {
            Some(t) => PlayerType::Npc(Npc::new(p, t)),
            None => PlayerType::Human(p),
        }
    }

    /// Names the player (see `Player::set_name`); the kind stays.
    pub fn set_name(&mut self, name: &str)
        ensures
            final(self)@ == spec_renamed(old(self)@, name@),
            same_kind(*old(self), *final(self)),
    {
        self.safe_unwrap_mut().set_name(name);
    }

    /// Takes `amt` from the hit points.
    pub fn hurt(&mut self, amt: usize)
        requires
            first_hit(old(self)@.stats) is Some,
            amt <= i64::MAX,
            spec_hp(old(self)@.stats) - amt >= i64::MIN,
        ensures
            first_hit(final(self)@.stats) == first_hit(old(self)@.stats),
            spec_hp(final(self)@.stats) == spec_hp(old(self)@.stats) - amt,
            final(self)@.uuid == old(self)@.uuid,
            final(self)@.loc == old(self)@.loc,
            final(self)@.status == old(self)@.status,
            final(self)@.stats.len() == old(self)@.stats.len(),
            final(self)@ == (PlayerView { stats: spec_hurt(old(self)@.stats, amt as int), ..old(self)@ }),
            *final(self) == spec_with_player(*old(self), spec_inner_player(*final(self))),
    {
        proof {
            lemma_first_hit(self@.stats);
        }
        self.safe_unwrap_mut().hurt(amt);
        proof {
            let i = first_hit(old(self)@.stats)->0;
            let s = self@.stats;
            lemma_first_hit(s);
            assert(s[i] is Hit);
            assert forall|j: int| 0 <= j < i implies !(s[j] is Hit) by {
                assert(s[j] == old(self)@.stats[j]);
            }
            match first_hit(s) {
                Some(k) => {
                    if k < i {
                    } else if k > i {
                    }
                },
                None => {},
            }
        }
    }

    pub fn hp(&self) -> (r: i64)
        requires
            first_hit(self@.stats) is Some,
        ensures
            r == spec_hp(self@.stats),
    {
        self.safe_unwrap().hp()
    }

    pub fn set_loc(&mut self, new_loc: Coord)
        ensures
            final(self)@ == (PlayerView { loc: new_loc, ..old(self)@ }),
            spec_with_player(*old(self), spec_inner_player(*final(self))) == *final(self),
    {
        self.safe_unwrap_mut().set_loc(new_loc);
    }

    pub fn clothing(&self) -> (r: &List<Item, Quality>)
        ensures
            r.spec_inner() == self@.clothing,
    {
        self.safe_unwrap().clothing()
    }

    pub fn stats(&self) -> (r: &[MeterKind])
        ensures
            r@ == self@.stats,
    {
        self.safe_unwrap().stats()
    }

    pub fn is_connected(&self) -> (r: ConnectionStatus)
        ensures
            r == match *self {
                PlayerType::Npc(_) => ConnectionStatus::Npc,
                PlayerType::Human(p) => if p@.connected {
                    ConnectionStatus::Connected
                } else {
                    ConnectionStatus::Disconnected
                },
                PlayerType::Dummy(_) => ConnectionStatus::Nothing,
            },
    {
        match self {
            PlayerType::Npc(_) => ConnectionStatus::Npc,
            PlayerType::Human(p) => {
                if p.connected {
                    ConnectionStatus::Connected
                } else {
                    ConnectionStatus::Disconnected
                }
            },
            PlayerType::Dummy(_) => ConnectionStatus::Nothing,
        }
    }

    pub fn drop_stream(&mut self)
        ensures
            final(self)@ == (PlayerView { connected: false, ..old(self)@ }),
            *final(self) == spec_with_player(*old(self), spec_inner_player(*final(self))),
    {
        self.safe_unwrap_mut().drop_stream();
    }

    pub fn assign_fight_sender(&mut self)
        ensures
            final(self)@ == (PlayerView { fighting: true, ..old(self)@ }),
            same_kind(*old(self), *final(self)),
    {
        self.safe_unwrap_mut().assign_fight_sender();
    }

    /// Leaves the current fight; answers whether the fight must be told.
    pub fn leave_fight(&mut self) -> (r: bool)
        ensures
            r == old(self)@.fighting,
            final(self)@ == (PlayerView { fighting: false, ..old(self)@ }),
            same_kind(*old(self), *final(self)),
    {
        self.safe_unwrap_mut().leave_fight()
    }
}

impl Describe for PlayerType {
    open spec fn spec_name(&self) -> Seq<char> {
        self@.info.info.name
    }

    open spec fn spec_display(&self) -> Seq<char> {
        self@.info.info.display
    }

    open spec fn spec_description(&self) -> Seq<char> {
        self@.info.info.description
    }

    open spec fn spec_handle(&self) -> Seq<Seq<char>> {
        self@.info.info.handle
    }

    fn name(&self) -> (r: String) {
        self.safe_unwrap().info().name()
    }

    fn display(&self) -> (r: String) {
        self.safe_unwrap().info().display()
    }

    fn description(&self) -> (r: String) {
        self.safe_unwrap().info().description()
    }

    fn handle(&self) -> (r: Hook) {
        self.safe_unwrap().info().handle()
    }
}

impl Locate for PlayerType {
    open spec fn spec_loc(&self) -> Coord {
        self@.loc
    }

    fn loc(&self) -> (r: Coord) {
        self.safe_unwrap().loc()
    }
}

impl Uuid for PlayerType {
    open spec fn uuid_view(&self) -> u128 {
        self@.uuid
    }

    open spec fn others_view(&self) -> Seq<u128> {
        Seq::empty()
    }

    fn uuid(&self) -> (r: u128) {
        self.safe_unwrap().uuid()
    }

    fn others(&self) -> (r: Vec<u128>) {
        Vec::new()
    }
}

impl Attribute<PlayerStatus> for PlayerType {
    open spec fn attr_view(&self) -> Seq<PlayerStatus> {
        self@.status
    }

    open spec fn holds_attrs(&self) -> bool {
        true
    }

    fn attr(&self) -> (r: Vec<PlayerStatus>) {
        self.safe_unwrap().status().clone()
    }

    fn set_attr(&mut self, q: PlayerStatus)
        ensures
            final(self)@ == (PlayerView { status: old(self)@.status.push(q), ..old(self)@ }),
            *final(self) == spec_with_player(*old(self), spec_inner_player(*final(self))),
    {
        self.safe_unwrap_mut().set_status(q);
    }

    fn unset_attr(&mut self, q: PlayerStatus)
        ensures
            final(self)@ == (PlayerView { status: remove_first(old(self)@.status, q), ..old(self)@ }),
            same_kind(*old(self), *final(self)),
    {
        self.safe_unwrap_mut().unset_status(q);
    }

    fn is(&self, a: PlayerStatus) -> (r: bool) {
        proof {
            lemma_index_of(self@.status, a);
        }
        match status_position(self.safe_unwrap().status(), a) {
            Some(_) => true,
            None => false,
        }
    }

    fn is_all(&self, ats: &[PlayerStatus]) -> (r: bool) {
        let mut i: usize = 0;
        while i < ats.len()
            invariant
                i <= ats@.len(),
                forall|j: int| 0 <= j < i ==> self@.status.contains(#[trigger] ats@[j]),
            decreases ats@.len() - i,
        {
            if !self.is(ats[i]) {
                return false;
            }
            i = i + 1;
        }
        true
    }
}

impl ListTrait for PlayerType {
    type Item = Item;

    open spec fn items_view(&self) -> Seq<Item> {
        self@.items
    }

    fn get_item(&self, handle: Grabber) -> (r: Option<&Item>) {
        self.safe_unwrap().items().get_item(handle)
    }

    fn get_item_owned(&mut self, handle: Grabber) -> (r: Result<Item, EnnuiError>)
        ensures
            final(self)@ == (PlayerView { items: final(self)@.items, ..old(self)@ }),
            *final(self) == spec_with_player(*old(self), spec_inner_player(*final(self))),
    {
        self.safe_unwrap_mut().items_mut().get_item_owned(handle)
    }

    open spec fn spec_accepts(&self, item: Item) -> bool {
        true
    }

    open spec fn spec_items_after_insert(&self, item: Item) -> Seq<Item> {
        self@.items.push(item)
    }

    fn insert_item(&mut self, item: Item) -> (r: Result<(), Item>)
        ensures
            r is Ok,
            final(self)@ == (PlayerView { items: old(self)@.items.push(item), ..old(self)@ }),
            *final(self) == spec_with_player(*old(self), spec_inner_player(*final(self))),
    {
        self.safe_unwrap_mut().items_mut().insert_item(item)
    }

    fn list(&self) -> (r: Vec<&Item>) {
        self.safe_unwrap().items().list()
    }

    fn display_items(&self) -> (r: String) {
        self.safe_unwrap().items().display_items()
    }
}

} // verus!
