//! What the commands of players do.
use vstd::prelude::*;
use crate::map::list::RoomListTrait;
use crate::attribute::{Attribute, Quality};
use crate::describe::Describe;
use crate::error::{is_fatal, is_msg, EnnuiError, Simple};
use crate::hook::{is_all_form, spec_grab, Grabber};
use crate::item::Item;
use crate::list::{join_lines, nth_answering, List, ListTrait};
use crate::location::{Coord, Locate};
use crate::map::list::interior;
use crate::map::{Room, Space};
use crate::obstacle::door::{spec_door_unlock, DoorState, DoorStateView};
use crate::player::{PlayerType, Uuid};
use crate::text::{article, green_code, spec_article, spec_paint, Color};
use crate::text::strings::{concat2, concat3};
use super::{output_view, spec_message, Game, GameOutput};
use crate::text::message::opt_view;
use super::item::first_named;
use super::movement::room_ids;
use crate::interpreter::CommandKind as C;

verus! {

/// The lines under "you are holding:": one per item, its name with its
/// article, in green.
pub open spec fn spec_inventory_lines(items: Seq<Item>) -> Seq<char>
    decreases items.len(),
{
    if items.len() == 0 {
        Seq::empty()
    } else {
        spec_inventory_lines(items.drop_last()) + seq!['\n'] + spec_paint(green_code(), spec_article(items.last().spec_name()))
    }
}

/// The names of the items with their articles.
pub open spec fn article_names(items: Seq<Item>) -> Seq<Seq<char>> {
    items.map_values(|i: Item| spec_article(i.spec_name()))
}

/// The item lines under a player's description: one per item, a new line
/// and its name with its article.
pub open spec fn spec_held_lines(items: Seq<Item>) -> Seq<char>
    decreases items.len(),
{
    if items.len() == 0 {
        Seq::empty()
    } else {
        spec_held_lines(items.drop_last()) + seq!['\n'] + spec_article(items.last().spec_name())
    }
}

/// How an item looks close up: its description, and for a container what
/// it holds.
pub open spec fn spec_item_closeup(item: Item) -> Seq<char> {
    match item {
        Item::Container(l) => item.spec_description() + "\nthe "@ + item.spec_name() + " is holding:\n"@
            + spec_paint(green_code(), join_lines(article_names(l.spec_inner()))),
        _ => item.spec_description(),
    }
}

/// What player `u` sees when it looks at `handle`: an item of its room
/// close up, else the description of an item it holds.
pub open spec fn spec_describe_item(players: Map<u128, PlayerType>, rooms: Map<Coord, Room>, u: u128, handle: Seq<char>) -> Option<Seq<char>> {
    if !players.contains_key(u) || !rooms.contains_key(players[u]@.loc) {
        None
    } else {
        let g = spec_grab(handle);
        let room = rooms[players[u]@.loc]@;
        match nth_answering(room.items, g.0, g.1) {
            Some(i) => Some(spec_item_closeup(room.items[i])),
            None => match nth_answering(players[u]@.items, g.0, g.1) {
                Some(j) => Some(players[u]@.items[j].spec_description()),
                None => None,
            },
        }
    }
}

/// How another player looks: its description, then what it holds.
pub open spec fn spec_player_closeup(p: PlayerType) -> Seq<char> {
    p@.info.info.description + "\n"@ + p@.info.info.name + " is holding:"@
        + spec_paint(green_code(), spec_held_lines(p@.items))
}

/// The names of the items of a list, each with its article.
fn article_list(l: &List<Item, Quality>) -> (r: Vec<String>)
    ensures
        r@.map_values(|s: String| s@) == article_names(l.spec_inner()),
{
    let mut v: Vec<String> = Vec::new();
    let mut i: usize = 0;
    while i < l.len()
        invariant
            i <= l.spec_inner().len(),
            v@.len() == i,
            v@.map_values(|s: String| s@) == article_names(l.spec_inner().subrange(0, i as int)),
        decreases l.spec_inner().len() - i,
    {
        let a = article(l.item_at(i).name().as_str());
        let ghost before = v@;
        v.push(a);
        proof {
            let x = v@.map_values(|s: String| s@);
            let y = article_names(l.spec_inner().subrange(0, i + 1));
            assert forall|j: int| 0 <= j < x.len() implies x[j] == y[j] by {
                if j < i {
                    assert(x[j] == before.map_values(|s: String| s@)[j]);
                    assert(y[j] == article_names(l.spec_inner().subrange(0, i as int))[j]);
                }
            }
            assert(x =~= y);
        }
        i = i + 1;
    }
    assert(l.spec_inner().subrange(0, l.spec_inner().len() as int) =~= l.spec_inner());
    v
}

/// How an item looks close up.
fn item_closeup(item: &Item) -> (r: String)
    ensures
        r@ == spec_item_closeup(*item),
{
    let mut s = item.description();
    match item {
        Item::Container(lst) => {
            let head = concat3("\nthe ", item.name().as_str(), " is holding:\n");
            s.append(head.as_str());
            let lines = article_list(lst);
            let joined = crate::list::join_with_newlines(&lines);
            let green = Color::Green(joined).render();
            s.append(green.as_str());
        },
        _ => {},
    }
    s
}

/// Words joined by single spaces.
pub open spec fn spec_join_spaces(words: Seq<Seq<char>>) -> Seq<char>
    decreases words.len(),
{
    if words.len() == 0 {
        Seq::empty()
    } else if words.len() == 1 {
        words[0]
    } else {
        spec_join_spaces(words.drop_last()) + seq![' '] + words.last()
    }
}

/// Joins words with single spaces.
pub fn join_spaces(words: &[&str]) -> (r: String)
    ensures
        r@ == spec_join_spaces(crate::interpreter::strs_view(words@)),
{
    let ghost v = crate::interpreter::strs_view(words@);
    let mut r = String::new();
    let mut i: usize = 0;
    while i < words.len()
        invariant
            i <= words@.len(),
            v == crate::interpreter::strs_view(words@),
            r@ == spec_join_spaces(v.subrange(0, i as int)),
        decreases words@.len() - i,
    {
        proof {
            reveal_strlit(" ");
        }
        if i > 0 {
            r.append(" ");
        }
        r.append(words[i]);
        proof {
            let a = v.subrange(0, i + 1);
            assert(a.drop_last() =~= v.subrange(0, i as int));
            assert(a.last() == words@[i as int]@);
            assert(r@ =~= spec_join_spaces(a));
        }
        i = i + 1;
    }
    assert(v.subrange(0, words@.len() as int) =~= v);
    r
}

/// The name of what a gauge measures, as `Debug` writes it.
pub open spec fn spec_kind_debug(k: crate::player::meter::MeterKind) -> Seq<char> {
    match k {
        crate::player::meter::MeterKind::Hit(_) => "Hit"@,
        crate::player::meter::MeterKind::Mana(_) => "Mana"@,
        crate::player::meter::MeterKind::Movement(_) => "Movement"@,
        crate::player::meter::MeterKind::Strength(_) => "Strength"@,
        crate::player::meter::MeterKind::Dexterity(_) => "Dexterity"@,
        crate::player::meter::MeterKind::Weight(_) => "Weight"@,
        crate::player::meter::MeterKind::Height(_) => "Height"@,
    }
}

/// A gauge as the pretty `Debug` format writes it.
pub open spec fn spec_meter_debug(k: crate::player::meter::MeterKind) -> Seq<char> {
    let m = crate::player::meter::spec_meter(k);
    spec_kind_debug(k) + "(\n    Meter(\n        "@ + crate::text::parse::spec_decimal(m.0 as int)
        + ",\n        "@ + crate::text::parse::spec_decimal(m.1 as int) + ",\n    ),\n)"@
}

/// The gauges of a player, one after the other, as the pretty `Debug`
/// format writes them.
pub open spec fn spec_stats_debug(stats: Seq<crate::player::meter::MeterKind>) -> Seq<char>
    decreases stats.len(),
{
    if stats.len() == 0 {
        Seq::empty()
    } else {
        spec_stats_debug(stats.drop_last()) + spec_meter_debug(stats.last())
    }
}

fn kind_debug(k: &crate::player::meter::MeterKind) -> (r: &'static str)
    ensures
        r@ == spec_kind_debug(*k),
{
    match k {
        crate::player::meter::MeterKind::Hit(_) => "Hit",
        crate::player::meter::MeterKind::Mana(_) => "Mana",
        crate::player::meter::MeterKind::Movement(_) => "Movement",
        crate::player::meter::MeterKind::Strength(_) => "Strength",
        crate::player::meter::MeterKind::Dexterity(_) => "Dexterity",
        crate::player::meter::MeterKind::Weight(_) => "Weight",
        crate::player::meter::MeterKind::Height(_) => "Height",
    }
}

fn meter_debug(k: &crate::player::meter::MeterKind) -> (r: String)
    ensures
        r@ == spec_meter_debug(*k),
{
    let a = crate::text::parse::format_i64(k.current());
    let b = crate::text::parse::format_i64(k.max());
    let mut s = concat3(kind_debug(k), "(\n    Meter(\n        ", a.as_str());
    s.append(",\n        ");
    s.append(b.as_str());
    s.append(",\n    ),\n)");
    s
}

/// The reply that the sender reads alone.
pub open spec fn spec_reply_to(u: u128, text: Seq<char>) -> (Option<u128>, Option<u128>, Seq<u128>, Seq<char>, Option<Seq<char>>, Option<Seq<char>>) {
    super::spec_reply(u, text)
}

/// The answer to the sender and the onlookers of a room.
pub open spec fn spec_room_answer(u: u128, others: Seq<u128>, text: Seq<char>, oth: Option<Seq<char>>) -> (Option<u128>, Option<u128>, Seq<u128>, Seq<char>, Option<Seq<char>>, Option<Seq<char>>) {
    spec_message(super::movement::sender_of(u), None, others, text, None, oth)
}

/// The players of a room other than `u`.
pub open spec fn onlookers(rooms: Map<Coord, Room>, loc: Coord, u: u128) -> Seq<u128> {
    room_ids(rooms, loc).filter(crate::player::list::not_id(u))
}

/// No name stands for the empty name.
pub open spec fn name_or_empty_none() -> bool {
    super::item::name_or_empty(None) == Seq::<char>::empty()
}

/// The words that a command keeps once `skip` is left out.
pub open spec fn words_without(args: Seq<&str>, skip: Seq<char>) -> Seq<Seq<char>> {
    crate::interpreter::strs_view(args).filter(|w: Seq<char>| w != skip)
}

/// What `take` answers with one word, from the result of the transfer.
pub open spec fn spec_take_text(tr: Result<String, EnnuiError>, handle: Seq<char>, name: Seq<char>) -> (Seq<char>, Option<Seq<char>>) {
    match tr {
        Ok(h) => ("you take the "@ + h@, Some(name + " picks up a "@ + spec_article(h@))),
        Err(EnnuiError::Simple(Simple::TooHeavy)) => ("you can't pick up "@ + spec_article(handle) + ". It's too heavy"@, None),
        Err(_) => ("you don't see "@ + spec_article(handle) + " here"@, None),
    }
}

/// What `drop` answers, from the result of the transfer.
pub open spec fn spec_drop_text(tr: Result<String, EnnuiError>, handle: Seq<char>, name: Seq<char>) -> (Seq<char>, Option<Seq<char>>) {
    match tr {
        Ok(h) => ("you drop the "@ + h@, Some(name + " drops "@ + spec_article(h@))),
        Err(_) => ("you don't see "@ + spec_article(handle) + " here"@, None),
    }
}

/// What `remove` answers, from the result of the transfer.
pub open spec fn spec_remove_text(tr: Result<String, EnnuiError>, handle: Seq<char>, name: Seq<char>) -> (Seq<char>, Option<Seq<char>>) {
    match tr {
        Ok(h) => ("you take off the "@ + h@, Some(name + " takes off "@ + spec_article(h@))),
        Err(_) => ("you're not wearing "@ + spec_article(handle), None),
    }
}

/// What `wear` answers, from the result of the transfer; `None` where the
/// command fails.
pub open spec fn spec_wear_text(tr: Result<String, EnnuiError>, handle: Seq<char>, name: Seq<char>) -> Option<(Seq<char>, Option<Seq<char>>)> {
    match tr {
        Ok(n) => Some(("you wear the "@ + handle, Some(name + " puts on "@ + spec_article(n@)))),
        Err(EnnuiError::Simple(Simple::NotClothing)) => Some(("you can't wear "@ + spec_article(handle) + "!"@, None)),
        Err(EnnuiError::Simple(Simple::ItemNotFound)) => Some(("you're not holding "@ + spec_article(handle), None)),
        Err(EnnuiError::Msg(m)) => Some((m@, None)),
        _ => None,
    }
}

/// Where taking `object` out of `container` in a room finds them: the
/// position of the container among the room's items and, if it is a
/// container, the position of the object in it.
pub open spec fn spec_find_in_container(items: Seq<Item>, object: Seq<char>, container: Seq<char>) -> Option<(int, Option<Option<int>>)> {
    let gc = spec_grab(container);
    let go = spec_grab(object);
    match nth_answering(items, gc.0, gc.1) {
        None => None,
        Some(j) => match items[j] {
            Item::Container(c) => Some((j, Some(nth_answering(c.spec_inner(), go.0, go.1)))),
            _ => Some((j, None)),
        },
    }
}

/// What taking `object` out of `container` does and answers.
pub open spec fn spec_take_from_post(
    rooms0: Map<Coord, Room>,
    players0: Map<u128, PlayerType>,
    rooms1: Map<Coord, Room>,
    players1: Map<u128, PlayerType>,
    u: u128,
    loc: Coord,
    name: Seq<char>,
    object: Seq<char>,
    container: Seq<char>,
    text: Seq<char>,
    other: Option<Seq<char>>,
) -> bool {
    let items0 = rooms0[loc]@.items;
    let unchanged = rooms1 == rooms0 && players1 == players0;
    match spec_find_in_container(items0, object, container) {
        None => unchanged && text == "you don't see "@ + spec_article(container) + " here"@ && other is None,
        Some((j, None)) => unchanged && text == spec_article(container) + " is not a container!"@ && other is None,
        Some((j, Some(None))) => unchanged && text == "you don't see "@ + spec_article(object) + " in the "@ + container && other is None,
        Some((j, Some(Some(k)))) => {
            let c0 = items0[j]->Container_0;
            let item = c0.spec_inner()[k];
            &&& text == "you take the "@ + item.spec_name()
            &&& other == Some(name + " takes "@ + spec_article(object) + " from "@ + spec_article(container))
            &&& rooms1 == rooms0.insert(loc, rooms1[loc])
            &&& rooms1[loc]@ == (crate::map::RoomView { items: items0.update(j, rooms1[loc]@.items[j]), ..rooms0[loc]@ })
            &&& rooms1[loc]@.items[j] matches Item::Container(c1) && c1.spec_inner() == c0.spec_inner().remove(k)
            &&& players1 == players0.insert(u, players1[u])
            &&& players1[u]@ == (crate::player::PlayerView { items: players0[u]@.items.push(item), ..players0[u]@ })
        },
    }
}

/// What `give` answers, from the result of the transfer: the giver reads
/// its text, and the receiver, found in the giver's room after the gift,
/// is told what it got.
pub open spec fn spec_give_outcome(
    tr: Result<String, EnnuiError>,
    r: Result<GameOutput, EnnuiError>,
    u: u128,
    handle: Seq<char>,
    other: Seq<char>,
    name: Seq<char>,
    players1: Map<u128, PlayerType>,
    rooms1: Map<Coord, Room>,
    loc: Coord,
) -> bool {
    let reply = |text: Seq<char>| r matches Ok(o) && output_view(o) == spec_room_answer(u, Seq::empty(), text, None);
    match tr {
        Ok(h) => match first_named(players1, room_ids(rooms1, loc), other) {
            Some(id) => r matches Ok(o) && output_view(o) == spec_room_answer(u, seq![id],
                "you give "@ + other + " "@ + spec_article(h@), Some(name + " gives you "@ + spec_article(h@))),
            None => r matches Err(e) && e is NoneFound,
        },
        Err(EnnuiError::Simple(Simple::ItemNotFound)) => reply("you're not holding "@ + spec_article(handle)),
        Err(EnnuiError::Simple(Simple::TooHeavy)) => reply("you fail in your effort. "@ + spec_article(handle) + " is too heavy for them to carry"@),
        Err(EnnuiError::Simple(Simple::PlayerNotFound)) => reply("there's no-one by that name here"@),
        Err(EnnuiError::Fatal(m)) => r matches Err(e) && is_fatal(e, m@),
        Err(EnnuiError::Msg(m)) => reply(m@),
        Err(_) => r matches Err(e) && is_fatal(e, "GIVE: SHOULD BE UNREACHABLE"@),
    }
}

/// What an attempt to open a door answers.
pub open spec fn spec_open_text(r: Result<(), DoorStateView>) -> Seq<char> {
    match r {
        Ok(()) => "the door swings open"@,
        Err(DoorStateView::Locked) => "that door is locked"@,
        Err(DoorStateView::Open) => "it's already open"@,
        Err(DoorStateView::MagicallySealed) => "it's sealed by some unfamiliar magic"@,
        Err(DoorStateView::PermaLocked) => "it ain't gonna budge"@,
        Err(_) => "wtf"@,
    }
}

/// What an attempt to unlock a door answers when no key turned.
pub open spec fn spec_stuck_text(s: DoorStateView) -> Seq<char> {
    match s {
        DoorStateView::Locked => "you don't have the proper key"@,
        DoorStateView::Closed => "you've already unlocked it"@,
        DoorStateView::Open => "it's already open"@,
        DoorStateView::MagicallySealed => "it's sealed by some unfamiliar magic"@,
        DoorStateView::PermaLocked => "it ain't gonna budge"@,
        _ => "wtf"@,
    }
}

/// A key fits a keyhole; any key fits where there is none.
pub open spec fn key_fits_hole(item: Item, keyhole: Option<u64>) -> bool {
    item matches Item::Key(k) && (keyhole is None || keyhole == Some(k.key))
}

/// Some key among the items fits.
pub open spec fn has_fitting_key(items: Seq<Item>, keyhole: Option<u64>) -> bool {
    exists|j: int| 0 <= j < items.len() && key_fits_hole(#[trigger] items[j], keyhole)
}

/// Whether trying the player's keys one after the other unlocks a door in
/// state `cur`: an open or closed door stays as it is; another door turns
/// closed when some key fits.
pub open spec fn spec_unlocks(cur: DoorStateView, keyhole: Option<u64>, items: Seq<Item>) -> bool {
    cur != DoorStateView::Closed && cur != DoorStateView::Open && has_fitting_key(items, keyhole)
}

/// The room with the door at position `i` in state `s`, and all else as
/// it was.
pub open spec fn door_now(r0: Room, r1: Room, i: int, s: DoorStateView) -> bool {
    &&& r1@.doors.len() == r0@.doors.len()
    &&& forall|j: int| 0 <= j < r0@.doors.len() && j != i ==> r1@.doors[j] == r0@.doors[j]
    &&& r1@.doors[i].spec_state() == s
    &&& r1@.doors[i].spec_dir() == r0@.doors[i].spec_dir()
    &&& r1@.doors[i].spec_keyhole() == r0@.doors[i].spec_keyhole()
    &&& r1@.doors[i].spec_alt_dest() == r0@.doors[i].spec_alt_dest()
    &&& r1@.info == r0@.info
    &&& r1@.loc == r0@.loc
    &&& r1@.players == r0@.players
    &&& r1@.items == r0@.items
}

/// Tries to open the door at position `i` of the room.
pub fn try_door_open(name: &str, other_msg: &mut Option<String>, room: &mut Room, i: usize) -> (r: String)
    requires
        i < old(room)@.doors.len(),
    ensures
        ({
            let d0 = old(room)@.doors[i as int];
            let out = spec_door_unlock(d0.spec_state(), d0.spec_keyhole(), DoorStateView::Open, None);
            &&& door_now(*old(room), *final(room), i as int, out.0)
            &&& r@ == spec_open_text(out.1)
            &&& if out.1 is Ok {
                *final(other_msg) matches Some(m) && m@ == name@ + " opens a door"@
            } else {
                *final(other_msg) == *old(other_msg)
            }
        }),
{
    match room.unlock_door(i, DoorState::Open, None) {
        Ok(()) => {
            *other_msg = Some(concat2(name, " opens a door"));
            String::from_str("the door swings open")
        },
        Err(DoorState::Locked) => String::from_str("that door is locked"),
        Err(DoorState::Open) => String::from_str("it's already open"),
        Err(DoorState::MagicallySealed) => String::from_str("it's sealed by some unfamiliar magic"),
        Err(DoorState::PermaLocked) => String::from_str("it ain't gonna budge"),
        Err(_) => String::from_str("wtf"),
    }
}

/// Tries the keys of the player, one after the other, on the door at
/// position `i` of the room.
pub fn try_door_unlock(name: &str, other_msg: &mut Option<String>, player: &PlayerType, room: &mut Room, i: usize) -> (r: String)
    requires
        i < old(room)@.doors.len(),
    ensures
        ({
            let d0 = old(room)@.doors[i as int];
            if spec_unlocks(d0.spec_state(), d0.spec_keyhole(), player@.items) {
                &&& door_now(*old(room), *final(room), i as int, DoorStateView::Closed)
                &&& r@ == "*click*"@
                &&& *final(other_msg) matches Some(m) && m@ == name@ + " unlocks a door"@
            } else {
                &&& door_now(*old(room), *final(room), i as int, d0.spec_state())
                &&& r@ == spec_stuck_text(d0.spec_state())
                &&& *final(other_msg) == *old(other_msg)
            }
        }),
{
    let items = player.player().items();
    let ghost d0 = room@.doors[i as int];
    let mut unlocked = false;
    let mut j: usize = 0;
    while j < items.len()
        invariant
            j <= items.spec_inner().len(),
            items.spec_inner() == player@.items,
            i < room@.doors.len(),
            !unlocked ==> door_now(*old(room), *room, i as int, d0.spec_state()),
            !unlocked ==> forall|m: int| 0 <= m < j ==> !(d0.spec_state() != DoorStateView::Closed && d0.spec_state() != DoorStateView::Open
                && key_fits_hole(#[trigger] items.spec_inner()[m], d0.spec_keyhole())),
            unlocked ==> spec_unlocks(d0.spec_state(), d0.spec_keyhole(), player@.items) && door_now(*old(room), *room, i as int, DoorStateView::Closed),
            d0 == old(room)@.doors[i as int],
        ensures
            !unlocked ==> j == items.spec_inner().len(),
            j <= items.spec_inner().len(),
            !unlocked ==> door_now(*old(room), *room, i as int, d0.spec_state()),
            !unlocked ==> forall|m: int| 0 <= m < j ==> !(d0.spec_state() != DoorStateView::Closed && d0.spec_state() != DoorStateView::Open
                && key_fits_hole(#[trigger] items.spec_inner()[m], d0.spec_keyhole())),
            unlocked ==> spec_unlocks(d0.spec_state(), d0.spec_keyhole(), player@.items) && door_now(*old(room), *room, i as int, DoorStateView::Closed),
        decreases items.spec_inner().len() - j,
    {
        match items.item_at(j) {
            Item::Key(k) => {
                let res = room.unlock_door(i, DoorState::Closed, Some(k));
                if res.is_ok() {
                    unlocked = true;
                    proof {
                        assert(key_fits_hole(items.spec_inner()[j as int], d0.spec_keyhole()));
                    }
                    break;
                }
            },
            _ => {},
        }
        j = j + 1;
    }
    if unlocked {
        *other_msg = Some(concat2(name, " unlocks a door"));
        return String::from_str("*click*");
    }
    proof {
        if spec_unlocks(d0.spec_state(), d0.spec_keyhole(), player@.items) {
            let m = choose|m: int| 0 <= m < player@.items.len() && key_fits_hole(#[trigger] player@.items[m], d0.spec_keyhole());
            assert(items.spec_inner()[m] == player@.items[m]);
            assert(key_fits_hole(items.spec_inner()[m], d0.spec_keyhole()));
            assert(false);
        }
    }
    let st = room.doors().get_state_at(i);
    match st {
        DoorState::Locked => String::from_str("you don't have the proper key"),
        DoorState::Closed => String::from_str("you've already unlocked it"),
        DoorState::Open => String::from_str("it's already open"),
        DoorState::MagicallySealed => String::from_str("it's sealed by some unfamiliar magic"),
        DoorState::PermaLocked => String::from_str("it ain't gonna budge"),
        _ => String::from_str("wtf"),
    }
}

/// The position of the door in direction `dir`, if there is one (doors of
/// a room lie in distinct directions).
pub open spec fn door_index(doors: Seq<crate::obstacle::door::Door>, dir: crate::location::direction::MapDir) -> Option<int> {
    if exists|i: int| 0 <= i < doors.len() && doors[i].spec_dir() == dir {
        Some(choose|i: int| 0 <= i < doors.len() && doors[i].spec_dir() == dir)
    } else {
        None
    }
}

/// What opening the door at position `i` of the room at `loc` does and
/// answers, for player `u` called `name`.
pub open spec fn spec_opened(
    rooms0: Map<Coord, Room>,
    rooms1: Map<Coord, Room>,
    loc: Coord,
    i: int,
    u: u128,
    name: Seq<char>,
    o: GameOutput,
) -> bool {
    let r0 = rooms0[loc];
    let d0 = r0@.doors[i];
    let out = spec_door_unlock(d0.spec_state(), d0.spec_keyhole(), DoorStateView::Open, None);
    &&& rooms1 == rooms0.insert(loc, rooms1[loc])
    &&& door_now(r0, rooms1[loc], i, out.0)
    &&& output_view(o) == spec_room_answer(u, r0@.players.filter(crate::player::list::not_id(u)), spec_open_text(out.1),
        if out.1 is Ok { Some(name + " opens a door"@) } else { None })
}

/// What unlocking the door at position `i` of the room at `loc` does and
/// answers, for player `u` called `name` holding `items`.
pub open spec fn spec_unlocked(
    rooms0: Map<Coord, Room>,
    rooms1: Map<Coord, Room>,
    loc: Coord,
    i: int,
    u: u128,
    name: Seq<char>,
    items: Seq<Item>,
    o: GameOutput,
) -> bool {
    let r0 = rooms0[loc];
    let d0 = r0@.doors[i];
    let turns = spec_unlocks(d0.spec_state(), d0.spec_keyhole(), items);
    &&& rooms1 == rooms0.insert(loc, rooms1[loc])
    &&& door_now(r0, rooms1[loc], i, if turns { DoorStateView::Closed } else { d0.spec_state() })
    &&& output_view(o) == spec_room_answer(u, r0@.players.filter(crate::player::list::not_id(u)),
        if turns { "*click*"@ } else { spec_stuck_text(d0.spec_state()) },
        if turns { Some(name + " unlocks a door"@) } else { None })
}

/// What `cmd_say` does and answers.
pub open spec fn spec_cmd_say_post(g0: Game, g1: Game, u: u128, a: Seq<&str>, r: Result<GameOutput, EnnuiError>) -> bool {
    &&& (match r {
        Err(e) => !g0.spec_players().contains_key(u) && is_fatal(e, "PLAYER NOT FOUND"@),
        Ok(o) => g0.spec_players().contains_key(u) && {
            let p = g0.spec_players()[u]@;
            let m = spec_join_spaces(crate::interpreter::strs_view(a));
            output_view(o) == spec_room_answer(u, onlookers(g0.spec_rooms(), p.loc, u),
                "you say '"@ + m + "'"@, Some(p.info.info.name + " says '"@ + m + "'"@))
        },
    })
}

/// What `cmd_chat` does and answers.
pub open spec fn spec_cmd_chat_post(g0: Game, g1: Game, u: u128, a: Seq<&str>, r: Result<GameOutput, EnnuiError>) -> bool {
    &&& (match r {
        Err(e) => !g0.spec_players().contains_key(u) && is_fatal(e, "PLAYER NOT FOUND"@),
        Ok(o) => g0.spec_players().contains_key(u) && {
            let p = g0.spec_players()[u]@;
            let m = spec_join_spaces(crate::interpreter::strs_view(a));
            output_view(o) == spec_room_answer(u, g0.spec_player_ids(),
                "you chat '"@ + m + "'"@, Some(p.info.info.name + " chats '"@ + m + "'"@))
        },
    })
}

/// What `cmd_evaluate` does and answers.
pub open spec fn spec_cmd_evaluate_post(g0: Game, g1: Game, u: u128, r: Result<GameOutput, EnnuiError>) -> bool {
    &&& (match r {
        Err(e) => !g0.spec_players().contains_key(u) && e is NoneFound,
        Ok(o) => g0.spec_players().contains_key(u)
            && output_view(o) == spec_reply_to(u, spec_stats_debug(g0.spec_players()[u]@.stats)),
    })
}

/// What `cmd_inventory` does and answers.
pub open spec fn spec_cmd_inventory_post(g0: Game, g1: Game, u: u128, r: Result<GameOutput, EnnuiError>) -> bool {
    &&& (match r {
        Err(e) => !g0.spec_players().contains_key(u) && is_fatal(e, "PLAYER NOT FOUND"@),
        Ok(o) => g0.spec_players().contains_key(u)
            && output_view(o) == spec_reply_to(u, "you are holding:"@ + spec_inventory_lines(g0.spec_players()[u]@.items)),
    })
}

/// What `cmd_rest` does and answers.
pub open spec fn spec_cmd_rest_post(g0: Game, g1: Game, u: u128, cmd: crate::interpreter::CommandKind, r: Result<GameOutput, EnnuiError>) -> bool {
    &&& (g1.wf())
    &&& (g1.spec_rooms() == g0.spec_rooms())
    &&& (g1.spec_player_ids() == g0.spec_player_ids())
    &&& (g1.spec_outbox() == g0.spec_outbox())
    &&& (g1.spec_fights() == g0.spec_fights())
    &&& (match r {
        Err(e) => !g0.spec_players().contains_key(u) && is_fatal(e, "PLAYER NOT FOUND"@)
            && g1.spec_players() == g0.spec_players(),
        Ok(o) => g0.spec_players().contains_key(u) && {
            let p0 = g0.spec_players()[u]@;
            let name = p0.info.info.name;
            let others = onlookers(g0.spec_rooms(), p0.loc, u);
            &&& g1.spec_players() == g0.spec_players().insert(u, g1.spec_players()[u])
            &&& crate::player::same_kind(g0.spec_players()[u], g1.spec_players()[u])
            &&& match cmd {
                crate::interpreter::CommandKind::Sleep => {
                    &&& g1.spec_players()[u]@ == (crate::player::PlayerView {
                        status: p0.status.push(crate::player::PlayerStatus::Asleep), ..p0 })
                    &&& output_view(o) == spec_room_answer(u, others, "you lay down and fall asleep"@, Some(name + " goes to sleep"@))
                },
                crate::interpreter::CommandKind::Wake => {
                    &&& g1.spec_players()[u]@ == (crate::player::PlayerView {
                        status: crate::attribute::remove_first(p0.status, crate::player::PlayerStatus::Asleep)
                            .push(crate::player::PlayerStatus::Sitting), ..p0 })
                    &&& output_view(o) == spec_room_answer(u, others, "you sit up"@, Some(name + " sits up"@))
                },
                _ => {
                    &&& g1.spec_players()[u]@ == (crate::player::PlayerView {
                        status: crate::attribute::remove_first(p0.status, crate::player::PlayerStatus::Sitting), ..p0 })
                    &&& output_view(o) == spec_room_answer(u, others, "you stand up"@, Some(name + " stands up"@))
                },
            }
        },
    })
}

/// What `cmd_look` does and answers.
pub open spec fn spec_cmd_look_post(g0: Game, g1: Game, u: u128, args: Seq<&str>, r: Result<GameOutput, EnnuiError>) -> bool {
    &&& (({
        let words = crate::interpreter::strs_view(args).filter(|w: Seq<char>| w != "at"@);
        if !g0.spec_players().contains_key(u) {
            r matches Err(e) && is_fatal(e, "PLAYER NOT FOUND"@)
        } else {
            let loc = g0.spec_players()[u]@.loc;
            if words.len() == 0 {
                if g0.spec_rooms().contains_key(loc) {
                    r matches Ok(o) && output_view(o) == spec_reply_to(u,
                        super::movement::spec_room_view(g0.spec_players(), g0.spec_rooms(), loc, u))
                } else {
                    r matches Err(e) && e is NoneFound
                }
            } else if words.len() == 1 {
                r matches Ok(o) && output_view(o) == spec_reply_to(u,
                    match spec_describe_item(g0.spec_players(), g0.spec_rooms(), u, words[0]) {
                        Some(t) => t,
                        None => match first_named(g0.spec_players(), room_ids(g0.spec_rooms(), loc), words[0]) {
                            Some(id) => if g0.spec_players().contains_key(id) {
                                spec_player_closeup(g0.spec_players()[id])
                            } else {
                                "i don't see "@ + spec_article(words[0]) + " here..."@
                            },
                            None => "i don't see "@ + spec_article(words[0]) + " here..."@,
                        },
                    })
            } else {
                r matches Ok(o) && output_view(o) == spec_reply_to(u, "what you're saying is not clear from context"@)
            }
        }
    }))
}

/// What `cmd_drop` does and answers.
pub open spec fn spec_cmd_drop_post(g0: Game, g1: Game, u: u128, a: Seq<&str>, r: Result<GameOutput, EnnuiError>) -> bool {
    &&& (g1.wf())
    &&& (g1.spec_player_ids() == g0.spec_player_ids())
    &&& (g1.spec_outbox() == g0.spec_outbox())
    &&& (g1.spec_fights() == g0.spec_fights())
    &&& (match r {
        Err(e) => !g0.spec_players().contains_key(u) && is_fatal(e, "PLAYER NOT FOUND"@)
            && g1.spec_players() == g0.spec_players() && g1.spec_rooms() == g0.spec_rooms(),
        Ok(o) => g0.spec_players().contains_key(u) && {
            let p0 = g0.spec_players()[u]@;
            if a.len() == 1 {
                exists|tr: Result<String, EnnuiError>| {
                    &&& super::item::spec_transfer_post(g0.spec_rooms(), g0.spec_players(), g0.spec_player_ids(),
                        g1.spec_rooms(), g1.spec_players(), u, None, super::item::Direction::Drop, a[0]@, tr)
                    &&& output_view(o) == spec_room_answer(u, onlookers(g1.spec_rooms(), p0.loc, u),
                        spec_drop_text(tr, a[0]@, p0.info.info.name).0, spec_drop_text(tr, a[0]@, p0.info.info.name).1)
                }
            } else {
                &&& g1.spec_players() == g0.spec_players()
                &&& g1.spec_rooms() == g0.spec_rooms()
                &&& output_view(o) == spec_room_answer(u, onlookers(g0.spec_rooms(), p0.loc, u),
                    "be more specific. or less specific."@, None)
            }
        },
    })
}

/// What `cmd_remove` does and answers.
pub open spec fn spec_cmd_remove_post(g0: Game, g1: Game, u: u128, a: Seq<&str>, r: Result<GameOutput, EnnuiError>) -> bool {
    &&& (g1.wf())
    &&& (g1.spec_player_ids() == g0.spec_player_ids())
    &&& (g1.spec_outbox() == g0.spec_outbox())
    &&& (g1.spec_fights() == g0.spec_fights())
    &&& (g1.spec_rooms() == g0.spec_rooms())
    &&& (match r {
        Err(e) => !g0.spec_players().contains_key(u) && is_fatal(e, "PLAYER NOT FOUND"@)
            && g1.spec_players() == g0.spec_players(),
        Ok(o) => g0.spec_players().contains_key(u) && {
            let p0 = g0.spec_players()[u]@;
            if a.len() == 1 {
                exists|tr: Result<String, EnnuiError>| {
                    &&& super::item::spec_transfer_post(g0.spec_rooms(), g0.spec_players(), g0.spec_player_ids(),
                        g1.spec_rooms(), g1.spec_players(), u, None, super::item::Direction::Remove, a[0]@, tr)
                    &&& output_view(o) == spec_room_answer(u, onlookers(g0.spec_rooms(), p0.loc, u),
                        spec_remove_text(tr, a[0]@, p0.info.info.name).0, spec_remove_text(tr, a[0]@, p0.info.info.name).1)
                }
            } else {
                &&& g1.spec_players() == g0.spec_players()
                &&& output_view(o) == spec_room_answer(u, onlookers(g0.spec_rooms(), p0.loc, u),
                    "be more specific. or less specific."@, None)
            }
        },
    })
}

/// What `cmd_wear` does and answers.
pub open spec fn spec_cmd_wear_post(g0: Game, g1: Game, u: u128, a: Seq<&str>, r: Result<GameOutput, EnnuiError>) -> bool {
    &&& (g1.wf())
    &&& (g1.spec_player_ids() == g0.spec_player_ids())
    &&& (g1.spec_outbox() == g0.spec_outbox())
    &&& (g1.spec_fights() == g0.spec_fights())
    &&& (g1.spec_rooms() == g0.spec_rooms())
    &&& (match r {
        Err(e) => !g0.spec_players().contains_key(u) && is_fatal(e, "PLAYER NOT FOUND"@)
            && g1.spec_players() == g0.spec_players(),
        Ok(o) => g0.spec_players().contains_key(u) && {
            let p0 = g0.spec_players()[u]@;
            let others = onlookers(g0.spec_rooms(), p0.loc, u);
            if a.len() == 0 {
                &&& g1.spec_players() == g0.spec_players()
                &&& output_view(o) == spec_room_answer(u, others, "there seems to be an error"@, None)
            } else if a.len() == 1 {
                exists|tr: Result<String, EnnuiError>| {
                    &&& super::item::spec_transfer_post(g0.spec_rooms(), g0.spec_players(), g0.spec_player_ids(),
                        g1.spec_rooms(), g1.spec_players(), u, None, super::item::Direction::Wear, a[0]@, tr)
                    &&& spec_wear_text(tr, a[0]@, p0.info.info.name) matches Some(t)
                        && output_view(o) == spec_room_answer(u, others, t.0, t.1)
                }
            } else {
                &&& g1.spec_players() == g0.spec_players()
                &&& output_view(o) == spec_room_answer(u, others, "be more specific. or less specific."@, None)
            }
        },
    })
}

/// What `cmd_take` does and answers.
pub open spec fn spec_cmd_take_post(g0: Game, g1: Game, u: u128, a: Seq<&str>, r: Result<GameOutput, EnnuiError>) -> bool {
    &&& (g1.wf())
    &&& (g1.spec_player_ids() == g0.spec_player_ids())
    &&& (g1.spec_outbox() == g0.spec_outbox())
    &&& (g1.spec_fights() == g0.spec_fights())
    &&& (({
        let words = words_without(a, "from"@);
        match r {
            Err(e) => {
                &&& g1.spec_players() == g0.spec_players()
                &&& g1.spec_rooms() == g0.spec_rooms()
                &&& if !g0.spec_players().contains_key(u) {
                    is_fatal(e, "PLAYER NOT FOUND"@)
                } else {
                    words.len() == 2 && !g0.spec_rooms().contains_key(g0.spec_players()[u]@.loc)
                        && is_fatal(e, "UNABLE TO FIND ROOM"@)
                }
            },
            Ok(o) => g0.spec_players().contains_key(u) && {
                let p0 = g0.spec_players()[u]@;
                let others = onlookers(g0.spec_rooms(), p0.loc, u);
                if words.len() == 0 {
                    &&& g1.spec_players() == g0.spec_players()
                    &&& g1.spec_rooms() == g0.spec_rooms()
                    &&& output_view(o) == spec_room_answer(u, others, "there seems to be an error"@, None)
                } else if words.len() == 1 {
                    exists|tr: Result<String, EnnuiError>| {
                        &&& super::item::spec_transfer_post(g0.spec_rooms(), g0.spec_players(), g0.spec_player_ids(),
                            g1.spec_rooms(), g1.spec_players(), u, None, super::item::Direction::Take, words[0], tr)
                        &&& output_view(o) == spec_room_answer(u, others,
                            spec_take_text(tr, words[0], p0.info.info.name).0, spec_take_text(tr, words[0], p0.info.info.name).1)
                    }
                } else if words.len() == 2 {
                    &&& g0.spec_rooms().contains_key(p0.loc)
                    &&& exists|text: Seq<char>, other: Option<Seq<char>>| {
                        &&& spec_take_from_post(g0.spec_rooms(), g0.spec_players(), g1.spec_rooms(),
                            g1.spec_players(), u, p0.loc, p0.info.info.name, words[0], words[1], text, other)
                        &&& output_view(o) == spec_room_answer(u, others, text, other)
                    }
                } else {
                    &&& g1.spec_players() == g0.spec_players()
                    &&& g1.spec_rooms() == g0.spec_rooms()
                    &&& output_view(o) == spec_room_answer(u, others, "be more specific. or less specific."@, None)
                }
            },
        }
    }))
}

/// What `cmd_give` does and answers.
pub open spec fn spec_cmd_give_post(g0: Game, g1: Game, u: u128, a: Seq<&str>, r: Result<GameOutput, EnnuiError>) -> bool {
    &&& (g1.wf())
    &&& (g1.spec_player_ids() == g0.spec_player_ids())
    &&& (g1.spec_outbox() == g0.spec_outbox())
    &&& (g1.spec_fights() == g0.spec_fights())
    &&& (if !g0.spec_players().contains_key(u) {
        &&& r matches Err(e) && is_fatal(e, "PLAYER NOT FOUND"@)
        &&& g1.spec_players() == g0.spec_players()
        &&& g1.spec_rooms() == g0.spec_rooms()
    } else if a.len() == 2 {
        let p0 = g0.spec_players()[u]@;
        exists|tr: Result<String, EnnuiError>| {
            &&& super::item::spec_transfer_post(g0.spec_rooms(), g0.spec_players(), g0.spec_player_ids(),
                g1.spec_rooms(), g1.spec_players(), u, Some(a[1]@), super::item::Direction::Give, a[0]@, tr)
            &&& spec_give_outcome(tr, r, u, a[0]@, a[1]@, p0.info.info.name, g1.spec_players(), g1.spec_rooms(), p0.loc)
        }
    } else {
        &&& r matches Ok(o) && output_view(o) == spec_room_answer(u, Seq::empty(), "E - NUN - CI - ATE"@, None)
        &&& g1.spec_players() == g0.spec_players()
        &&& g1.spec_rooms() == g0.spec_rooms()
    })
}

/// What `cmd_open` does and answers.
pub open spec fn spec_cmd_open_post(g0: Game, g1: Game, u: u128, a: Seq<&str>, r: Result<GameOutput, EnnuiError>) -> bool {
    &&& (g1.wf())
    &&& (g1.spec_players() == g0.spec_players())
    &&& (g1.spec_player_ids() == g0.spec_player_ids())
    &&& (g1.spec_outbox() == g0.spec_outbox())
    &&& (g1.spec_fights() == g0.spec_fights())
    &&& (if !g0.spec_players().contains_key(u) {
        r matches Err(e) && is_fatal(e, "PLAYER NOT FOUND"@) && g1.spec_rooms() == g0.spec_rooms()
    } else {
        let p0 = g0.spec_players()[u]@;
        let loc = p0.loc;
        let rooms0 = g0.spec_rooms();
        let rooms1 = g1.spec_rooms();
        if !rooms0.contains_key(loc) {
            r matches Err(e) && e is NoneFound && rooms1 == rooms0
        } else {
            let doors = rooms0[loc]@.doors;
            let others = rooms0[loc]@.players.filter(crate::player::list::not_id(u));
            let answer = |t: Seq<char>| rooms1 == rooms0 && (r matches Ok(o) && output_view(o) == spec_room_answer(u, others, t, None));
            let alone = |t: Seq<char>| rooms1 == rooms0 && (r matches Ok(o) && output_view(o) == spec_reply_to(u, t));
            if a.len() == 0 {
                answer("ok, what do you want to open?"@)
            } else if a.len() == 1 {
                if doors.len() > 1 {
                    answer("which door do you want to open?"@)
                } else if doors.len() == 0 {
                    alone("there's no door here"@)
                } else {
                    r matches Ok(o) && spec_opened(rooms0, rooms1, loc, 0, u, p0.info.info.name, o)
                }
            } else if a.len() == 2 {
                match door_index(doors, crate::location::direction::MapDir::spec_from_word(a[1]@)) {
                    None => alone("there's no door in that direction"@),
                    Some(i) => r matches Ok(o) && spec_opened(rooms0, rooms1, loc, i, u, p0.info.info.name, o),
                }
            } else {
                answer("I'm not sure what you're getting at"@)
            }
        }
    })
}

/// What `cmd_unlock` does and answers.
pub open spec fn spec_cmd_unlock_post(g0: Game, g1: Game, u: u128, a: Seq<&str>, r: Result<GameOutput, EnnuiError>) -> bool {
    &&& (g1.wf())
    &&& (g1.spec_players() == g0.spec_players())
    &&& (g1.spec_player_ids() == g0.spec_player_ids())
    &&& (g1.spec_outbox() == g0.spec_outbox())
    &&& (g1.spec_fights() == g0.spec_fights())
    &&& (if !g0.spec_players().contains_key(u) {
        r matches Err(e) && is_fatal(e, "PLAYER NOT FOUND"@) && g1.spec_rooms() == g0.spec_rooms()
    } else {
        let p0 = g0.spec_players()[u]@;
        let loc = p0.loc;
        let rooms0 = g0.spec_rooms();
        let rooms1 = g1.spec_rooms();
        let others = onlookers(rooms0, loc, u);
        let answer = |t: Seq<char>| rooms1 == rooms0 && (r matches Ok(o) && output_view(o) == spec_room_answer(u, others, t, None));
        let alone = |t: Seq<char>| rooms1 == rooms0 && (r matches Ok(o) && output_view(o) == spec_reply_to(u, t));
        let no_room = rooms1 == rooms0 && (r matches Err(e) && is_fatal(e, "UNABLE TO FIND ROOM"@));
        if a.len() == 0 {
            answer("ok, what do you want to unlock?"@)
        } else if a.len() == 1 {
            if !rooms0.contains_key(loc) {
                no_room
            } else {
                let doors = rooms0[loc]@.doors;
                if doors.len() == 0 {
                    answer("there's nothing to unlock here"@)
                } else if doors.len() == 1 {
                    if crate::text::strings::str_lowercase(a[0]@) == "door"@ {
                        r matches Ok(o) && spec_unlocked(rooms0, rooms1, loc, 0, u, p0.info.info.name, p0.items, o)
                    } else {
                        answer("I'm not sure that you can even unlock that"@)
                    }
                } else {
                    answer("that's all greek to me"@)
                }
            }
        } else if a.len() == 2 {
            if !rooms0.contains_key(loc) {
                no_room
            } else {
                match door_index(rooms0[loc]@.doors, crate::location::direction::MapDir::spec_from_word(a[1]@)) {
                    None => alone("there's no door in that direction"@),
                    Some(i) => r matches Ok(o) && spec_unlocked(rooms0, rooms1, loc, i, u, p0.info.info.name, p0.items, o),
                }
            }
        } else {
            answer("that's pretty much gobbledygook to me"@)
        }
    })
}

/// What `cmd_hit` does and answers.
pub open spec fn spec_cmd_hit_post(g0: Game, g1: Game, u: u128, a: Seq<&str>, r: Result<GameOutput, EnnuiError>) -> bool {
    &&& (g1.wf())
    &&& (g1.spec_rooms() == g0.spec_rooms())
    &&& (g1.spec_player_ids() == g0.spec_player_ids())
    &&& (g1.spec_outbox() == g0.spec_outbox())
    &&& (g1.spec_fight_channel() == g0.spec_fight_channel())
    &&& (g1.spec_departures() == g0.spec_departures())
    &&& (if !g0.spec_players().contains_key(u) {
        r matches Err(e) && is_fatal(e, "PLAYER NOT FOUND"@) && g1.spec_players() == g0.spec_players()
            && g1.spec_fights() == g0.spec_fights()
    } else {
        let loc = g0.spec_players()[u]@.loc;
        let rooms = g0.spec_rooms();
        let players0 = g0.spec_players();
        let unchanged = g1.spec_players() == players0 && g1.spec_fights() == g0.spec_fights();
        if a.len() == 0 {
            unchanged && (r matches Ok(o) && output_view(o) == spec_reply_to(u, "oh no"@))
        } else {
            match first_named(players0, room_ids(rooms, loc), a[0]@) {
                None => unchanged && (r matches Ok(o) && output_view(o) == spec_reply_to(u, "you don't see "@ + a[0]@ + " here"@)),
                Some(other) => if other == u {
                    unchanged && (r matches Ok(o) && output_view(o) == spec_reply_to(u, "violence against the self is all too common. i am here to stop you."@))
                } else if !g0.spec_fight_channel() {
                    unchanged && (r matches Err(e) && is_fatal(e, "ERROR: UNABLE TO CLONE SENDER"@))
                } else {
                    let audience = room_ids(rooms, loc).filter(crate::player::list::not_id(u)).filter(crate::player::list::not_id(other));
                    &&& r matches Ok(o) && output_view(o) == spec_reply_to(u, "oh no"@)
                    &&& g1.spec_fights() == g0.spec_fights().push((u, other, audience))
                    &&& g1.spec_players().dom() == players0.dom()
                    &&& forall|k: u128| #[trigger] players0.contains_key(k) ==> g1.spec_players()[k]@ == if audience.contains(k) {
                        crate::player::PlayerView { fighting: true, ..players0[k]@ }
                    } else {
                        players0[k]@
                    }
                },
            }
        }
    })
}

/// The words of a command avoid the `all.` form of handles, which the
/// game does not handle.
pub open spec fn command_ok(s: Seq<char>) -> bool {
    grabs_args(spec_line_command(s)) ==> forall|i: int| 0 <= i < spec_line_args(s).len()
        ==> !is_all_form(#[trigger] spec_line_args(s)[i])
}

/// The commands whose words name things to pick among.
pub open spec fn grabs_args(cmd: C) -> bool {
    cmd is Look || cmd is Take || cmd is Drop || cmd is Give || cmd is Wear || cmd is Remove
}

/// Whether a command names things to pick among.
pub fn picks_things(cmd: C) -> (r: bool)
    ensures
        r == grabs_args(cmd),
{
    match cmd {
        C::Look | C::Take | C::Drop | C::Give | C::Wear | C::Remove => true,
        _ => false,
    }
}

/// The command that a typed line names, once in lower case.
pub open spec fn spec_line_command(s: Seq<char>) -> crate::interpreter::CommandKind {
    let words = crate::interpreter::spec_words(crate::text::strings::str_lowercase(s));
    if words.len() == 0 {
        crate::interpreter::spec_resolve(crate::text::strings::str_lowercase(Seq::empty()))
    } else {
        crate::interpreter::spec_resolve(crate::text::strings::str_lowercase(words[0]))
    }
}

/// The words after the first of a typed line, once in lower case.
pub open spec fn spec_line_args(s: Seq<char>) -> Seq<Seq<char>> {
    let words = crate::interpreter::spec_words(crate::text::strings::str_lowercase(s));
    if words.len() == 0 { Seq::empty() } else { words.drop_first() }
}

/// What `interpret` does and answers: commands without a handler fail,
/// an unknown player fails, a state that forbids the command answers for
/// it, and otherwise the handler of the command does its work.
pub open spec fn spec_interpret_post(g0: Game, g1: Game, p: u128, s: Seq<char>, r: Result<GameOutput, EnnuiError>) -> bool {
    let cmd = spec_line_command(s);
    let args = spec_line_args(s);
    if cmd == C::Ouch || cmd == C::Whisper || cmd == C::Blank {
        r matches Err(e) && e is NoneFound && g1 == g0
    } else if !g0.spec_players().contains_key(p) {
        r matches Err(e) && is_fatal(e, "PLAYER NOT FOUND"@) && g1 == g0
    } else if super::spec_status_text(g0.spec_players()[p]@.status, cmd) is Some {
        &&& g1 == g0
        &&& r matches Ok(o) && output_view(o) == super::spec_reply(p, super::spec_status_text(g0.spec_players()[p]@.status, cmd)->0)
    } else {
        match cmd {
            C::North => super::movement::spec_dir_func_post(g0, g1, p, crate::location::direction::MapDir::North, r),
            C::South => super::movement::spec_dir_func_post(g0, g1, p, crate::location::direction::MapDir::South, r),
            C::East => super::movement::spec_dir_func_post(g0, g1, p, crate::location::direction::MapDir::East, r),
            C::West => super::movement::spec_dir_func_post(g0, g1, p, crate::location::direction::MapDir::West, r),
            C::Look => exists|a: Seq<&str>| crate::interpreter::strs_view(a) == args && spec_cmd_look_post(g0, g1, p, a, r) && g1 == g0,
            C::Take => exists|a: Seq<&str>| crate::interpreter::strs_view(a) == args && spec_cmd_take_post(g0, g1, p, a, r),
            C::Drop => exists|a: Seq<&str>| crate::interpreter::strs_view(a) == args && spec_cmd_drop_post(g0, g1, p, a, r),
            C::Give => exists|a: Seq<&str>| crate::interpreter::strs_view(a) == args && spec_cmd_give_post(g0, g1, p, a, r),
            C::Wear => exists|a: Seq<&str>| crate::interpreter::strs_view(a) == args && spec_cmd_wear_post(g0, g1, p, a, r),
            C::Remove => exists|a: Seq<&str>| crate::interpreter::strs_view(a) == args && spec_cmd_remove_post(g0, g1, p, a, r),
            C::Chat => exists|a: Seq<&str>| crate::interpreter::strs_view(a) == args && spec_cmd_chat_post(g0, g1, p, a, r) && g1 == g0,
            C::Say => exists|a: Seq<&str>| crate::interpreter::strs_view(a) == args && spec_cmd_say_post(g0, g1, p, a, r) && g1 == g0,
            C::Eval => spec_cmd_evaluate_post(g0, g1, p, r) && g1 == g0,
            C::Inventory => spec_cmd_inventory_post(g0, g1, p, r) && g1 == g0,
            C::Open => exists|a: Seq<&str>| crate::interpreter::strs_view(a) == args && spec_cmd_open_post(g0, g1, p, a, r),
            C::Unlock => exists|a: Seq<&str>| crate::interpreter::strs_view(a) == args && spec_cmd_unlock_post(g0, g1, p, a, r),
            C::Hit => exists|a: Seq<&str>| crate::interpreter::strs_view(a) == args && spec_cmd_hit_post(g0, g1, p, a, r),
            C::Sleep => spec_cmd_rest_post(g0, g1, p, cmd, r),
            C::Wake => spec_cmd_rest_post(g0, g1, p, cmd, r),
            C::Stand => spec_cmd_rest_post(g0, g1, p, cmd, r),
            C::Quit => r matches Err(e) && e is Quit && g1 == g0,
            _ => g1 == g0 && (r matches Ok(o) && output_view(o) == super::spec_reply(p, super::util::spec_insult(48int % 5))),
        }
    }
}

/// No command makes players appear in the game or leave it, nor rooms
/// appear on the map or leave it: the players, in the order in which they
/// joined, and the places of the rooms are the same after any line.
pub proof fn law_lines_keep_players_and_rooms(g0: Game, g1: Game, p: u128, s: Seq<char>, r: Result<GameOutput, EnnuiError>)
    requires
        g0.wf(),
        spec_interpret_post(g0, g1, p, s, r),
    ensures
        g1.spec_player_ids() == g0.spec_player_ids(),
        g1.spec_rooms().dom() == g0.spec_rooms().dom(),
{
    match spec_line_command(s) {
        C::Take => {
            let a = choose|a: Seq<&str>| crate::interpreter::strs_view(a) == spec_line_args(s) && spec_cmd_take_post(g0, g1, p, a, r);
            let words = words_without(a, "from"@);
            if r is Ok && words.len() == 1 {
                let tr = choose|tr: Result<String, EnnuiError>| super::item::spec_transfer_post(g0.spec_rooms(), g0.spec_players(), g0.spec_player_ids(),
                    g1.spec_rooms(), g1.spec_players(), p, None, super::item::Direction::Take, words[0], tr);
                assert(g1.spec_rooms().dom() =~= g0.spec_rooms().dom());
            } else if r is Ok && words.len() == 2 {
                let loc = g0.spec_players()[p]@.loc;
                let (text, other) = choose|text: Seq<char>, other: Option<Seq<char>>| spec_take_from_post(g0.spec_rooms(), g0.spec_players(), g1.spec_rooms(),
                    g1.spec_players(), p, loc, g0.spec_players()[p]@.info.info.name, words[0], words[1], text, other);
                assert(g1.spec_rooms().dom() =~= g0.spec_rooms().dom());
            } else {
                assert(g1.spec_rooms().dom() =~= g0.spec_rooms().dom());
            }
        },
        _ => { assert(g1.spec_rooms().dom() =~= g0.spec_rooms().dom()); },
    }
}

impl Game {
    /// What player `u` holds, as it is told.
    pub fn list_inventory(&self, u: u128) -> (r: Result<String, EnnuiError>)
        ensures
            match r {
                Ok(s) => self.spec_players().contains_key(u)
                    && s@ == "you are holding:"@ + spec_inventory_lines(self.spec_players()[u]@.items),
                Err(e) => !self.spec_players().contains_key(u) && is_fatal(e, "PLAYER NOT FOUND"@),
            },
    {
        let player = match self.get_player(u) {
            Ok(p) => p,
            Err(e) => return Err(e),
        };
        let items = player.player().items();
        let mut s = String::from_str("you are holding:");
        let mut i: usize = 0;
        while i < items.len()
            invariant
                i <= items.spec_inner().len(),
                items.spec_inner() == self.spec_players()[u]@.items,
                s@ == "you are holding:"@ + spec_inventory_lines(items.spec_inner().subrange(0, i as int)),
            decreases items.spec_inner().len() - i,
        {
            proof {
                reveal_strlit("\n");
            }
            let a = article(items.item_at(i).name().as_str());
            let g = Color::Green(a).render();
            s.append("\n");
            s.append(g.as_str());
            proof {
                let t = items.spec_inner().subrange(0, i + 1);
                assert(t.drop_last() =~= items.spec_inner().subrange(0, i as int));
                assert(s@ =~= "you are holding:"@ + spec_inventory_lines(t));
            }
            i = i + 1;
        }
        assert(items.spec_inner().subrange(0, items.spec_inner().len() as int) =~= items.spec_inner());
        Ok(s)
    }

    /// The first player in the room at `loc`, in the room's order, that
    /// answers to `name`.
    pub fn id_of_in(&self, loc: Coord, name: &str) -> (r: Option<u128>)
        requires
            self.wf(),
        ensures
            r == first_named(self.spec_players(), room_ids(self.spec_rooms(), loc), name@),
    {
        let ids = self.rooms.player_ids(loc);
        let n = ids.len();
        let mut i: usize = 0;
        assert(ids@.subrange(0, n as int) =~= ids@);
        while i < n
            invariant
                n == ids@.len(),
                i <= n,
                self.wf(),
                ids@ == room_ids(self.spec_rooms(), loc),
                first_named(self.spec_players(), ids@, name@)
                    == first_named(self.spec_players(), ids@.subrange(i as int, n as int), name@),
            decreases n - i,
        {
            let id = ids.id_at(i);
            let ghost rest = ids@.subrange(i as int, n as int);
            proof {
                assert(rest[0] == id);
                assert(rest.drop_first() =~= ids@.subrange(i + 1, n as int));
            }
            match self.players.get(id) {
                Some(p) => {
                    if p.handle().answers_to(name) {
                        return Some(p.uuid());
                    }
                },
                None => {},
            }
            i = i + 1;
        }
        None
    }

    /// What player `u` sees when it looks at `handle`.
    pub fn describe_item(&self, u: u128, handle: &str) -> (r: Option<String>)
        requires
            !is_all_form(handle@),
        ensures
            crate::text::message::opt_view(r) == spec_describe_item(self.spec_players(), self.spec_rooms(), u, handle@),
    {
        let p = match self.players.get(u) {
            Some(p) => p,
            None => return None,
        };
        let room = match self.rooms.get(p.loc()) {
            Some(r) => r,
            None => return None,
        };
        match room.get_item_by(handle) {
            Some(item) => Some(item_closeup(item)),
            None => match p.get_item(Grabber::from_str(handle)) {
                Some(i) => Some(i.description()),
                None => None,
            },
        }
    }

    /// How the player called `other` in the room at `loc` looks.
    pub fn describe_player(&self, loc: Coord, other: &str) -> (r: Option<String>)
        requires
            self.wf(),
        ensures
            crate::text::message::opt_view(r) == match first_named(self.spec_players(), room_ids(self.spec_rooms(), loc), other@) {
                Some(id) => if self.spec_players().contains_key(id) {
                    Some(spec_player_closeup(self.spec_players()[id]))
                } else {
                    None::<Seq<char>>
                },
                None => None::<Seq<char>>,
            },
    {
        let other_id = match self.id_of_in(loc, other) {
            Some(i) => i,
            None => return None,
        };
        let p = match self.players.get(other_id) {
            Some(p) => p,
            None => return None,
        };
        let description = p.description();
        let title = concat3("\n", p.name().as_str(), " is holding:");
        let items = p.player().items();
        let mut item_list = String::new();
        let mut i: usize = 0;
        while i < items.len()
            invariant
                i <= items.spec_inner().len(),
                item_list@ == spec_held_lines(items.spec_inner().subrange(0, i as int)),
            decreases items.spec_inner().len() - i,
        {
            proof {
                reveal_strlit("\n");
            }
            let a = article(items.item_at(i).name().as_str());
            item_list.append("\n");
            item_list.append(a.as_str());
            proof {
                let t = items.spec_inner().subrange(0, i + 1);
                assert(t.drop_last() =~= items.spec_inner().subrange(0, i as int));
                assert(item_list@ =~= spec_held_lines(t));
            }
            i = i + 1;
        }
        assert(items.spec_inner().subrange(0, items.spec_inner().len() as int) =~= items.spec_inner());
        let green = Color::Green(item_list).render();
        let mut s = description;
        s.append(title.as_str());
        s.append(green.as_str());
        Some(s)
    }

    /// `say`: the words go to the players in the same room.
    pub fn cmd_say(&self, u: u128, a: &[&str]) -> (r: Result<GameOutput, EnnuiError>)
        requires
            self.wf(),
        ensures
            spec_cmd_say_post(*self, *self, u, a@, r),
    {
        let msg = join_spaces(a);
        let name = match self.name_of(u) {
            Ok(n) => n,
            Err(e) => return Err(e),
        };
        let loc = match self.loc_of(u) {
            Ok(l) => l,
            Err(e) => return Err(e),
        };
        let others = self.rooms.player_ids(loc).except(u);
        let aud = crate::text::message::Audience(u, others);
        let s = concat3("you say '", msg.as_str(), "'");
        let mut o = concat3(name.as_str(), " says '", msg.as_str());
        o.append("'");
        super::message(aud, crate::text::message::Msg { s, o: Some(o) })
    }

    /// `chat`: the words go to every player of the game.
    pub fn cmd_chat(&self, u: u128, a: &[&str]) -> (r: Result<GameOutput, EnnuiError>)
        requires
            self.wf(),
        ensures
            spec_cmd_chat_post(*self, *self, u, a@, r),
    {
        let statement = join_spaces(a);
        let name = match self.name_of(u) {
            Ok(n) => n,
            Err(e) => return Err(e),
        };
        let aud = crate::text::message::Audience(u, self.players.to_id_list());
        let s = concat3("you chat '", statement.as_str(), "'");
        let mut o = concat3(name.as_str(), " chats '", statement.as_str());
        o.append("'");
        super::message(aud, crate::text::message::Msg { s, o: Some(o) })
    }

    /// `evaluate`: the gauges of the player, as the pretty `Debug` format
    /// writes them.
    pub fn cmd_evaluate(&self, u: u128) -> (r: Result<GameOutput, EnnuiError>)
        ensures
            spec_cmd_evaluate_post(*self, *self, u, r),
    {
        let p = match self.players.get(u) {
            Some(p) => p,
            None => return Err(EnnuiError::NoneFound),
        };
        let stats = p.stats();
        let mut s = String::new();
        let mut i: usize = 0;
        while i < stats.len()
            invariant
                i <= stats@.len(),
                stats@ == self.spec_players()[u]@.stats,
                s@ == spec_stats_debug(stats@.subrange(0, i as int)),
            decreases stats@.len() - i,
        {
            let d = meter_debug(&stats[i]);
            s.append(d.as_str());
            proof {
                let t = stats@.subrange(0, i + 1);
                assert(t.drop_last() =~= stats@.subrange(0, i as int));
            }
            i = i + 1;
        }
        assert(stats@.subrange(0, stats@.len() as int) =~= stats@);
        Ok(super::reply(u, s))
    }

    /// `inventory`: what the player holds.
    pub fn cmd_inventory(&self, u: u128) -> (r: Result<GameOutput, EnnuiError>)
        ensures
            spec_cmd_inventory_post(*self, *self, u, r),
    {
        match self.list_inventory(u) {
            Ok(s) => Ok(super::reply(u, s)),
            Err(e) => Err(e),
        }
    }

    /// A word that names no command.
    pub fn cmd_none(&self, u: u128) -> (r: GameOutput)
        ensures
            output_view(r) == spec_reply_to(u, super::util::spec_insult(48int % 5)),
    {
        super::reply(u, super::util::random_insult())
    }

    /// Sets or clears states of player `u`, keeping the game well kept.
    fn change_status(&mut self, u: u128, set: Option<crate::player::PlayerStatus>, unset: Option<crate::player::PlayerStatus>)
        requires
            old(self).wf(),
            old(self).spec_players().contains_key(u),
        ensures
            final(self).wf(),
            final(self).spec_rooms() == old(self).spec_rooms(),
            final(self).spec_player_ids() == old(self).spec_player_ids(),
            final(self).spec_outbox() == old(self).spec_outbox(),
            final(self).spec_fights() == old(self).spec_fights(),
            final(self).spec_players() == old(self).spec_players().insert(u, final(self).spec_players()[u]),
            ({
                let p0 = old(self).spec_players()[u]@;
                let st1 = match unset {
                    Some(q) => crate::attribute::remove_first(p0.status, q),
                    None => p0.status,
                };
                let st2 = match set {
                    Some(q) => st1.push(q),
                    None => st1,
                };
                final(self).spec_players()[u]@ == (crate::player::PlayerView { status: st2, ..p0 })
            }),
            crate::player::same_kind(old(self).spec_players()[u], final(self).spec_players()[u]),
    {
        let ghost players0 = self.players@;
        let p = self.players.get_mut(u).unwrap();
        match unset {
            Some(q) => p.unset_attr(q),
            None => {},
        }
        match set {
            Some(q) => p.set_attr(q),
            None => {},
        }
        proof {
            assert forall|k: u128| #[trigger] self.players@.contains_key(k) implies self.players@[k]@.uuid == k
                && interior(self.players@[k]@.loc) by {
                assert(players0.contains_key(k));
            }
        }
    }

    /// `sleep`, `wake` and `stand`: the player lies down, sits up or stands
    /// up, and the room is told.
    pub fn cmd_rest(&mut self, u: u128, cmd: crate::interpreter::CommandKind) -> (r: Result<GameOutput, EnnuiError>)
        requires
            old(self).wf(),
            cmd == crate::interpreter::CommandKind::Sleep || cmd == crate::interpreter::CommandKind::Wake
                || cmd == crate::interpreter::CommandKind::Stand,
        ensures
            spec_cmd_rest_post(*old(self), *final(self), u, cmd, r),
    {
        let loc = match self.loc_of(u) {
            Ok(l) => l,
            Err(e) => return Err(e),
        };
        let name = match self.name_of(u) {
            Ok(n) => n,
            Err(e) => return Err(e),
        };
        let (text, other) = match cmd {
            crate::interpreter::CommandKind::Sleep => {
                self.change_status(u, Some(crate::player::PlayerStatus::Asleep), None);
                (String::from_str("you lay down and fall asleep"), concat2(name.as_str(), " goes to sleep"))
            },
            crate::interpreter::CommandKind::Wake => {
                self.change_status(u, Some(crate::player::PlayerStatus::Sitting), Some(crate::player::PlayerStatus::Asleep));
                (String::from_str("you sit up"), concat2(name.as_str(), " sits up"))
            },
            _ => {
                self.change_status(u, None, Some(crate::player::PlayerStatus::Sitting));
                (String::from_str("you stand up"), concat2(name.as_str(), " stands up"))
            },
        };
        let others = self.rooms.player_ids(loc).except(u);
        let aud = crate::text::message::Audience(u, others);
        super::message(aud, crate::text::message::Msg { s: text, o: Some(other) })
    }

    /// `look`: the room, or close up an item or a player of the room; the
    /// word "at" is skipped.
    pub fn cmd_look(&self, u: u128, args: &[&str]) -> (r: Result<GameOutput, EnnuiError>)
        requires
            self.wf(),
            forall|i: int| 0 <= i < args@.len() ==> !is_all_form(#[trigger] args@[i]@),
        ensures
            spec_cmd_look_post(*self, *self, u, args@, r),
    {
        let mut words: Vec<&str> = Vec::new();
        let mut i: usize = 0;
        let ghost f = |w: Seq<char>| w != "at"@;
        while i < args.len()
            invariant
                i <= args@.len(),
                f == (|w: Seq<char>| w != "at"@),
                crate::interpreter::strs_view(words@) == crate::interpreter::strs_view(args@).subrange(0, i as int).filter(f),
                forall|j: int| 0 <= j < words@.len() ==> !is_all_form(#[trigger] words@[j]@),
                forall|j: int| 0 <= j < args@.len() ==> !is_all_form(#[trigger] args@[j]@),
            decreases args@.len() - i,
        {
            let w = args[i];
            proof {
                let v = crate::interpreter::strs_view(args@);
                let t = v.subrange(0, i + 1);
                assert(t.drop_last() =~= v.subrange(0, i as int));
                assert(t.last() == w@);
                reveal(Seq::filter);
            }
            let ghost before = words@;
            if !crate::text::strings::str_eq(w, "at") {
                words.push(w);
                proof {
                    assert(crate::interpreter::strs_view(words@) =~= crate::interpreter::strs_view(before).push(w@));
                }
            }
            i = i + 1;
        }
        proof {
            let v = crate::interpreter::strs_view(args@);
            assert(v.subrange(0, args@.len() as int) =~= v);
        }
        if !self.players.contains_key(u) {
            return Err(EnnuiError::Fatal(String::from_str("PLAYER NOT FOUND")));
        }
        let text = if words.len() == 0 {
            match self.describe_room(u) {
                Ok(t) => t,
                Err(e) => return Err(e),
            }
        } else if words.len() == 1 {
            let loc = match self.loc_of(u) {
                Ok(l) => l,
                Err(e) => return Err(e),
            };
            proof {
                assert(words@[0]@ == crate::interpreter::strs_view(words@)[0]);
            }
            match self.describe_item(u, words[0]) {
                Some(t) => t,
                None => match self.describe_player(loc, words[0]) {
                    Some(t) => t,
                    None => {
                        let a = article(words[0]);
                        concat3("i don't see ", a.as_str(), " here...")
                    },
                },
            }
        } else {
            String::from_str("what you're saying is not clear from context")
        };
        Ok(super::reply(u, text))
    }

    /// The words of `args` other than `skip`.
    fn words_except<'a>(args: &[&'a str], skip: &str) -> (r: Vec<&'a str>)
        requires
            forall|i: int| 0 <= i < args@.len() ==> !is_all_form(#[trigger] args@[i]@),
        ensures
            crate::interpreter::strs_view(r@) == words_without(args@, skip@),
            forall|j: int| 0 <= j < r@.len() ==> !is_all_form(#[trigger] r@[j]@),
    {
        let mut words: Vec<&'a str> = Vec::new();
        let mut i: usize = 0;
        let ghost f = |w: Seq<char>| w != skip@;
        while i < args.len()
            invariant
                i <= args@.len(),
                f == (|w: Seq<char>| w != skip@),
                crate::interpreter::strs_view(words@) == crate::interpreter::strs_view(args@).subrange(0, i as int).filter(f),
                forall|j: int| 0 <= j < words@.len() ==> !is_all_form(#[trigger] words@[j]@),
                forall|j: int| 0 <= j < args@.len() ==> !is_all_form(#[trigger] args@[j]@),
            decreases args@.len() - i,
        {
            let w = args[i];
            proof {
                let v = crate::interpreter::strs_view(args@);
                let t = v.subrange(0, i + 1);
                assert(t.drop_last() =~= v.subrange(0, i as int));
                assert(t.last() == w@);
                reveal(Seq::filter);
            }
            let ghost before = words@;
            if !crate::text::strings::str_eq(w, skip) {
                words.push(w);
                proof {
                    assert(crate::interpreter::strs_view(words@) =~= crate::interpreter::strs_view(before).push(w@));
                }
            }
            i = i + 1;
        }
        proof {
            let v = crate::interpreter::strs_view(args@);
            assert(v.subrange(0, args@.len() as int) =~= v);
        }
        words
    }

    /// `drop`: puts down what the player holds.
    pub fn cmd_drop(&mut self, u: u128, a: &[&str]) -> (r: Result<GameOutput, EnnuiError>)
        requires
            old(self).wf(),
            forall|i: int| 0 <= i < a@.len() ==> !is_all_form(#[trigger] a@[i]@),
        ensures
            spec_cmd_drop_post(*old(self), *final(self), u, a@, r),
    {
        let name = match self.name_of(u) {
            Ok(n) => n,
            Err(e) => return Err(e),
        };
        let loc = match self.loc_of(u) {
            Ok(l) => l,
            Err(e) => return Err(e),
        };
        let (text, other) = if a.len() == 1 {
            let handle = a[0];
            proof {
                reveal_strlit("");
                assert(name_or_empty_none());
            }
            let tr = self.transfer(u, None, super::item::Direction::Drop, handle);
            match tr {
                Ok(h) => {
                    let art = article(h.as_str());
                    (concat2("you drop the ", h.as_str()), Some(concat3(name.as_str(), " drops ", art.as_str())))
                },
                Err(_) => {
                    let art = article(handle);
                    (concat3("you don't see ", art.as_str(), " here"), None)
                },
            }
        } else {
            (String::from_str("be more specific. or less specific."), None)
        };
        let others = self.rooms.player_ids(loc).except(u);
        let aud = crate::text::message::Audience(u, others);
        super::message(aud, crate::text::message::Msg { s: text, o: other })
    }

    /// `remove`: takes off a piece of clothing.
    pub fn cmd_remove(&mut self, u: u128, a: &[&str]) -> (r: Result<GameOutput, EnnuiError>)
        requires
            old(self).wf(),
            forall|i: int| 0 <= i < a@.len() ==> !is_all_form(#[trigger] a@[i]@),
        ensures
            spec_cmd_remove_post(*old(self), *final(self), u, a@, r),
    {
        let name = match self.name_of(u) {
            Ok(n) => n,
            Err(e) => return Err(e),
        };
        let loc = match self.loc_of(u) {
            Ok(l) => l,
            Err(e) => return Err(e),
        };
        let (text, other) = if a.len() == 1 {
            let handle = a[0];
            proof {
                reveal_strlit("");
                assert(name_or_empty_none());
            }
            let tr = self.transfer(u, None, super::item::Direction::Remove, handle);
            match tr {
                Ok(h) => {
                    let art = article(h.as_str());
                    (concat2("you take off the ", h.as_str()), Some(concat3(name.as_str(), " takes off ", art.as_str())))
                },
                Err(_) => {
                    let art = article(handle);
                    (concat2("you're not wearing ", art.as_str()), None)
                },
            }
        } else {
            (String::from_str("be more specific. or less specific."), None)
        };
        let others = self.rooms.player_ids(loc).except(u);
        let aud = crate::text::message::Audience(u, others);
        super::message(aud, crate::text::message::Msg { s: text, o: other })
    }

    /// `wear`: puts on a piece of clothing.
    pub fn cmd_wear(&mut self, u: u128, a: &[&str]) -> (r: Result<GameOutput, EnnuiError>)
        requires
            old(self).wf(),
            forall|i: int| 0 <= i < a@.len() ==> !is_all_form(#[trigger] a@[i]@),
        ensures
            spec_cmd_wear_post(*old(self), *final(self), u, a@, r),
    {
        let name = match self.name_of(u) {
            Ok(n) => n,
            Err(e) => return Err(e),
        };
        let loc = match self.loc_of(u) {
            Ok(l) => l,
            Err(e) => return Err(e),
        };
        let others = self.rooms.player_ids(loc).except(u);
        let (text, other) = if a.len() == 0 {
            (String::from_str("there seems to be an error"), None)
        } else if a.len() == 1 {
            let handle = a[0];
            proof {
                reveal_strlit("");
                assert(name_or_empty_none());
            }
            let tr = self.transfer(u, None, super::item::Direction::Wear, handle);
            match tr {
                Ok(n) => {
                    let art = article(n.as_str());
                    (concat2("you wear the ", handle), Some(concat3(name.as_str(), " puts on ", art.as_str())))
                },
                Err(EnnuiError::Simple(Simple::NotClothing)) => {
                    let art = article(handle);
                    (concat3("you can't wear ", art.as_str(), "!"), None)
                },
                Err(EnnuiError::Simple(Simple::ItemNotFound)) => {
                    let art = article(handle);
                    (concat2("you're not holding ", art.as_str()), None)
                },
                Err(EnnuiError::Msg(m)) => (m, None),
                Err(EnnuiError::Fatal(e)) => {
                    let red = Color::Red(String::from_str("FATAL")).render();
                    let mut m = concat3("[", red.as_str(), "]: ");
                    m.append(e.as_str());
                    proof {
                        assert(false);
                    }
                    return Err(EnnuiError::Fatal(m));
                },
                Err(_) => {
                    proof {
                        assert(false);
                    }
                    return Err(EnnuiError::UnidentifiedError);
                },
            }
        } else {
            (String::from_str("be more specific. or less specific."), None)
        };
        let aud = crate::text::message::Audience(u, others);
        super::message(aud, crate::text::message::Msg { s: text, o: other })
    }

    /// Takes `object` out of the container called `container` in the room
    /// of player `u`, which is known to stand in an existing room.
    fn take_from(&mut self, u: u128, loc: Coord, name: &str, object: &str, container: &str) -> (r: (String, Option<String>))
        requires
            old(self).wf(),
            old(self).spec_players().contains_key(u),
            old(self).spec_rooms().contains_key(loc),
            !is_all_form(object@),
            !is_all_form(container@),
        ensures
            final(self).wf(),
            final(self).spec_player_ids() == old(self).spec_player_ids(),
            final(self).spec_outbox() == old(self).spec_outbox(),
            final(self).spec_fights() == old(self).spec_fights(),
            spec_take_from_post(old(self).spec_rooms(), old(self).spec_players(), final(self).spec_rooms(), final(self).spec_players(), u, loc, name@, object@, container@, r.0@, opt_view(r.1)),
    {
        let kind: u8 = match self.rooms.get(loc).unwrap().get_item_by(container) {
            None => 0,
            Some(Item::Container(cont)) => {
                if cont.get_item(Grabber::from_str(object)).is_some() {
                    2
                } else {
                    1
                }
            },
            Some(_) => 3,
        };
        if kind == 0 {
            let art = article(container);
            return (concat3("you don't see ", art.as_str(), " here"), None);
        }
        if kind == 3 {
            let art = article(container);
            return (concat2(art.as_str(), " is not a container!"), None);
        }
        if kind == 1 {
            let art = article(object);
            let mut m = concat3("you don't see ", art.as_str(), " in the ");
            m.append(container);
            return (m, None);
        }
        let ghost rooms0 = self.rooms@;
        let ghost players0 = self.players@;
        let room = self.rooms.get_mut(loc).unwrap();
        let taken = match room.get_item_mut(container) {
            Some(Item::Container(cont)) => cont.get_item_owned(Grabber::from_str(object)),
            _ => {
                proof {
                    assert(false);
                }
                Err(EnnuiError::NoneFound)
            },
        };
        let item = match taken {
            Ok(i) => i,
            Err(_) => {
                proof {
                    assert(false);
                }
                return (String::new(), None);
            },
        };
        let h = item.name();
        let player = self.players.get_mut(u).unwrap();
        let _ = player.insert_item(item);
        proof {
            assert forall|k: u128| #[trigger] self.players@.contains_key(k) implies self.players@[k]@.uuid == k
                && interior(self.players@[k]@.loc) by {
                assert(players0.contains_key(k));
            }
            assert forall|c: Coord| #[trigger] self.rooms@.contains_key(c) implies interior(c)
                && crate::obstacle::door::doors_distinct(self.rooms@[c]@.doors) by {
                assert(rooms0.contains_key(c));
            }
        }
        let ao = article(object);
        let ac = article(container);
        let mut o = concat3(name, " takes ", ao.as_str());
        o.append(" from ");
        o.append(ac.as_str());
        (concat2("you take the ", h.as_str()), Some(o))
    }

    /// `take`: picks up an item of the room, or takes one out of a
    /// container there; the word "from" is skipped.
    pub fn cmd_take(&mut self, u: u128, a: &[&str]) -> (r: Result<GameOutput, EnnuiError>)
        requires
            old(self).wf(),
            forall|i: int| 0 <= i < a@.len() ==> !is_all_form(#[trigger] a@[i]@),
        ensures
            spec_cmd_take_post(*old(self), *final(self), u, a@, r),
    {
        let words = Self::words_except(a, "from");
        let name = match self.name_of(u) {
            Ok(n) => n,
            Err(e) => return Err(e),
        };
        let loc = match self.loc_of(u) {
            Ok(l) => l,
            Err(e) => return Err(e),
        };
        let others = self.rooms.player_ids(loc).except(u);
        proof {
            assert(forall|j: int| 0 <= j < words@.len() ==> #[trigger] crate::interpreter::strs_view(words@)[j] == words@[j]@);
        }
        let ghost mut trg: Result<String, EnnuiError> = Err(EnnuiError::NoneFound);
        let (text, other) = if words.len() == 0 {
            (String::from_str("there seems to be an error"), None)
        } else if words.len() == 1 {
            let handle = words[0];
            proof {
                reveal_strlit("");
                assert(name_or_empty_none());
            }
            let tr = self.transfer(u, None, super::item::Direction::Take, handle);
            proof {
                trg = tr;
            }
            match tr {
                Ok(h) => {
                    let art = article(h.as_str());
                    (concat2("you take the ", h.as_str()), Some(concat3(name.as_str(), " picks up a ", art.as_str())))
                },
                Err(EnnuiError::Simple(Simple::TooHeavy)) => {
                    let art = article(handle);
                    (concat3("you can't pick up ", art.as_str(), ". It's too heavy"), None)
                },
                Err(_) => {
                    let art = article(handle);
                    (concat3("you don't see ", art.as_str(), " here"), None)
                },
            }
        } else if words.len() == 2 {
            if !self.rooms.contains_key(loc) {
                return Err(EnnuiError::Fatal(String::from_str("UNABLE TO FIND ROOM")));
            }
            self.take_from(u, loc, name.as_str(), words[0], words[1])
        } else {
            (String::from_str("be more specific. or less specific."), None)
        };
        let ghost text_g = text@;
        let ghost other_g = opt_view(other);
        let aud = crate::text::message::Audience(u, others);
        let out = super::message(aud, crate::text::message::Msg { s: text, o: other });
        proof {
            let p0 = old(self).spec_players()[u]@;
            let ws = words_without(a@, "from"@);
            if ws.len() == 1 {
                assert(super::item::spec_transfer_post(old(self).spec_rooms(), old(self).spec_players(), old(self).spec_player_ids(),
                    self.spec_rooms(), self.spec_players(), u, None, super::item::Direction::Take, ws[0], trg));
            } else if ws.len() == 2 {
                assert(spec_take_from_post(old(self).spec_rooms(), old(self).spec_players(), self.spec_rooms(),
                    self.spec_players(), u, p0.loc, p0.info.info.name, ws[0], ws[1], text_g, other_g));
                if out is Ok {
                    assert(output_view(out->Ok_0) == spec_room_answer(u, onlookers(old(self).spec_rooms(), p0.loc, u), text_g, other_g));
                }
            }
        }
        out
    }

    /// `give`: hands an item to another player, or to a guard.
    pub fn cmd_give(&mut self, u: u128, a: &[&str]) -> (r: Result<GameOutput, EnnuiError>)
        requires
            old(self).wf(),
            forall|i: int| 0 <= i < a@.len() ==> !is_all_form(#[trigger] a@[i]@),
        ensures
            spec_cmd_give_post(*old(self), *final(self), u, a@, r),
    {
        let name = match self.name_of(u) {
            Ok(n) => n,
            Err(e) => return Err(e),
        };
        let loc = match self.loc_of(u) {
            Ok(l) => l,
            Err(e) => return Err(e),
        };
        let mut other_ids: Vec<u128> = Vec::new();
        let mut fail: Option<EnnuiError> = None;
        let ghost mut trg: Result<String, EnnuiError> = Err(EnnuiError::NoneFound);
        let (text, other_msg) = if a.len() == 2 {
            let handle = a[0];
            let other = a[1];
            let tr = self.transfer(u, Some(other), super::item::Direction::Give, handle);
            proof {
                trg = tr;
            }
            match tr {
                Ok(h) => {
                    let art = article(h.as_str());
                    match self.id_of_in(loc, other) {
                        Some(id) => other_ids.push(id),
                        None => {
                            fail = Some(EnnuiError::NoneFound);
                        },
                    }
                    let mut t = concat3("you give ", other, " ");
                    t.append(art.as_str());
                    (t, Some(concat3(name.as_str(), " gives you ", art.as_str())))
                },
                Err(EnnuiError::Simple(Simple::ItemNotFound)) => {
                    let art = article(handle);
                    (concat2("you're not holding ", art.as_str()), None)
                },
                Err(EnnuiError::Simple(Simple::TooHeavy)) => {
                    let art = article(handle);
                    (concat3("you fail in your effort. ", art.as_str(), " is too heavy for them to carry"), None)
                },
                Err(EnnuiError::Simple(Simple::PlayerNotFound)) => {
                    (String::from_str("there's no-one by that name here"), None)
                },
                Err(EnnuiError::Simple(_)) => {
                    fail = Some(EnnuiError::Fatal(String::from_str("GIVE: SHOULD BE UNREACHABLE")));
                    (String::new(), None)
                },
                Err(EnnuiError::Fatal(e)) => {
                    fail = Some(EnnuiError::Fatal(e));
                    (String::new(), None)
                },
                Err(EnnuiError::Msg(m)) => (m, None),
                Err(_) => {
                    fail = Some(EnnuiError::Fatal(String::from_str("GIVE: SHOULD BE UNREACHABLE")));
                    (String::new(), None)
                },
            }
        } else {
            (String::from_str("E - NUN - CI - ATE"), None)
        };
        let aud = crate::text::message::Audience(u, other_ids);
        let out = match fail {
            Some(e) => Err(e),
            None => super::message(aud, crate::text::message::Msg { s: text, o: other_msg }),
        };
        proof {
            if a@.len() == 2 {
                let p0 = old(self).spec_players()[u]@;
                assert(super::item::spec_transfer_post(old(self).spec_rooms(), old(self).spec_players(), old(self).spec_player_ids(),
                    self.spec_rooms(), self.spec_players(), u, Some(a@[1]@), super::item::Direction::Give, a@[0]@, trg));
                assert(spec_give_outcome(trg, out, u, a@[0]@, a@[1]@, p0.info.info.name, self.spec_players(), self.spec_rooms(), p0.loc));
            }
        }
        out
    }

    /// The game stays well kept when a door of a room only changed state.
    proof fn lemma_door_change_keeps(old_g: &Game, new_g: &Game, loc: Coord, i: int, s: DoorStateView)
        requires
            old_g.wf(),
            old_g.spec_rooms().contains_key(loc),
            new_g.spec_rooms() == old_g.spec_rooms().insert(loc, new_g.spec_rooms()[loc]),
            0 <= i < old_g.spec_rooms()[loc]@.doors.len(),
            door_now(old_g.spec_rooms()[loc], new_g.spec_rooms()[loc], i, s),
            new_g.players == old_g.players,
        ensures
            new_g.wf(),
    {
        let r0 = old_g.spec_rooms()[loc];
        let r1 = new_g.spec_rooms()[loc];
        assert forall|a: int, b: int| 0 <= a < b < r1@.doors.len() implies r1@.doors[a].spec_dir() != r1@.doors[b].spec_dir() by {
            assert(r1@.doors[a].spec_dir() == r0@.doors[a].spec_dir());
            assert(r1@.doors[b].spec_dir() == r0@.doors[b].spec_dir());
        }
        assert forall|c: Coord| #[trigger] new_g.rooms@.contains_key(c) implies interior(c)
            && crate::obstacle::door::doors_distinct(new_g.rooms@[c]@.doors) by {
            assert(old_g.rooms@.contains_key(c));
        }
    }

    /// `open`: opens the only door of the room, or the one in the named
    /// direction.
    pub fn cmd_open(&mut self, u: u128, a: &[&str]) -> (r: Result<GameOutput, EnnuiError>)
        requires
            old(self).wf(),
        ensures
            spec_cmd_open_post(*old(self), *final(self), u, a@, r),
    {
        let loc = match self.loc_of(u) {
            Ok(l) => l,
            Err(e) => return Err(e),
        };
        let name = match self.name_of(u) {
            Ok(n) => n,
            Err(e) => return Err(e),
        };
        if !self.rooms.contains_key(loc) {
            return Err(EnnuiError::NoneFound);
        }
        let others = self.rooms.get(loc).unwrap().players().except(u);
        let n = self.rooms.get(loc).unwrap().doors().len();
        let ghost old_g = *self;
        let mut other_msg: Option<String> = None;
        let text = if a.len() == 0 {
            String::from_str("ok, what do you want to open?")
        } else if a.len() == 1 {
            if n > 1 {
                String::from_str("which door do you want to open?")
            } else if n == 0 {
                return Ok(super::reply(u, String::from_str("there's no door here")));
            } else {
                let room = self.rooms.get_mut(loc).unwrap();
                let t = try_door_open(name.as_str(), &mut other_msg, room, 0);
                proof {
                    let d0 = old_g.spec_rooms()[loc]@.doors[0];
                    let out = spec_door_unlock(d0.spec_state(), d0.spec_keyhole(), DoorStateView::Open, None);
                    Self::lemma_door_change_keeps(&old_g, self, loc, 0, out.0);
                }
                t
            }
        } else if a.len() == 2 {
            let dir = crate::location::direction::MapDir::from_word(a[1]);
            match self.rooms.get(loc).unwrap().doors().position(dir) {
                None => {
                    proof {
                        if exists|i: int| 0 <= i < old_g.spec_rooms()[loc]@.doors.len() && old_g.spec_rooms()[loc]@.doors[i].spec_dir() == dir {
                            assert(false);
                        }
                    }
                    return Ok(super::reply(u, String::from_str("there's no door in that direction")));
                },
                Some(i) => {
                    proof {
                        let doors = old_g.spec_rooms()[loc]@.doors;
                        let k = choose|k: int| 0 <= k < doors.len() && doors[k].spec_dir() == dir;
                        assert(crate::obstacle::door::doors_distinct(doors));
                        if k != i {
                            assert(false);
                        }
                    }
                    let room = self.rooms.get_mut(loc).unwrap();
                    let t = try_door_open(name.as_str(), &mut other_msg, room, i);
                    proof {
                        let d0 = old_g.spec_rooms()[loc]@.doors[i as int];
                        let out = spec_door_unlock(d0.spec_state(), d0.spec_keyhole(), DoorStateView::Open, None);
                        Self::lemma_door_change_keeps(&old_g, self, loc, i as int, out.0);
                    }
                    t
                },
            }
        } else {
            String::from_str("I'm not sure what you're getting at")
        };
        let aud = crate::text::message::Audience(u, others);
        super::message(aud, crate::text::message::Msg { s: text, o: other_msg })
    }

    /// `unlock`: tries the player's keys on the only door of the room, or on
    /// the one in the named direction.
    pub fn cmd_unlock(&mut self, u: u128, a: &[&str]) -> (r: Result<GameOutput, EnnuiError>)
        requires
            old(self).wf(),
        ensures
            spec_cmd_unlock_post(*old(self), *final(self), u, a@, r),
    {
        let loc = match self.loc_of(u) {
            Ok(l) => l,
            Err(e) => return Err(e),
        };
        let name = match self.name_of(u) {
            Ok(n) => n,
            Err(e) => return Err(e),
        };
        let others = self.rooms.player_ids(loc).except(u);
        let ghost old_g = *self;
        let mut other_msg: Option<String> = None;
        let text = if a.len() == 0 {
            String::from_str("ok, what do you want to unlock?")
        } else if a.len() == 1 || a.len() == 2 {
            if !self.rooms.contains_key(loc) {
                return Err(EnnuiError::Fatal(String::from_str("UNABLE TO FIND ROOM")));
            }
            let n = self.rooms.get(loc).unwrap().doors().len();
            let pick: Option<usize> = if a.len() == 1 {
                if n == 1 {
                    let lower = crate::text::strings::to_lowercase(a[0]);
                    if crate::text::strings::str_eq(lower.as_str(), "door") {
                        Some(0)
                    } else {
                        None
                    }
                } else {
                    None
                }
            } else {
                let dir = crate::location::direction::MapDir::from_word(a[1]);
                match self.rooms.get(loc).unwrap().doors().position(dir) {
                    None => {
                        proof {
                            if exists|i: int| 0 <= i < old_g.spec_rooms()[loc]@.doors.len() && old_g.spec_rooms()[loc]@.doors[i].spec_dir() == dir {
                                assert(false);
                            }
                        }
                        return Ok(super::reply(u, String::from_str("there's no door in that direction")));
                    },
                    Some(i) => {
                        proof {
                            let doors = old_g.spec_rooms()[loc]@.doors;
                            let k = choose|k: int| 0 <= k < doors.len() && doors[k].spec_dir() == dir;
                            assert(crate::obstacle::door::doors_distinct(doors));
                            if k != i {
                                assert(false);
                            }
                        }
                        Some(i)
                    },
                }
            };
            match pick {
                Some(i) => {
                    let player = self.players.get(u).unwrap();
                    let room = self.rooms.get_mut(loc).unwrap();
                    let t = try_door_unlock(name.as_str(), &mut other_msg, player, room, i);
                    proof {
                        let d0 = old_g.spec_rooms()[loc]@.doors[i as int];
                        let turns = spec_unlocks(d0.spec_state(), d0.spec_keyhole(), old_g.spec_players()[u]@.items);
                        Self::lemma_door_change_keeps(&old_g, self, loc, i as int,
                            if turns { DoorStateView::Closed } else { d0.spec_state() });
                    }
                    t
                },
                None => {
                    if n == 0 {
                        String::from_str("there's nothing to unlock here")
                    } else if n == 1 {
                        String::from_str("I'm not sure that you can even unlock that")
                    } else {
                        String::from_str("that's all greek to me")
                    }
                },
            }
        } else {
            String::from_str("that's pretty much gobbledygook to me")
        };
        let aud = crate::text::message::Audience(u, others);
        super::message(aud, crate::text::message::Msg { s: text, o: other_msg })
    }

    /// Marks the players with ids `ids` as watching a fight.
    fn assign_fight(&mut self, ids: &crate::player::list::PlayerIdList)
        requires
            old(self).wf(),
        ensures
            final(self).wf(),
            final(self).spec_rooms() == old(self).spec_rooms(),
            final(self).spec_player_ids() == old(self).spec_player_ids(),
            final(self).spec_outbox() == old(self).spec_outbox(),
            final(self).spec_fights() == old(self).spec_fights(),
            final(self).spec_fight_channel() == old(self).spec_fight_channel(),
            final(self).spec_departures() == old(self).spec_departures(),
            final(self).spec_players().dom() == old(self).spec_players().dom(),
            forall|k: u128| #[trigger] old(self).spec_players().contains_key(k) ==> final(self).spec_players()[k]@ == if ids@.contains(k) {
                crate::player::PlayerView { fighting: true, ..old(self).spec_players()[k]@ }
            } else {
                old(self).spec_players()[k]@
            },
            forall|k: u128| #[trigger] old(self).spec_players().contains_key(k)
                ==> crate::player::same_kind(old(self).spec_players()[k], final(self).spec_players()[k]),
    {
        let ghost players0 = self.players@;
        let mut i: usize = 0;
        while i < ids.len()
            invariant
                i <= ids@.len(),
                self.wf(),
                self.rooms@ == old(self).rooms@,
                self.players.spec_ids() == old(self).players.spec_ids(),
                self.outbox@ == old(self).outbox@,
                self.fights@ == old(self).fights@,
                self.fight_channel == old(self).fight_channel,
                self.departures@ == old(self).departures@,
                self.players@.dom() == players0.dom(),
                forall|k: u128| #[trigger] players0.contains_key(k) ==> self.players@[k]@ == if ids@.subrange(0, i as int).contains(k) {
                    crate::player::PlayerView { fighting: true, ..players0[k]@ }
                } else {
                    players0[k]@
                },
                forall|k: u128| #[trigger] players0.contains_key(k) ==> crate::player::same_kind(players0[k], self.players@[k]),
            decreases ids@.len() - i,
        {
            let id = ids.id_at(i);
            let ghost before = self.players@;
            match self.players.get_mut(id) {
                Some(p) => {
                    p.assign_fight_sender();
                },
                None => {},
            }
            proof {
                assert(self.players@.dom() =~= players0.dom());
                assert forall|k: u128| #[trigger] players0.contains_key(k) implies self.players@[k]@ == if ids@.subrange(0, i + 1).contains(k) {
                    crate::player::PlayerView { fighting: true, ..players0[k]@ }
                } else {
                    players0[k]@
                } by {
                    let t = ids@.subrange(0, i + 1);
                    assert(t =~= ids@.subrange(0, i as int).push(id));
                    if k == id {
                        assert(t[i as int] == id);
                    } else {
                        if t.contains(k) {
                            let m = choose|m: int| 0 <= m < t.len() && t[m] == k;
                            assert(ids@.subrange(0, i as int)[m] == k);
                        }
                        if ids@.subrange(0, i as int).contains(k) {
                            let m = choose|m: int| 0 <= m < i && ids@.subrange(0, i as int)[m] == k;
                            assert(t[m] == k);
                        }
                    }
                }
                assert forall|k: u128| #[trigger] self.players@.contains_key(k) implies self.players@[k]@.uuid == k
                    && interior(self.players@[k]@.loc) by {
                    assert(before.contains_key(k));
                }
            }
            i = i + 1;
        }
        assert(ids@.subrange(0, ids@.len() as int) =~= ids@);
    }

    /// `hit`: starts a fight with a player of the same room; the fight
    /// itself is run by the caller from the queue of fights.
    pub fn cmd_hit(&mut self, u: u128, a: &[&str]) -> (r: Result<GameOutput, EnnuiError>)
        requires
            old(self).wf(),
        ensures
            spec_cmd_hit_post(*old(self), *final(self), u, a@, r),
    {
        let loc = match self.loc_of(u) {
            Ok(l) => l,
            Err(e) => return Err(e),
        };
        if a.len() > 0 {
            let object = a[0];
            let other_id = match self.id_of_in(loc, object) {
                Some(p) => {
                    if p == u {
                        return Ok(super::reply(u, String::from_str("violence against the self is all too common. i am here to stop you.")));
                    }
                    p
                },
                None => return Ok(super::reply(u, concat3("you don't see ", object, " here"))),
            };
            if !self.fight_channel {
                return Err(EnnuiError::Fatal(String::from_str("ERROR: UNABLE TO CLONE SENDER")));
            }
            let audience = self.rooms.player_ids(loc).except(u).except(other_id);
            self.assign_fight(&audience);
            let ghost fights0 = self.fights@;
            let ghost aud = audience@;
            self.fights.push(super::FightRequest { aggressor: u, defender: other_id, audience });
            proof {
                assert(self.fights@.map_values(|f: super::FightRequest| (f.aggressor, f.defender, f.audience@))
                    =~= fights0.map_values(|f: super::FightRequest| (f.aggressor, f.defender, f.audience@)).push((u, other_id, aud)));
            }
        }
        Ok(super::reply(u, String::from_str("oh no")))
    }

    /// Runs a line typed by player `p`: the first word, in lower case,
    /// names the command, the other words are its arguments.
    pub fn interpret(&mut self, p: u128, s: &str) -> (r: Result<GameOutput, EnnuiError>)
        requires
            old(self).wf(),
            command_ok(s@),
        ensures
            final(self).wf(),
            spec_interpret_post(*old(self), *final(self), p, s@, r),
    {
        let lower = crate::text::strings::to_lowercase(s);
        let (cmd, args) = crate::interpreter::process_string_command(lower.as_str());
        proof {
            assert(lower@ == crate::text::strings::str_lowercase(s@));
            assert(cmd == spec_line_command(s@));
            assert(crate::interpreter::strs_view(args@) == spec_line_args(s@));
            assert(crate::interpreter::strs_view(args@).len() == args@.len());
            assert forall|i: int| grabs_args(cmd) && 0 <= i < args@.len() implies !is_all_form(#[trigger] args@[i]@) by {
                assert(crate::interpreter::strs_view(args@)[i] == args@[i]@);
            }
        }
        match cmd {
            C::Ouch | C::Whisper | C::Blank => return Err(EnnuiError::NoneFound),
            _ => {},
        }
        match self.verify_status(cmd, p) {
            Err(e) => return Err(e),
            Ok(Some(msg)) => return Ok(msg),
            Ok(None) => {},
        }
        let a = args.as_slice();
        proof {
            assert(a@ == args@);
        }
        match cmd {
            C::North => self.dir_func(p, crate::location::direction::MapDir::North),
            C::South => self.dir_func(p, crate::location::direction::MapDir::South),
            C::East => self.dir_func(p, crate::location::direction::MapDir::East),
            C::West => self.dir_func(p, crate::location::direction::MapDir::West),
            C::Look => self.cmd_look(p, a),
            C::Take => self.cmd_take(p, a),
            C::Drop => self.cmd_drop(p, a),
            C::Give => self.cmd_give(p, a),
            C::Wear => self.cmd_wear(p, a),
            C::Remove => self.cmd_remove(p, a),
            C::Chat => self.cmd_chat(p, a),
            C::Say => self.cmd_say(p, a),
            C::Eval => self.cmd_evaluate(p),
            C::Inventory => self.cmd_inventory(p),
            C::Open => self.cmd_open(p, a),
            C::Unlock => self.cmd_unlock(p, a),
            C::Hit => self.cmd_hit(p, a),
            C::Sleep | C::Wake | C::Stand => self.cmd_rest(p, cmd),
            C::Quit => Err(EnnuiError::Quit),
            _ => Ok(self.cmd_none(p)),
        }
    }

    /// Runs a line typed by player `p` as `interpret` does, where no word
    /// that names a thing has the `all.name` form, which is not handled;
    /// a line with such a word is left alone.
    pub fn run_line(&mut self, p: u128, s: &str) -> (r: Option<Result<GameOutput, EnnuiError>>)
        requires
            old(self).wf(),
        ensures
            final(self).wf(),
            match r {
                None => !command_ok(s@) && *final(self) == *old(self),
                Some(x) => command_ok(s@) && spec_interpret_post(*old(self), *final(self), p, s@, x),
            },
    {
        let lower = crate::text::strings::to_lowercase(s);
        let (cmd, args) = crate::interpreter::process_string_command(lower.as_str());
        proof {
            assert(cmd == spec_line_command(s@));
            assert(crate::interpreter::strs_view(args@) == spec_line_args(s@));
            assert(crate::interpreter::strs_view(args@).len() == args@.len());
        }
        if picks_things(cmd) {
            let mut i: usize = 0;
            while i < args.len()
                invariant
                    i <= args@.len(),
                    *self == *old(self),
                    old(self).wf(),
                    grabs_args(cmd),
                    cmd == spec_line_command(s@),
                    crate::interpreter::strs_view(args@).len() == args@.len(),
                    crate::interpreter::strs_view(args@) == spec_line_args(s@),
                    forall|j: int| 0 <= j < i ==> !is_all_form(#[trigger] spec_line_args(s@)[j]),
                decreases args@.len() - i,
            {
                assert(crate::interpreter::strs_view(args@)[i as int] == args@[i as int]@);
                if crate::hook::all_form(args[i]) {
                    return None;
                }
                i = i + 1;
            }
        }
        Some(self.interpret(p, s))
    }
}

} // verus!
