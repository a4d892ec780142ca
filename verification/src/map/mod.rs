//! Rooms of the map, and the map itself.
pub mod list;

use vstd::prelude::*;
use crate::attribute::{Attribute, Quality};
use crate::describe::{Describe, Description};
use crate::error::EnnuiError;
use crate::hook::{is_all_form, spec_grab, Grabber, Hook};
use crate::item::{DescriptionWithQualities, DescriptionWithQualitiesView, Item, YamlItemList};
use crate::item::list::conv;
use crate::list::{nth_answering, spec_display_items, List, ListTrait};
use crate::location::direction::MapDir;
use crate::location::{Coord, Locate};
use crate::obstacle::door::{Door, DoorList, DoorState, StateResult};
use crate::obstacle::key::KeyType;
use crate::player::list::{not_id, PlayerIdList};
use crate::text::{cyan_code, spec_paint, Color};
use crate::text::strings::concat3;

verus! {

/// A room: its description, place, players, items, doors, and the items
/// as the map file writes them until `init` turns them into game items.
#[derive(Debug)]
pub struct Room {
    info: DescriptionWithQualities,
    loc: Coord,
    players: PlayerIdList,
    items: List<Item, Quality>,
    inner_items: Option<YamlItemList>,
    doors: DoorList,
}

/// The contents of a room.
pub struct RoomView {
    pub info: DescriptionWithQualitiesView,
    pub loc: Coord,
    pub players: Seq<u128>,
    pub items: Seq<Item>,
    pub doors: Seq<Door>,
    pub written_items: Option<nat>,
}

impl View for Room {
    type V = RoomView;

    closed spec fn view(&self) -> RoomView {
        RoomView {
            info: self.info@,
            loc: self.loc,
            players: self.players@,
            items: self.items.spec_inner(),
            doors: self.doors.spec_doors(),
            written_items: match self.inner_items {
                Some(l) => Some(l.inner@.len()),
                None => None,
            },
        }
    }
}

impl Room {
    /// The items as the map file writes them, until `init` takes them.
    pub closed spec fn spec_written(&self) -> Option<YamlItemList> {
        self.inner_items
    }
}

/// `r1` is `r0` after `init`: the written items became game items, in
/// order, and nothing else changed.
pub open spec fn initialized(r0: Room, r1: Room) -> bool {
    &&& r1@ == (RoomView { items: r1@.items, written_items: None, ..r0@ })
    &&& match r0.spec_written() {
        Some(l) => {
            &&& r1@.items.len() == l.inner@.len()
            &&& forall|j: int| 0 <= j < l.inner@.len() ==> crate::item::list::converted(l.inner@[j], #[trigger] r1@.items[j])
        },
        None => r1@.items == Seq::<Item>::empty(),
    }
}

/// How a room is shown: its name in cyan, its description on the next
/// line, then its items.
pub open spec fn spec_room_text(name: Seq<char>, description: Seq<char>, items: Seq<Item>) -> Seq<char> {
    spec_paint(cyan_code(), name) + seq!['\n', ' ', ' ', ' ', ' '] + description + spec_display_items(items)
}

/// The short names of `dirs`, separated by commas.
pub open spec fn spec_exit_names(dirs: Seq<MapDir>) -> Seq<char>
    decreases dirs.len(),
{
    if dirs.len() == 0 {
        Seq::empty()
    } else if dirs.len() == 1 {
        dirs[0].spec_short_name()
    } else {
        spec_exit_names(dirs.drop_last()) + seq![',', ' '] + dirs.last().spec_short_name()
    }
}

/// The line of exits under a room: `[n, s]` on a new line.
pub open spec fn spec_exit_line(dirs: Seq<MapDir>) -> Seq<char> {
    seq!['\n', '['] + spec_exit_names(dirs) + seq![']']
}

/// A space where players stand and items lie.
pub trait Space: Locate + ListTrait {
    spec fn players_view(&self) -> Seq<u128>;

    fn players(&self) -> (r: &PlayerIdList)
        ensures
            r@ == self.players_view(),
    ;

    /// The players other than `u`, in order.
    fn players_except(&self, u: u128) -> (r: Vec<u128>)
        ensures
            r@ == self.players_view().filter(not_id(u)),
    ;
}

/// What is done through `players_mut` is done to the room itself: the room
/// then holds what the handed-out list holds when the borrow ends, and
/// nothing else of it changes. So where the list took `u` in (as
/// `PlayerIdList::insert` leaves it) the room holds `u`, and where `u` was
/// taken out (as `PlayerIdList::remove` leaves it) the room does not.
pub proof fn law_players_mut(r0: RoomView, r1: RoomView, after: Seq<u128>, u: u128)
    requires
        r1 == (RoomView { players: after, ..r0 }),
    ensures
        r1.info == r0.info && r1.loc == r0.loc && r1.items == r0.items && r1.doors == r0.doors,
        after == r0.players.push(u) ==> r1.players.contains(u),
        r0.players.contains(u) && after == r0.players ==> r1.players.contains(u),
        after == r0.players.filter(not_id(u)) ==> !r1.players.contains(u),
{
    if after == r0.players.push(u) {
        assert(after[r0.players.len() as int] == u);
    }
    if after == r0.players.filter(not_id(u)) && after.contains(u) {
        let k = choose|k: int| 0 <= k < after.len() && after[k] == u;
        r0.players.lemma_filter_pred(not_id(u), k);
    }
}

impl Room {
    /// An empty room with a name and a description (empty if none).
    pub fn new(name: &str, description: Option<&str>) -> (r: Self)
        ensures
            r@.info.info.name == name@,
            r@.info.info.description == crate::describe::text_or_empty(description),
            r@.info.info.display == Seq::<char>::empty(),
            r@.info.info.handle == Seq::<Seq<char>>::empty(),
            r@.info.attr == Seq::<Quality>::empty(),
            r@.loc == Coord(0, 0),
            r@.players == Seq::<u128>::empty(),
            r@.items == Seq::<Item>::empty(),
            r@.doors == Seq::<Door>::empty(),
            r@.written_items is None,
    {
        Room {
            info: DescriptionWithQualities::new(name, description, Hook(Vec::new())),
            loc: Coord(0, 0),
            players: PlayerIdList::new(),
            items: List::new(),
            inner_items: None,
            doors: DoorList::new(),
        }
    }

    /// A room read from a map file.
    pub fn from_parts(info: DescriptionWithQualities, loc: Coord, players: PlayerIdList, inner_items: Option<YamlItemList>, doors: DoorList) -> (r: Self)
        requires
            doors.wf(),
        ensures
            r@.info == info@,
            r@.loc == loc,
            r@.players == players@,
            r@.items == Seq::<Item>::empty(),
            r@.doors == doors.spec_doors(),
            crate::obstacle::door::doors_distinct(r@.doors),
            r@.written_items == match inner_items {
                Some(l) => Some(l.inner@.len()),
                None => None::<nat>,
            },
    {
        proof {
            doors.lemma_wf();
        }
        Room { info, loc, players, items: List::new(), inner_items, doors }
    }

    /// Turns the written-down items into game items; a room without any
    /// ends up with none.
    pub fn init(&mut self)
        ensures
            final(self)@.written_items is None,
            final(self)@.info == old(self)@.info,
            final(self)@.loc == old(self)@.loc,
            final(self)@.players == old(self)@.players,
            final(self)@.doors == old(self)@.doors,
            match old(self)@.written_items {
                Some(n) => final(self)@.items.len() == n,
                None => final(self)@.items == Seq::<Item>::empty(),
            },
            initialized(*old(self), *final(self)),
    {
        let items = match self.inner_items.take() {
            Some(inner) => conv(&inner),
            None => List::new(),
        };
        self.items = items;
    }

    pub fn doors(&self) -> (r: &DoorList)
        ensures
            r.spec_doors() == self@.doors,
    {
        &self.doors
    }

    /// Tries to bring the door at position `i` into `new_state` with `key`.
    pub fn unlock_door(&mut self, i: usize, new_state: DoorState, key: Option<&KeyType>) -> (r: StateResult<DoorState>)
        requires
            i < old(self)@.doors.len(),
        ensures
            final(self)@.doors.len() == old(self)@.doors.len(),
            forall|j: int| 0 <= j < old(self)@.doors.len() && j != i ==> final(self)@.doors[j] == old(self)@.doors[j],
            ({
                let d0 = old(self)@.doors[i as int];
                let d1 = final(self)@.doors[i as int];
                let out = crate::obstacle::door::spec_door_unlock(d0.spec_state(), d0.spec_keyhole(), new_state@, crate::obstacle::door::key_value(key));
                &&& d1.spec_state() == out.0
                &&& crate::obstacle::door::result_view(r) == out.1
                &&& d1.spec_dir() == d0.spec_dir()
                &&& d1.spec_keyhole() == d0.spec_keyhole()
                &&& d1.spec_alt_dest() == d0.spec_alt_dest()
            }),
            final(self)@.info == old(self)@.info,
            final(self)@.loc == old(self)@.loc,
            final(self)@.players == old(self)@.players,
            final(self)@.items == old(self)@.items,
    {
        self.doors.unlock_at(i, new_state, key)
    }

    /// The room as it is shown to a player in it.
    pub fn display(&self) -> (r: String)
        ensures
            r@ == spec_room_text(self@.info.info.name, self@.info.info.description, self@.items),
    {
        proof {
            reveal_strlit("\n    ");
        }
        let name = Color::Cyan(self.info.info.name.clone()).render();
        let items_list = self.items.display_items();
        let mut r = concat3(name.as_str(), "\n    ", self.info.info.description.as_str());
        r.append(items_list.as_str());
        proof {
            assert(r@ =~= spec_room_text(self@.info.info.name, self@.info.info.description, self@.items));
        }
        r
    }

    /// The exits of a room as shown under it: `[n, s]` on a new line.
    pub fn exit_display(exits: &[MapDir]) -> (r: String)
        ensures
            r@ == spec_exit_line(exits@),
    {
        proof {
            reveal_strlit("\n[");
            reveal_strlit(", ");
            reveal_strlit("]");
        }
        let mut exit_str = String::from_str("\n[");
        let mut i: usize = 0;
        while i < exits.len()
            invariant
                i <= exits@.len(),
                exit_str@ == seq!['\n', '['] + spec_exit_names(exits@.subrange(0, i as int)),
            decreases exits@.len() - i,
        {
            let ghost before = exit_str@;
            proof {
                reveal_strlit(", ");
            }
            if i > 0 {
                exit_str.append(", ");
            }
            exit_str.append(exits[i].to_string_short());
            proof {
                let s = exits@.subrange(0, i + 1);
                assert(s.drop_last() =~= exits@.subrange(0, i as int));
                assert(s.last() == exits@[i as int]);
                if i == 0 {
                    assert(exit_str@ =~= seq!['\n', '['] + spec_exit_names(s));
                } else {
                    assert(s.len() >= 2);
                    assert(spec_exit_names(s) == spec_exit_names(s.drop_last()) + seq![',', ' '] + s.last().spec_short_name());
                    assert(exit_str@ =~= before + seq![',', ' '] + exits@[i as int].spec_short_name());
                    assert(exit_str@ =~= seq!['\n', '['] + spec_exit_names(s));
                }
            }
            i = i + 1;
        }
        assert(exits@.subrange(0, exits@.len() as int) =~= exits@);
        exit_str.append("]");
        exit_str
    }

    /// The room's own list of players, to change: what it holds when the
    /// borrow ends is what the room holds.
    pub fn players_mut(&mut self) -> (r: &mut PlayerIdList)
        ensures
            r@ == old(self)@.players,
            final(self)@ == (RoomView { players: final(r)@, ..old(self)@ }),
    {
        &mut self.players
    }

    /// Lets `p` into the room; answers whether it was not there yet.
    pub fn add_player(&mut self, p: u128) -> (r: bool)
        ensures
            r == !old(self)@.players.contains(p),
            final(self)@ == (RoomView {
                players: if r { old(self)@.players.push(p) } else { old(self)@.players },
                ..old(self)@
            }),
    {
        self.players.insert(p)
    }

    /// Sends `p` out of the room; answers whether it was there.
    pub fn remove_player(&mut self, p: u128) -> (r: bool)
        ensures
            r == old(self)@.players.contains(p),
            final(self)@ == (RoomView { players: old(self)@.players.filter(not_id(p)), ..old(self)@ }),
    {
        self.players.remove(p)
    }

    /// Puts an item down in the room.
    pub fn add_item(&mut self, i: Item)
        ensures
            final(self)@ == (RoomView { items: old(self)@.items.push(i), ..old(self)@ }),
    {
        let _ = self.items.insert_item(i);
    }

    /// The item that a handle such as `2.sword` picks.
    pub fn get_item_by(&self, handle: &str) -> (r: Option<&Item>)
        requires
            !is_all_form(handle@),
        ensures
            match nth_answering(self@.items, spec_grab(handle@).0, spec_grab(handle@).1) {
                Some(i) => r matches Some(x) && *x == self@.items[i],
                None => r is None,
            },
    {
        self.items.get_item(Grabber::from_str(handle))
    }

    /// The item that a handle such as `2.sword` picks, to change.
    pub fn get_item_mut(&mut self, handle: &str) -> (r: Option<&mut Item>)
        requires
            !is_all_form(handle@),
        ensures
            match nth_answering(old(self)@.items, spec_grab(handle@).0, spec_grab(handle@).1) {
                Some(i) => r matches Some(x) && *x == old(self)@.items[i]
                    && final(self)@ == (RoomView { items: old(self)@.items.update(i, *final(x)), ..old(self)@ }),
                None => r is None && final(self)@ == old(self)@,
            },
    {
        self.items.get_item_mut(Grabber::from_str(handle))
    }

    pub fn items(&self) -> (r: &List<Item, Quality>)
        ensures
            r.spec_inner() == self@.items,
    {
        &self.items
    }

    /// Takes every item out of the room.
    pub fn get_itemlist(&mut self) -> (r: List<Item, Quality>)
        ensures
            r.spec_inner() == old(self)@.items,
            final(self)@ == (RoomView { items: Seq::empty(), ..old(self)@ }),
    {
        let mut l = List::new();
        std::mem::swap(&mut l, &mut self.items);
        l
    }

    /// Puts a list of items in place of the room's.
    pub fn replace_itemlist(&mut self, i: List<Item, Quality>)
        ensures
            final(self)@ == (RoomView { items: i.spec_inner(), ..old(self)@ }),
    {
        self.items = i;
    }
}

impl Describe for Room {
    open spec fn spec_name(&self) -> Seq<char> {
        self@.info.info.name
    }

    open spec fn spec_display(&self) -> Seq<char> {
        self@.info.info.display
    }

    open spec fn spec_description(&self) -> Seq<char> {
        self@.info.info.description
    }

    open spec fn spec_handle(&self) -> Seq<Seq<char>> {
        self@.info.info.handle
    }

    fn name(&self) -> (r: String) {
        self.info.name()
    }

    fn display(&self) -> (r: String) {
        self.info.display()
    }

    fn description(&self) -> (r: String) {
        self.info.description()
    }

    fn handle(&self) -> (r: Hook) {
        self.info.handle()
    }
}

impl Attribute<Quality> for Room {
    open spec fn attr_view(&self) -> Seq<Quality> {
        self@.info.attr
    }

    open spec fn holds_attrs(&self) -> bool {
        true
    }

    fn attr(&self) -> (r: Vec<Quality>) {
        self.info.attr()
    }

    fn set_attr(&mut self, q: Quality) {
        self.info.set_attr(q);
    }

    fn unset_attr(&mut self, q: Quality) {
        self.info.unset_attr(q);
    }

    fn is(&self, a: Quality) -> (r: bool) {
        self.info.is(a)
    }

    fn is_all(&self, ats: &[Quality]) -> (r: bool) {
        self.info.is_all(ats)
    }
}

impl ListTrait for Room {
    type Item = Item;

    open spec fn items_view(&self) -> Seq<Item> {
        self@.items
    }

    fn get_item(&self, handle: Grabber) -> (r: Option<&Item>) {
        self.items.get_item(handle)
    }

    fn get_item_owned(&mut self, handle: Grabber) -> (r: Result<Item, EnnuiError>)
        ensures
            final(self)@ == (RoomView { items: final(self)@.items, ..old(self)@ }),
    {
        self.items.get_item_owned(handle)
    }

    open spec fn spec_accepts(&self, item: Item) -> bool {
        true
    }

    open spec fn spec_items_after_insert(&self, item: Item) -> Seq<Item> {
        self@.items.push(item)
    }

    fn insert_item(&mut self, item: Item) -> (r: Result<(), Item>)
        ensures
            r is Ok,
            final(self)@ == (RoomView { items: old(self)@.items.push(item), ..old(self)@ }),
    {
        self.items.insert_item(item)
    }

    fn list(&self) -> (r: Vec<&Item>) {
        self.items.list()
    }

    fn display_items(&self) -> (r: String) {
        self.items.display_items()
    }
}

impl Locate for Room {
    open spec fn spec_loc(&self) -> Coord {
        self@.loc
    }

    fn loc(&self) -> (r: Coord) {
        self.loc
    }
}

impl Space for Room {
    open spec fn players_view(&self) -> Seq<u128> {
        self@.players
    }

    fn players(&self) -> (r: &PlayerIdList) {
        &self.players
    }

    fn players_except(&self, u: u128) -> (r: Vec<u128>) {
        self.players.except(u).to_vec()
    }
}

} // verus!
