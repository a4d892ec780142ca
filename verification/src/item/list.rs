//! Item lists and guards.
use vstd::prelude::*;
use crate::attribute::{
    qualities_contain, qualities_contain_all, remove_first, remove_quality, Attribute, Quality,
};
use crate::describe::{Describe, Description};
use crate::error::EnnuiError;
use crate::hook::{Grabber, Hook};
use crate::list::{join_lines, join_with_newlines, paint, spec_display_items, List, ListTrait};
use crate::text::{article, green_code, spec_article, spec_paint, Color};
use crate::obstacle::door::{GuardState, Lock, ObstacleState, StateResult};
use crate::obstacle::key::{Key, KeyType};
use super::{DescriptionWithQualities, Item, YamlItem, YamlItemList};

verus! {

/// What a guard says of himself once he has been given his key.
pub open spec fn happy_guard_description() -> Seq<char> {
    "He seems happy as a clam, and tells you over and over how grateful he is to have warm genitals."@
}

/// A guard who blocks an exit until given the key that matches his lock.
#[derive(Debug, Default)]
pub struct RenaissanceGuard {
    pub items: List<Item, Quality>,
    pub state: GuardState,
    pub lock: u64,
    pub info: Description,
    pub attr: Vec<Quality>,
}

impl Clone for RenaissanceGuard {
    /// A copy of the guard that carries no items.
    fn clone(&self) -> (r: Self)
        ensures
            r.info@ == self.info@,
            r.items.items_view() == Seq::<Item>::empty(),
            r.state == self.state,
            r.lock == self.lock,
            r.attr@ == self.attr@,
    {
        RenaissanceGuard {
            info: self.info.clone(),
            items: List::new(),
            state: self.state,
            lock: self.lock,
            attr: self.attr.clone(),
        }
    }
}

impl RenaissanceGuard {
    /// A guard made from a description: closed, lock 0, no items.
    pub fn from_info(b: DescriptionWithQualities) -> (r: Self)
        ensures
            r.info == b.info,
            r.attr == b.attr,
            r.state == GuardState::Closed,
            r.lock == 0,
            r.items.items_view() == Seq::<Item>::empty(),
    {
        RenaissanceGuard { items: List::new(), state: GuardState::Closed, lock: 0, info: b.info, attr: b.attr }
    }
}

impl Describe for RenaissanceGuard {
    open spec fn spec_name(&self) -> Seq<char> {
        self.info.name@
    }

    open spec fn spec_display(&self) -> Seq<char> {
        self.info.display@
    }

    /// A closed guard is described by his description; an open one is happy.
    open spec fn spec_description(&self) -> Seq<char> {
        match self.state {
            GuardState::Closed => self.info.description@,
            GuardState::Open => happy_guard_description(),
        }
    }

    open spec fn spec_handle(&self) -> Seq<Seq<char>> {
        self.info.handle@
    }

    fn name(&self) -> (r: String) {
        self.info.name()
    }

    fn display(&self) -> (r: String) {
        self.info.display()
    }

    fn description(&self) -> (r: String) {
        match self.state() {
            GuardState::Closed => self.info.description(),
            GuardState::Open => {
                proof {
                    reveal_strlit("He seems happy as a clam, and tells you over and over how grateful he is to have warm genitals.");
                }
                String::from_str("He seems happy as a clam, and tells you over and over how grateful he is to have warm genitals.")
            },
        }
    }

    fn handle(&self) -> (r: Hook) {
        self.info.handle()
    }
}

impl Attribute<Quality> for RenaissanceGuard {
    open spec fn attr_view(&self) -> Seq<Quality> {
        self.attr@
    }

    open spec fn holds_attrs(&self) -> bool {
        true
    }

    fn attr(&self) -> (r: Vec<Quality>) {
        crate::attribute::copy_qualities(&self.attr)
    }

    fn set_attr(&mut self, q: Quality)
        ensures
            final(self).info == old(self).info,
            final(self).lock == old(self).lock,
            final(self).state == old(self).state,
            final(self).items == old(self).items,
    {
        self.attr.push(q);
    }

    fn unset_attr(&mut self, q: Quality) {
        remove_quality(&mut self.attr, q);
    }

    fn is(&self, a: Quality) -> (r: bool) {
        qualities_contain(&self.attr, a)
    }

    fn is_all(&self, ats: &[Quality]) -> (r: bool) {
        qualities_contain_all(&self.attr, ats)
    }
}

impl ObstacleState<GuardState> for RenaissanceGuard {
    fn state(&self) -> (r: GuardState)
        ensures
            r == self.state,
    {
        self.state
    }
}

/// Whether a key fits a guard's lock.
pub open spec fn key_fits(key: Option<&KeyType>, lock: u64) -> bool {
    match key {
        Some(k) => k.key == lock,
        None => false,
    }
}

impl Lock<GuardState> for RenaissanceGuard {
    /// A guard opens when asked to open with the key of his lock; otherwise
    /// he stays as he is and answers with his state.
    fn unlock(&mut self, new_state: GuardState, key: Option<&KeyType>) -> (r: StateResult<GuardState>)
        ensures
            (new_state == GuardState::Open && key_fits(key, old(self).lock)) ==> {
                &&& r is Ok
                &&& final(self).state == GuardState::Open
            },
            !(new_state == GuardState::Open && key_fits(key, old(self).lock)) ==> {
                &&& r == Err::<(), GuardState>(old(self).state)
                &&& final(self).state == old(self).state
            },
            final(self).lock == old(self).lock,
            final(self).info == old(self).info,
            final(self).attr == old(self).attr,
            final(self).items == old(self).items,
    {
        if new_state == GuardState::Open {
            match key {
                Some(k) => {
                    if k.key() == self.lock {
                        self.state = new_state;
                        Ok(())
                    } else {
                        Err(self.state())
                    }
                },
                None => Err(self.state()),
            }
        } else {
            Err(self.state())
        }
    }

    fn is_locked(&self) -> (r: bool)
        ensures
            r == (self.state == GuardState::Closed),
    {
        self.state == GuardState::Closed
    }
}

/// Whether an item is a key that fits the lock.
pub open spec fn is_fitting_key(item: Item, lock: u64) -> bool {
    match item {
        Item::Key(k) => k.key == lock,
        _ => false,
    }
}

/// A guard: something with a lock that holds items.
pub trait Guard: Lock<GuardState> + ListTrait<Item = Item> {}

impl Guard for RenaissanceGuard {}

impl ListTrait for RenaissanceGuard {
    type Item = Item;

    open spec fn items_view(&self) -> Seq<Item> {
        self.items.items_view()
    }

    fn get_item(&self, handle: Grabber) -> (r: Option<&Item>) {
        self.items.get_item(handle)
    }

    fn get_item_owned(&mut self, handle: Grabber) -> (r: Result<Item, EnnuiError>) {
        self.items.get_item_owned(handle)
    }

    /// A guard takes only the key of his lock, which opens him; the key is
    /// not kept.
    open spec fn spec_accepts(&self, item: Item) -> bool {
        is_fitting_key(item, self.lock)
    }

    open spec fn spec_items_after_insert(&self, item: Item) -> Seq<Item> {
        self.items.items_view()
    }

    fn insert_item(&mut self, item: Item) -> (r: Result<(), Item>)
        ensures
            r is Ok ==> final(self).state == GuardState::Open,
            r is Err ==> final(self).state == old(self).state,
            final(self).lock == old(self).lock,
            final(self).info == old(self).info,
            final(self).attr == old(self).attr,
            final(self).items == old(self).items,
    {
        let fits = match &item {
            Item::Key(k) => {
                match self.unlock(GuardState::Open, Some(k)) {
                    Ok(()) => true,
                    Err(_) => false,
                }
            },
            _ => false,
        };
        if fits {
            Ok(())
        } else {
            Err(item)
        }
    }

    fn list(&self) -> (r: Vec<&Item>) {
        self.items.list()
    }

    fn display_items(&self) -> (r: String) {
        self.items.display_items()
    }
}

/// The items a player or a room holds, with a description of the list.
#[derive(Debug, Default)]
pub struct ItemList {
    inner: Vec<Item>,
    info: DescriptionWithQualities,
}

/// The line of each item: its display line with its article.
pub open spec fn article_lines(s: Seq<Item>) -> Seq<Seq<char>> {
    s.map_values(|i: Item| spec_article(i.spec_display()))
}

impl ItemList {
    pub closed spec fn spec_inner(&self) -> Seq<Item> {
        self.inner@
    }

    pub closed spec fn spec_info(&self) -> DescriptionWithQualities {
        self.info
    }

    /// An empty list with an empty description.
    pub fn new() -> (r: Self)
        ensures
            r.spec_inner() == Seq::<Item>::empty(),
            r.spec_info()@.info.name == Seq::<char>::empty(),
            r.spec_info()@.info.display == Seq::<char>::empty(),
            r.spec_info()@.info.description == Seq::<char>::empty(),
            r.spec_info()@.info.handle == Seq::<Seq<char>>::empty(),
            r.spec_info()@.attr == Seq::<Quality>::empty(),
    {
        proof {
            reveal_strlit("");
        }
        let h = Hook(Vec::new());
        assert(h@ =~= Seq::<Seq<char>>::empty());
        ItemList {
            inner: Vec::new(),
            info: DescriptionWithQualities { info: Description::new("", None, h), attr: Vec::new() },
        }
    }

    pub fn new_with_info(info: DescriptionWithQualities) -> (r: Self)
        ensures
            r.spec_inner() == Seq::<Item>::empty(),
            r.spec_info() == info,
    {
        ItemList { inner: Vec::new(), info }
    }

    pub fn into_inner(self) -> (r: Vec<Item>)
        ensures
            r@ == self.spec_inner(),
    {
        self.inner
    }

    pub fn iter(&self) -> (r: std::slice::Iter<'_, Item>)
        ensures
            vstd::std_specs::iter::IteratorSpec::remaining(&r).unref() == self.spec_inner(),
    {
        self.inner.iter()
    }

    pub fn push(&mut self, item: Item)
        ensures
            final(self).spec_inner() == old(self).spec_inner().push(item),
            final(self).spec_info() == old(self).spec_info(),
    {
        self.inner.push(item);
    }

    /// Each item's display line with its article, one per line, in green.
    pub fn display_items(&self) -> (r: String)
        ensures
            r@ == spec_paint(green_code(), join_lines(article_lines(self.spec_inner()))),
    {
        let mut lines: Vec<String> = Vec::new();
        let mut i: usize = 0;
        while i < self.inner.len()
            invariant
                i <= self.inner@.len(),
                lines@.len() == i,
                lines@.map_values(|s: String| s@) == article_lines(self.inner@.subrange(0, i as int)),
            decreases self.inner@.len() - i,
        {
            let d = self.inner[i].display();
            let line = article(d.as_str());
            let ghost before = lines@;
            lines.push(line);
            proof {
                let a = lines@.map_values(|s: String| s@);
                let b = article_lines(self.inner@.subrange(0, i + 1));
                assert forall|j: int| 0 <= j < a.len() implies a[j] == b[j] by {
                    if j < i {
                        assert(a[j] == before.map_values(|s: String| s@)[j]);
                        assert(b[j] == article_lines(self.inner@.subrange(0, i as int))[j]);
                    }
                }
                assert(a =~= b);
            }
            i = i + 1;
        }
        assert(self.inner@.subrange(0, self.inner@.len() as int) =~= self.inner@);
        let joined = join_with_newlines(&lines);
        paint(Color::Green(joined))
    }
}

impl Describe for ItemList {
    closed spec fn spec_name(&self) -> Seq<char> {
        self.info.info.name@
    }

    closed spec fn spec_display(&self) -> Seq<char> {
        self.info.info.display@
    }

    closed spec fn spec_description(&self) -> Seq<char> {
        self.info.info.description@
    }

    closed spec fn spec_handle(&self) -> Seq<Seq<char>> {
        self.info.info.handle@
    }

    fn name(&self) -> (r: String) {
        self.info.name()
    }

    fn display(&self) -> (r: String) {
        self.info.display()
    }

    fn description(&self) -> (r: String) {
        self.info.description()
    }

    fn handle(&self) -> (r: Hook) {
        self.info.handle()
    }
}

impl Attribute<Quality> for ItemList {
    closed spec fn attr_view(&self) -> Seq<Quality> {
        self.info.attr@
    }

    open spec fn holds_attrs(&self) -> bool {
        true
    }

    fn attr(&self) -> (r: Vec<Quality>) {
        self.info.attr()
    }

    fn set_attr(&mut self, q: Quality) {
        self.info.set_attr(q)
    }

    fn unset_attr(&mut self, q: Quality) {
        self.info.unset_attr(q);
    }

    fn is(&self, a: Quality) -> (r: bool) {
        self.info.is(a)
    }

    fn is_all(&self, ats: &[Quality]) -> (r: bool) {
        self.info.is_all(ats)
    }
}

/// A copy of a description for a new item, while the written-down
/// description gains the quality `q` (the copy does not).
pub fn conv_desc(d: &mut DescriptionWithQualities, q: Quality) -> (r: DescriptionWithQualities)
    ensures
        r@ == old(d)@,
        final(d).info == old(d).info,
        final(d).attr@ == old(d).attr@.push(q),
{
    let new = d.clone();
    d.attr.push(q);
    new
}

/// A written-down description turned into an item's description: same
/// names and qualities.
pub open spec fn same_desc(a: DescriptionWithQualities, b: DescriptionWithQualities) -> bool {
    a@ == b@
}

/// `it` is what the written-down item `y` becomes: simple items keep their
/// description; a guard keeps his direction, description and lock, starts
/// closed with no items and gains the quality of a container; a key keeps
/// its description and number and gains the quality of a key; a container
/// keeps its list's description and qualities and holds what its written
/// items become, in order.
pub open spec fn converted(y: YamlItem, it: Item) -> bool
    decreases y,
{
    match (y, it) {
        (YamlItem::Clothing(d), Item::Clothing(e)) => same_desc(d, e),
        (YamlItem::Weapon(d), Item::Weapon(e)) => same_desc(d, e),
        (YamlItem::Scenery(d), Item::Scenery(e)) => same_desc(d, e),
        (YamlItem::Edible(d), Item::Edible(e)) => same_desc(d, e),
        (YamlItem::Holdable(d), Item::Holdable(e)) => same_desc(d, e),
        (YamlItem::Container(l), Item::Container(c)) => {
            &&& c.spec_info()@ == l.info.info@
            &&& c.spec_attr() == l.info.attr@
            &&& c.items_view().len() == l.inner@.len()
            &&& forall|j: int| 0 <= j < l.inner@.len() ==> converted(l.inner@[j], #[trigger] c.items_view()[j])
        },
        (YamlItem::Guard { dir, info, lock, .. }, Item::Guard(d2, g)) => {
            &&& d2 == dir
            &&& g.info@ == info.info@
            &&& g.attr@ == info.attr@.push(Quality::Container)
            &&& g.lock == lock
            &&& g.state == GuardState::Closed
            &&& g.items.items_view() == Seq::<Item>::empty()
        },
        (YamlItem::Key(n, d), Item::Key(k)) => {
            &&& k.info@ == d.info@
            &&& k.attr@ == d.attr@.push(Quality::Key)
            &&& k.key == n
        },
        _ => false,
    }
}

/// Turns a list of written-down items into a list of game items.
pub fn conv(list: &YamlItemList) -> (r: List<Item, Quality>)
    ensures
        r.items_view().len() == list.inner@.len(),
        forall|j: int| 0 <= j < list.inner@.len() ==> converted(list.inner@[j], #[trigger] r.items_view()[j]),
        r.spec_info()@ == list.info.info@,
        r.spec_attr() == list.info.attr@,
    decreases list,
{
    let mut ret: List<Item, Quality> = List::new();
    let mut j: usize = 0;
    while j < list.inner.len()
        invariant
            j <= list.inner@.len(),
            ret.items_view().len() == j,
            forall|k: int| 0 <= k < j ==> converted(list.inner@[k], #[trigger] ret.items_view()[k]),
        decreases list.inner@.len() - j,
    {
        let y = &list.inner[j];
        let it = match y {
            YamlItem::Clothing(d) => {
                let mut d2 = d.clone();
                let it = Item::Clothing(conv_desc(&mut d2, Quality::Clothing));
                assert(converted(*y, it));
                it
            },
            YamlItem::Weapon(d) => {
                let mut d2 = d.clone();
                let it = Item::Weapon(conv_desc(&mut d2, Quality::Weapon));
                assert(converted(*y, it));
                it
            },
            YamlItem::Scenery(d) => {
                let mut d2 = d.clone();
                let it = Item::Scenery(conv_desc(&mut d2, Quality::Scenery));
                assert(converted(*y, it));
                it
            },
            YamlItem::Edible(d) => {
                let mut d2 = d.clone();
                let it = Item::Edible(conv_desc(&mut d2, Quality::Edible));
                assert(converted(*y, it));
                it
            },
            YamlItem::Holdable(d) => {
                let mut d2 = d.clone();
                let it = Item::Holdable(conv_desc(&mut d2, Quality::Holdable));
                assert(converted(*y, it));
                it
            },
            YamlItem::Container(listy) => {
                proof {
                    assert(decreases_to!(list => list.inner));
                    assert(decreases_to!(list.inner => list.inner@));
                    assert(decreases_to!(list.inner@ => list.inner@[j as int]));
                }
                let it = Item::Container(Box::new(conv(listy)));
                assert(converted(*y, it));
                it
            },
            YamlItem::Guard { dir, info, lock, .. } => {
                let mut g = RenaissanceGuard::from_info(info.clone());
                g.lock = *lock;
                g.set_attr(Quality::Container);
                let it = Item::Guard(*dir, Box::new(g));
                assert(converted(*y, it));
                it
            },
            YamlItem::Key(n, item) => {
                let mut k = KeyType::from_info(item.clone());
                k.set_key(*n);
                k.add_quality(Quality::Key);
                let it = Item::Key(k);
                assert(converted(*y, it));
                it
            },
        };
        assert(converted(list.inner@[j as int], it));
        let _ = ret.insert_item(it);
        j = j + 1;
    }
    ret.set_info(list.info.info.clone());
    ret.set_attr_list(list.info.attr.clone());
    ret
}

} // verus!
