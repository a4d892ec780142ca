//! Items: the plain form in which they are written down, and the form in
//! which the game handles them.
pub mod error;
pub mod list;

use vstd::prelude::*;
use crate::attribute::{
    qualities_contain, qualities_contain_all, remove_first, remove_quality, Attribute, Quality,
};
use crate::describe::{Describe, Description, DescriptionView};
use crate::hook::Hook;
use crate::list::{List, ListTrait};
use crate::location::direction::MapDir;
use crate::obstacle::door::{GuardState, Lock};
use crate::obstacle::key::KeyType;
use self::list::RenaissanceGuard;

verus! {

/// A description together with the qualities of the thing described.
#[derive(Debug, Default)]
pub struct DescriptionWithQualities {
    pub info: Description,
    pub attr: Vec<Quality>,
}

/// The contents of a `DescriptionWithQualities`.
pub struct DescriptionWithQualitiesView {
    pub info: DescriptionView,
    pub attr: Seq<Quality>,
}

impl View for DescriptionWithQualities {
    type V = DescriptionWithQualitiesView;

    open spec fn view(&self) -> DescriptionWithQualitiesView {
        DescriptionWithQualitiesView { info: self.info@, attr: self.attr@ }
    }
}

impl Clone for DescriptionWithQualities {
    fn clone(&self) -> (r: Self)
        ensures
            r@ == self@,
    {
        DescriptionWithQualities { info: self.info.clone(), attr: self.attr.clone() }
    }
}

impl DescriptionWithQualities {
    /// A description with the given name, description (empty if none),
    /// handles, an empty display line and no qualities.
    pub fn new(name: &str, description: Option<&str>, handle: Hook) -> (r: Self)
        ensures
            r.info.name@ == name@,
            r.info.description@ == crate::describe::text_or_empty(description),
            r.info.display@ == Seq::<char>::empty(),
            r.info.handle@ == handle@,
            r.attr@ == Seq::<Quality>::empty(),
    {
        DescriptionWithQualities { info: Description::new(name, description, handle), attr: Vec::new() }
    }
}

/// Something an item can be: described, with qualities.
pub trait ItemDescribe: Describe + Attribute<Quality> {}

/// A list of items: described, with qualities, holding items.
pub trait ListDescribe: Describe + Attribute<Quality> + ListTrait {}

/// A guard: described, with qualities, a lock and items.
pub trait GuardDescribe: Describe + Attribute<Quality> + self::list::Guard {}

impl ItemDescribe for DescriptionWithQualities {}

impl ListDescribe for List<Item, Quality> {}

impl GuardDescribe for RenaissanceGuard {}

impl Describe for DescriptionWithQualities {
    open spec fn spec_name(&self) -> Seq<char> {
        self.info.name@
    }

    open spec fn spec_display(&self) -> Seq<char> {
        self.info.display@
    }

    open spec fn spec_description(&self) -> Seq<char> {
        self.info.description@
    }

    open spec fn spec_handle(&self) -> Seq<Seq<char>> {
        self.info.handle@
    }

    fn name(&self) -> (r: String) {
        self.info.name()
    }

    fn display(&self) -> (r: String) {
        self.info.display()
    }

    fn description(&self) -> (r: String) {
        self.info.description()
    }

    fn handle(&self) -> (r: Hook) {
        self.info.handle()
    }
}

impl Attribute<Quality> for DescriptionWithQualities {
    open spec fn attr_view(&self) -> Seq<Quality> {
        self.attr@
    }

    open spec fn holds_attrs(&self) -> bool {
        true
    }

    fn attr(&self) -> (r: Vec<Quality>) {
        crate::attribute::copy_qualities(&self.attr)
    }

    fn set_attr(&mut self, q: Quality) {
        self.attr.push(q);
    }

    fn unset_attr(&mut self, q: Quality) {
        remove_quality(&mut self.attr, q);
    }

    fn is(&self, a: Quality) -> (r: bool) {
        qualities_contain(&self.attr, a)
    }

    fn is_all(&self, ats: &[Quality]) -> (r: bool) {
        qualities_contain_all(&self.attr, ats)
    }
}

impl KeyType {
    /// A key made from a description: its qualities carry over, its key
    /// number is 0.
    pub fn from_info(b: DescriptionWithQualities) -> (r: KeyType)
        ensures
            r.info == b.info,
            r.attr == b.attr,
            r.key == 0,
    {
        KeyType { info: b.info, attr: b.attr, key: 0 }
    }
}

/// An item in the game, wrapped in its primary kind.
#[derive(Debug)]
pub enum Item {
    Clothing(DescriptionWithQualities),
    Weapon(DescriptionWithQualities),
    Scenery(DescriptionWithQualities),
    Edible(DescriptionWithQualities),
    Holdable(DescriptionWithQualities),
    Container(Box<List<Item, Quality>>),
    Guard(MapDir, Box<RenaissanceGuard>),
    Key(KeyType),
    NoItem,
}

impl Default for Item {
    fn default() -> (r: Self)
        ensures
            r is NoItem,
    {
        Item::NoItem
    }
}

impl Describe for Item {
    open spec fn spec_name(&self) -> Seq<char> {
        match self {
            Item::Clothing(i) => i.spec_name(),
            Item::Weapon(i) => i.spec_name(),
            Item::Scenery(i) => i.spec_name(),
            Item::Edible(i) => i.spec_name(),
            Item::Holdable(i) => i.spec_name(),
            Item::Container(i) => i.spec_name(),
            Item::Guard(_, i) => i.spec_name(),
            Item::Key(i) => i.spec_name(),
            Item::NoItem => Seq::empty(),
        }
    }

    open spec fn spec_display(&self) -> Seq<char> {
        match self {
            Item::Clothing(i) => i.spec_display(),
            Item::Weapon(i) => i.spec_display(),
            Item::Scenery(i) => i.spec_display(),
            Item::Edible(i) => i.spec_display(),
            Item::Holdable(i) => i.spec_display(),
            Item::Container(i) => i.spec_display(),
            Item::Guard(_, i) => i.spec_display(),
            Item::Key(i) => i.spec_display(),
            Item::NoItem => Seq::empty(),
        }
    }

    open spec fn spec_description(&self) -> Seq<char> {
        match self {
            Item::Clothing(i) => i.spec_description(),
            Item::Weapon(i) => i.spec_description(),
            Item::Scenery(i) => i.spec_description(),
            Item::Edible(i) => i.spec_description(),
            Item::Holdable(i) => i.spec_description(),
            Item::Container(i) => i.spec_description(),
            Item::Guard(_, i) => i.spec_description(),
            Item::Key(i) => i.spec_description(),
            Item::NoItem => Seq::empty(),
        }
    }

    open spec fn spec_handle(&self) -> Seq<Seq<char>> {
        match self {
            Item::Clothing(i) => i.spec_handle(),
            Item::Weapon(i) => i.spec_handle(),
            Item::Scenery(i) => i.spec_handle(),
            Item::Edible(i) => i.spec_handle(),
            Item::Holdable(i) => i.spec_handle(),
            Item::Container(i) => i.spec_handle(),
            Item::Guard(_, i) => i.spec_handle(),
            Item::Key(i) => i.spec_handle(),
            Item::NoItem => Seq::empty(),
        }
    }

    fn name(&self) -> (r: String) {
        match self {
            Item::Clothing(i) | Item::Weapon(i) | Item::Scenery(i) | Item::Edible(i) | Item::Holdable(i) => i.name(),
            Item::Container(i) => i.name(),
            Item::Guard(_, i) => i.name(),
            Item::Key(i) => i.name(),
            Item::NoItem => String::new(),
        }
    }

    fn display(&self) -> (r: String) {
        match self {
            Item::Clothing(i) | Item::Weapon(i) | Item::Scenery(i) | Item::Edible(i) | Item::Holdable(i) => i.display(),
            Item::Container(i) => i.display(),
            Item::Guard(_, i) => i.display(),
            Item::Key(i) => i.display(),
            Item::NoItem => String::new(),
        }
    }

    fn description(&self) -> (r: String) {
        match self {
            Item::Clothing(i) | Item::Weapon(i) | Item::Scenery(i) | Item::Edible(i) | Item::Holdable(i) => i.description(),
            Item::Container(i) => i.description(),
            Item::Guard(_, i) => i.description(),
            Item::Key(i) => i.description(),
            Item::NoItem => String::new(),
        }
    }

    fn handle(&self) -> (r: Hook) {
        match self {
            Item::Clothing(i) | Item::Weapon(i) | Item::Scenery(i) | Item::Edible(i) | Item::Holdable(i) => i.handle(),
            Item::Container(i) => i.handle(),
            Item::Guard(_, i) => i.handle(),
            Item::Key(i) => i.handle(),
            Item::NoItem => Hook(Vec::new()),
        }
    }
}

/// The qualities an item carries.
pub open spec fn item_qualities(item: Item) -> Seq<Quality> {
    match item {
        Item::Clothing(i) => i.attr@,
        Item::Weapon(i) => i.attr@,
        Item::Scenery(i) => i.attr@,
        Item::Edible(i) => i.attr@,
        Item::Holdable(i) => i.attr@,
        Item::Container(i) => i.spec_attr(),
        Item::Guard(_, i) => i.attr@,
        Item::Key(i) => i.attr@,
        Item::NoItem => Seq::empty(),
    }
}

/// The item carries quality `q`.
pub open spec fn item_has(item: Item, q: Quality) -> bool {
    item_qualities(item).contains(q)
}

pub proof fn lemma_item_has(item: Item, q: Quality)
    ensures
        item_has(item, q) == item.attr_view().contains(q),
{
}

impl Attribute<Quality> for Item {
    /// An item that is no item carries no qualities and takes none.
    open spec fn attr_view(&self) -> Seq<Quality> {
        match self {
            Item::Clothing(i) => i.attr@,
            Item::Weapon(i) => i.attr@,
            Item::Scenery(i) => i.attr@,
            Item::Edible(i) => i.attr@,
            Item::Holdable(i) => i.attr@,
            Item::Container(i) => i.attr_view(),
            Item::Guard(_, i) => i.attr@,
            Item::Key(i) => i.attr@,
            Item::NoItem => Seq::empty(),
        }
    }

    open spec fn holds_attrs(&self) -> bool {
        !(self is NoItem)
    }

    fn attr(&self) -> (r: Vec<Quality>) {
        match self {
            Item::Clothing(i) | Item::Weapon(i) | Item::Scenery(i) | Item::Edible(i) | Item::Holdable(i) => i.attr(),
            Item::Container(i) => i.attr(),
            Item::Guard(_, i) => i.attr(),
            Item::Key(i) => i.attr(),
            Item::NoItem => Vec::new(),
        }
    }

    fn set_attr(&mut self, q: Quality) {
        match self {
            Item::Clothing(i) => i.set_attr(q),
            Item::Weapon(i) => i.set_attr(q),
            Item::Scenery(i) => i.set_attr(q),
            Item::Edible(i) => i.set_attr(q),
            Item::Holdable(i) => i.set_attr(q),
            Item::Container(i) => i.set_attr(q),
            Item::Guard(_, i) => i.set_attr(q),
            Item::Key(i) => i.set_attr(q),
            Item::NoItem => {},
        }
    }

    fn unset_attr(&mut self, q: Quality) {
        match self {
            Item::Clothing(i) => i.unset_attr(q),
            Item::Weapon(i) => i.unset_attr(q),
            Item::Scenery(i) => i.unset_attr(q),
            Item::Edible(i) => i.unset_attr(q),
            Item::Holdable(i) => i.unset_attr(q),
            Item::Container(i) => i.unset_attr(q),
            Item::Guard(_, i) => i.unset_attr(q),
            Item::Key(i) => i.unset_attr(q),
            Item::NoItem => {},
        }
    }

    fn is(&self, a: Quality) -> (r: bool) {
        match self {
            Item::Clothing(i) => i.is(a),
            Item::Weapon(i) => i.is(a),
            Item::Scenery(i) => i.is(a),
            Item::Edible(i) => i.is(a),
            Item::Holdable(i) => i.is(a),
            Item::Container(i) => i.is(a),
            Item::Guard(_, i) => i.is(a),
            Item::Key(i) => i.is(a),
            Item::NoItem => false,
        }
    }

    fn is_all(&self, ats: &[Quality]) -> (r: bool) {
        match self {
            Item::Clothing(i) => i.is_all(ats),
            Item::Weapon(i) => i.is_all(ats),
            Item::Scenery(i) => i.is_all(ats),
            Item::Edible(i) => i.is_all(ats),
            Item::Holdable(i) => i.is_all(ats),
            Item::Container(i) => i.is_all(ats),
            Item::Guard(_, i) => i.is_all(ats),
            Item::Key(i) => i.is_all(ats),
            Item::NoItem => {
                if ats.len() > 0 {
                    assert(!self.attr_view().contains(ats@[0]));
                }
                ats.len() == 0
            },
        }
    }
}

/// An item in its plain, written-down form.
#[derive(Debug)]
pub enum YamlItem {
    Clothing(DescriptionWithQualities),
    Weapon(DescriptionWithQualities),
    Scenery(DescriptionWithQualities),
    Edible(DescriptionWithQualities),
    Holdable(DescriptionWithQualities),
    Guard { dir: MapDir, state: GuardState, info: DescriptionWithQualities, lock: u64 },
    Container(YamlItemList),
    Key(u64, DescriptionWithQualities),
}

/// A list of written-down items, with a description of its own.
#[derive(Debug)]
pub struct YamlItemList {
    pub inner: Vec<YamlItem>,
    pub info: DescriptionWithQualities,
}

impl Default for YamlItem {
    fn default() -> (r: Self)
        ensures
            r matches YamlItem::Holdable(d) && d@.attr == Seq::<Quality>::empty(),
    {
        YamlItem::Holdable(DescriptionWithQualities { info: Description::new("", None, Hook(Vec::new())), attr: Vec::new() })
    }
}

impl YamlItem {
    /// The description that every kind of written-down item carries.
    pub open spec fn spec_info(&self) -> DescriptionWithQualities {
        match self {
            YamlItem::Key(_, item) => *item,
            YamlItem::Clothing(item) => *item,
            YamlItem::Weapon(item) => *item,
            YamlItem::Scenery(item) => *item,
            YamlItem::Holdable(item) => *item,
            YamlItem::Edible(item) => *item,
            YamlItem::Container(i) => i.info,
            YamlItem::Guard { info, .. } => *info,
        }
    }

    pub fn safe_unwrap(&self) -> (r: &DescriptionWithQualities)
        ensures
            *r == self.spec_info(),
    {
        match self {
            YamlItem::Key(_, item) => item,
            YamlItem::Clothing(item) => item,
            YamlItem::Weapon(item) => item,
            YamlItem::Scenery(item) => item,
            YamlItem::Holdable(item) => item,
            YamlItem::Edible(item) => item,
            YamlItem::Container(i) => &i.info,
            YamlItem::Guard { info, .. } => info,
        }
    }
}

impl Describe for YamlItem {
    open spec fn spec_name(&self) -> Seq<char> {
        self.spec_info().info.name@
    }

    open spec fn spec_display(&self) -> Seq<char> {
        self.spec_info().info.display@
    }

    open spec fn spec_description(&self) -> Seq<char> {
        self.spec_info().info.description@
    }

    open spec fn spec_handle(&self) -> Seq<Seq<char>> {
        self.spec_info().info.handle@
    }

    fn name(&self) -> (r: String) {
        self.safe_unwrap().name()
    }

    fn display(&self) -> (r: String) {
        self.safe_unwrap().display()
    }

    fn description(&self) -> (r: String) {
        self.safe_unwrap().description()
    }

    fn handle(&self) -> (r: Hook) {
        self.safe_unwrap().handle()
    }
}

impl Describe for YamlItemList {
    open spec fn spec_name(&self) -> Seq<char> {
        self.info.info.name@
    }

    open spec fn spec_display(&self) -> Seq<char> {
        self.info.info.display@
    }

    open spec fn spec_description(&self) -> Seq<char> {
        self.info.info.description@
    }

    open spec fn spec_handle(&self) -> Seq<Seq<char>> {
        self.info.info.handle@
    }

    fn name(&self) -> (r: String) {
        self.info.name()
    }

    fn display(&self) -> (r: String) {
        self.info.display()
    }

    fn description(&self) -> (r: String) {
        self.info.description()
    }

    fn handle(&self) -> (r: Hook) {
        self.info.handle()
    }
}

impl Attribute<Quality> for YamlItemList {
    open spec fn attr_view(&self) -> Seq<Quality> {
        self.info.attr@
    }

    open spec fn holds_attrs(&self) -> bool {
        true
    }

    fn attr(&self) -> (r: Vec<Quality>) {
        self.info.attr.clone()
    }

    fn set_attr(&mut self, q: Quality) {
        self.info.attr.push(q);
    }

    fn unset_attr(&mut self, q: Quality) {
        remove_quality(&mut self.info.attr, q);
    }

    fn is(&self, a: Quality) -> (r: bool) {
        qualities_contain(&self.info.attr, a)
    }

    fn is_all(&self, ats: &[Quality]) -> (r: bool) {
        qualities_contain_all(&self.info.attr, ats)
    }
}

/// Position of the first written-down item that answers to `handle`.
pub open spec fn first_answering_yaml(s: Seq<YamlItem>, handle: Seq<char>) -> Option<int> {
    if exists|i: int| 0 <= i < s.len() && s[i].spec_handle().contains(handle) {
        Some(choose|i: int| 0 <= i < s.len() && s[i].spec_handle().contains(handle)
            && forall|j: int| 0 <= j < i ==> !s[j].spec_handle().contains(handle))
    } else {
        None
    }
}

impl YamlItemList {
    /// An empty list, with empty names and the quality of a container.
    pub fn new() -> (r: Self)
        ensures
            r.inner@ == Seq::<YamlItem>::empty(),
            r.info.attr@ == seq![Quality::Container],
            r.info.info.name@ == Seq::<char>::empty(),
            r.info.info.display@ == Seq::<char>::empty(),
            r.info.info.description@ == Seq::<char>::empty(),
            r.info.info.handle@ == Seq::<Seq<char>>::empty(),
    {
        proof {
            reveal_strlit("");
        }
        let h = Hook(Vec::new());
        assert(h@ =~= Seq::<Seq<char>>::empty());
        let attr = vec![Quality::Container];
        assert(attr@ =~= seq![Quality::Container]);
        YamlItemList {
            inner: Vec::new(),
            info: DescriptionWithQualities {
                info: Description {
                    name: String::from_str(""),
                    display: String::from_str(""),
                    description: String::from_str(""),
                    handle: h,
                },
                attr,
            },
        }
    }

    /// Position of the first item that answers to `handle`.
    pub fn position(&self, handle: &str) -> (r: Option<usize>)
        ensures
            match r {
                Some(i) => i < self.inner@.len() && self.inner@[i as int].spec_handle().contains(handle@)
                    && forall|j: int| 0 <= j < i ==> !self.inner@[j].spec_handle().contains(handle@),
                None => forall|j: int| 0 <= j < self.inner@.len() ==> !self.inner@[j].spec_handle().contains(handle@),
            },
    {
        let mut i: usize = 0;
        while i < self.inner.len()
            invariant
                i <= self.inner@.len(),
                forall|j: int| 0 <= j < i ==> !self.inner@[j].spec_handle().contains(handle@),
            decreases self.inner@.len() - i,
        {
            let h = self.inner[i].handle();
            if h.answers_to(handle) {
                return Some(i);
            }
            i = i + 1;
        }
        None
    }

    /// The first item that answers to `handle`.
    pub fn get(&self, handle: &str) -> (r: Option<&YamlItem>)
        ensures
            match r {
                Some(x) => exists|i: int| 0 <= i < self.inner@.len() && self.inner@[i] == *x
                    && x.spec_handle().contains(handle@)
                    && forall|j: int| 0 <= j < i ==> !self.inner@[j].spec_handle().contains(handle@),
                None => forall|j: int| 0 <= j < self.inner@.len() ==> !self.inner@[j].spec_handle().contains(handle@),
            },
    {
        match self.position(handle) {
            Some(i) => Some(&self.inner[i]),
            None => None,
        }
    }

    /// Takes out the first item that answers to `handle`.
    pub fn get_owned(&mut self, handle: &str) -> (r: Option<YamlItem>)
        ensures
            match r {
                Some(x) => exists|i: int| 0 <= i < old(self).inner@.len() && old(self).inner@[i] == x
                    && x.spec_handle().contains(handle@)
                    && forall|j: int| 0 <= j < i ==> !old(self).inner@[j].spec_handle().contains(handle@)
                    && final(self).inner@ == old(self).inner@.remove(i),
                None => forall|j: int| 0 <= j < old(self).inner@.len() ==> !old(self).inner@[j].spec_handle().contains(handle@)
                    && final(self).inner@ == old(self).inner@,
            },
            final(self).info == old(self).info,
    {
        match self.position(handle) {
            Some(i) => Some(self.inner.remove(i)),
            None => None,
        }
    }
}

} // verus!
