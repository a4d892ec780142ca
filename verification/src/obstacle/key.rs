//! Keys, which open locks whose number matches theirs.
use vstd::prelude::*;
use crate::attribute::{
    qualities_contain, qualities_contain_all, remove_first, remove_quality, Attribute, Quality,
};
use crate::describe::{Describe, Description};
use crate::hook::Hook;

verus! {

/// Something that carries a key value of type `T`.
pub trait Key<T> {
    fn key(&self) -> T;
}

/// A key item: its description, qualities and key number.
#[derive(Debug)]
pub struct KeyType {
    pub info: Description,
    pub attr: Vec<Quality>,
    pub key: u64,
}

impl KeyType {
    pub fn set_key(&mut self, key: u64)
        ensures
            final(self).key == key,
            final(self).info@ == old(self).info@,
            final(self).attr@ == old(self).attr@,
    {
        self.key = key
    }

    pub fn add_quality(&mut self, q: Quality)
        ensures
            final(self).attr@ == old(self).attr@.push(q),
            final(self).info@ == old(self).info@,
            final(self).key == old(self).key,
    {
        self.attr.push(q);
    }
}

impl Key<u64> for KeyType {
    fn key(&self) -> (r: u64)
        ensures
            r == self.key,
    {
        self.key
    }
}

impl Describe for KeyType {
    open spec fn spec_name(&self) -> Seq<char> {
        self.info.name@
    }

    open spec fn spec_display(&self) -> Seq<char> {
        self.info.display@
    }

    open spec fn spec_description(&self) -> Seq<char> {
        self.info.description@
    }

    open spec fn spec_handle(&self) -> Seq<Seq<char>> {
        self.info.handle@
    }

    fn name(&self) -> (r: String) {
        self.info.name()
    }

    fn display(&self) -> (r: String) {
        self.info.display()
    }

    fn description(&self) -> (r: String) {
        self.info.description()
    }

    fn handle(&self) -> (r: Hook) {
        self.info.handle()
    }
}

impl Attribute<Quality> for KeyType {
    open spec fn attr_view(&self) -> Seq<Quality> {
        self.attr@
    }

    open spec fn holds_attrs(&self) -> bool {
        true
    }

    fn attr(&self) -> (r: Vec<Quality>) {
        crate::attribute::copy_qualities(&self.attr)
    }

    fn set_attr(&mut self, q: Quality) {
        self.attr.push(q);
    }

    fn unset_attr(&mut self, q: Quality) {
        remove_quality(&mut self.attr, q);
    }

    fn is(&self, a: Quality) -> (r: bool) {
        qualities_contain(&self.attr, a)
    }

    fn is_all(&self, ats: &[Quality]) -> (r: bool) {
        qualities_contain_all(&self.attr, ats)
    }
}

} // verus!
