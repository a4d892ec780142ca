//! Names and descriptions of things in the game.
use vstd::prelude::*;
use crate::hook::Hook;

verus! {

/// Something that has a name, a one-line display, a longer description
/// and a list of handles it answers to.
pub trait Describe {
    spec fn spec_name(&self) -> Seq<char>;

    spec fn spec_display(&self) -> Seq<char>;

    spec fn spec_description(&self) -> Seq<char>;

    spec fn spec_handle(&self) -> Seq<Seq<char>>;

    fn name(&self) -> (r: String)
        ensures
            r@ == self.spec_name(),
    ;

    fn display(&self) -> (r: String)
        ensures
            r@ == self.spec_display(),
    ;

    fn description(&self) -> (r: String)
        ensures
            r@ == self.spec_description(),
    ;

    fn handle(&self) -> (r: Hook)
        ensures
            r@ == self.spec_handle(),
    ;
}

/// The name, display line, description and handles of a thing.
#[derive(Debug, Default)]
pub struct Description {
    pub name: String,
    pub display: String,
    pub description: String,
    pub handle: Hook,
}

/// The contents of a `Description`.
pub struct DescriptionView {
    pub name: Seq<char>,
    pub display: Seq<char>,
    pub description: Seq<char>,
    pub handle: Seq<Seq<char>>,
}

impl View for Description {
    type V = DescriptionView;

    open spec fn view(&self) -> DescriptionView {
        DescriptionView {
            name: self.name@,
            display: self.display@,
            description: self.description@,
            handle: self.handle@,
        }
    }
}

impl Clone for Description {
    fn clone(&self) -> (r: Self)
        ensures
            r@ == self@,
    {
        Description {
            name: self.name.clone(),
            display: self.display.clone(),
            description: self.description.clone(),
            handle: self.handle.clone(),
        }
    }
}

impl Describe for Description {
    open spec fn spec_name(&self) -> Seq<char> {
        self.name@
    }

    open spec fn spec_display(&self) -> Seq<char> {
        self.display@
    }

    open spec fn spec_description(&self) -> Seq<char> {
        self.description@
    }

    open spec fn spec_handle(&self) -> Seq<Seq<char>> {
        self.handle@
    }

    fn name(&self) -> (r: String) {
        let r = self.name.clone();
        assert(r == self.name);
        assert(r@ == self.name@);
        assert(r@ == <Description as Describe>::spec_name(self));
        r
    }

    fn display(&self) -> (r: String) {
        self.display.clone()
    }

    fn description(&self) -> (r: String) {
        self.description.clone()
    }

    fn handle(&self) -> (r: Hook) {
        self.handle.clone()
    }
}

/// The text of an optional description, empty when there is none.
pub open spec fn text_or_empty(d: Option<&str>) -> Seq<char> {
    match d {
        Some(s) => s@,
        None => Seq::empty(),
    }
}

/// Copies an optional text, empty when there is none.
pub fn owned_or_empty(d: Option<&str>) -> (r: String)
    ensures
        r@ == text_or_empty(d),
{
    match d {
        Some(s) => s.to_owned(),
        None => String::new(),
    }
}

impl Description {
    /// A description with the given name, description (empty if none) and
    /// handles, and an empty display line.
    pub fn new(name: &str, description: Option<&str>, handle: Hook) -> (r: Self)
        ensures
            r.name@ == name@,
            r.description@ == text_or_empty(description),
            r.display@ == Seq::<char>::empty(),
            r.handle@ == handle@,
    {
        let description = owned_or_empty(description);
        let name = name.to_owned();
        let display = String::new();
        Description { name, description, handle, display }
    }
}

} // verus!
