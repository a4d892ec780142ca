//! Attributes (qualities) that players, items and rooms carry.
use vstd::prelude::*;

verus! {

/// Position of the first element of `s` equal to `x`.
pub open spec fn index_of<T>(s: Seq<T>, x: T) -> Option<int>
    decreases s.len(),
{
    if s.len() == 0 {
        None
    } else if s[0] == x {
        Some(0)
    } else {
        match index_of(s.drop_first(), x) {
            Some(i) => Some(i + 1),
            None => None,
        }
    }
}

/// `s` without the first element equal to `x` (unchanged if there is none).
pub open spec fn remove_first<T>(s: Seq<T>, x: T) -> Seq<T> {
    match index_of(s, x) {
        Some(i) => s.remove(i),
        None => s,
    }
}

pub proof fn lemma_index_of<T>(s: Seq<T>, x: T)
    ensures
        match index_of(s, x) {
            Some(i) => 0 <= i < s.len() && s[i] == x && forall|j: int| 0 <= j < i ==> s[j] != x,
            None => !s.contains(x),
        },
    decreases s.len(),
{
    if s.len() > 0 && s[0] != x {
        lemma_index_of(s.drop_first(), x);
        match index_of(s.drop_first(), x) {
            Some(i) => {
                assert forall|j: int| 0 <= j < i + 1 implies s[j] != x by {
                    if j > 0 {
                        assert(s[j] == s.drop_first()[j - 1]);
                    }
                }
            },
            None => {
                assert forall|j: int| 0 <= j < s.len() implies s[j] != x by {
                    if j > 0 {
                        assert(s[j] == s.drop_first()[j - 1]);
                    }
                }
            },
        }
    }
}

pub proof fn lemma_index_of_unique<T>(s: Seq<T>, x: T, k: int)
    requires
        0 <= k < s.len(),
        s[k] == x,
        forall|j: int| 0 <= j < k ==> s[j] != x,
    ensures
        index_of(s, x) == Some(k),
{
    lemma_index_of(s, x);
    match index_of(s, x) {
        Some(i) => {
            if i < k {
            } else if i > k {
            }
        },
        None => {},
    }
}

/// Something that carries a list of attributes of kind `T`.
pub trait Attribute<T> {
    spec fn attr_view(&self) -> Seq<T>;

    /// Whether the thing keeps attributes at all; one that does not
    /// ignores `set_attr` and `unset_attr`.
    spec fn holds_attrs(&self) -> bool;

    fn attr(&self) -> (r: Vec<T>)
        ensures
            r@ == self.attr_view(),
    ;

    /// Adds an attribute at the end of the list.
    fn set_attr(&mut self, q: T)
        ensures
            old(self).holds_attrs() ==> final(self).attr_view() == old(self).attr_view().push(q),
            !old(self).holds_attrs() ==> final(self).attr_view() == old(self).attr_view(),
    ;

    /// Removes the first occurrence of an attribute, if there is one.
    fn unset_attr(&mut self, q: T)
        ensures
            old(self).holds_attrs() ==> final(self).attr_view() == remove_first(old(self).attr_view(), q),
            !old(self).holds_attrs() ==> final(self).attr_view() == old(self).attr_view(),
    ;

    fn is(&self, a: T) -> (r: bool)
        ensures
            r == self.attr_view().contains(a),
    ;

    fn is_all(&self, ats: &[T]) -> (r: bool)
        ensures
            r == (forall|i: int| 0 <= i < ats@.len() ==> self.attr_view().contains(#[trigger] ats@[i])),
    ;
}

/// `Quality` describes extra attributes of players, items and rooms.
#[derive(Copy, Clone, Debug, PartialEq, Eq, Structural)]
pub enum Quality {
    Default,
    Clothing,
    Weapon,
    Scenery,
    Edible,
    Holdable,
    Container,
    Guard,
    Key,
}

impl Default for Quality {
    fn default() -> (r: Self)
        ensures
            r == Quality::Default,
    {
        Quality::Default
    }
}

/// The number that stands for each quality where qualities are stored as
/// numbers.
pub open spec fn spec_quality_code(q: Quality) -> i32 {
    match q {
        Quality::Default => 0,
        Quality::Clothing => 1,
        Quality::Weapon => 2,
        Quality::Scenery => 3,
        Quality::Edible => 4,
        Quality::Holdable => 5,
        Quality::Container => 6,
        Quality::Guard => 7,
        Quality::Key => 8,
    }
}

impl Quality {
    pub fn code(&self) -> (r: i32)
        ensures
            r == spec_quality_code(*self),
    {
        match self {
            Quality::Default => 0,
            Quality::Clothing => 1,
            Quality::Weapon => 2,
            Quality::Scenery => 3,
            Quality::Edible => 4,
            Quality::Holdable => 5,
            Quality::Container => 6,
            Quality::Guard => 7,
            Quality::Key => 8,
        }
    }

    /// The quality with the given number; numbers outside 0..=8 are refused.
    pub fn try_from_code(value: i32) -> (r: Result<Quality, String>)
        ensures
            match r {
                Ok(q) => spec_quality_code(q) == value,
                Err(e) => !(0 <= value <= 8) && e@ == "could not make conversion"@,
            },
    {
        match value {
            0 => Ok(Quality::Default),
            1 => Ok(Quality::Clothing),
            2 => Ok(Quality::Weapon),
            3 => Ok(Quality::Scenery),
            4 => Ok(Quality::Edible),
            5 => Ok(Quality::Holdable),
            6 => Ok(Quality::Container),
            7 => Ok(Quality::Guard),
            8 => Ok(Quality::Key),
            _ => Err(String::from_str("could not make conversion")),
        }
    }
}

/// A copy of a list of qualities.
pub fn copy_qualities(v: &Vec<Quality>) -> (r: Vec<Quality>)
    ensures
        r@ == v@,
{
    let mut r: Vec<Quality> = Vec::new();
    let mut i: usize = 0;
    while i < v.len()
        invariant
            i <= v@.len(),
            r@ == v@.subrange(0, i as int),
        decreases v@.len() - i,
    {
        r.push(v[i]);
        proof {
            assert(r@ =~= v@.subrange(0, i + 1));
        }
        i = i + 1;
    }
    assert(v@.subrange(0, v@.len() as int) =~= v@);
    r
}

/// Whether a list of qualities holds `q`.
pub fn qualities_contain(v: &Vec<Quality>, q: Quality) -> (r: bool)
    ensures
        r == v@.contains(q),
{
    proof {
        lemma_index_of(v@, q);
    }
    match quality_position(v, q) {
        Some(_) => true,
        None => false,
    }
}

/// Position of the first `q` in a list of qualities.
pub fn quality_position(v: &Vec<Quality>, q: Quality) -> (r: Option<usize>)
    ensures
        match r {
            Some(i) => index_of(v@, q) == Some(i as int),
            None => index_of(v@, q) is None,
        },
{
    let mut i: usize = 0;
    while i < v.len()
        invariant
            i <= v.len(),
            forall|j: int| 0 <= j < i ==> v@[j] != q,
        decreases v.len() - i,
    {
        if v[i] == q {
            proof {
                lemma_index_of_unique(v@, q, i as int);
            }
            return Some(i);
        }
        i = i + 1;
    }
    proof {
        lemma_index_of(v@, q);
    }
    None
}

/// Removes the first `q` from a list of qualities.
pub fn remove_quality(v: &mut Vec<Quality>, q: Quality)
    ensures
        final(v)@ == remove_first(old(v)@, q),
{
    proof {
        lemma_index_of(v@, q);
    }
    match quality_position(v, q) {
        Some(i) => {
            v.remove(i);
        },
        None => {},
    }
}

/// Whether a list of qualities holds every one of `ats`.
pub fn qualities_contain_all(v: &Vec<Quality>, ats: &[Quality]) -> (r: bool)
    ensures
        r == (forall|i: int| 0 <= i < ats@.len() ==> v@.contains(#[trigger] ats@[i])),
{
    let mut i: usize = 0;
    while i < ats.len()
        invariant
            i <= ats@.len(),
            forall|j: int| 0 <= j < i ==> v@.contains(#[trigger] ats@[j]),
        decreases ats@.len() - i,
    {
        if !qualities_contain(v, ats[i]) {
            return false;
        }
        i = i + 1;
    }
    true
}

} // verus!
