//! Lists of things that are found again by their handles.
use vstd::prelude::*;
use crate::attribute::{
    qualities_contain, qualities_contain_all, remove_first, remove_quality, Attribute, Quality,
};
use crate::describe::{Describe, Description};
use crate::error::{EnnuiError, Simple};
use crate::hook::{is_all_form, spec_grab, Grabber, Hook};
use crate::text::{green_code, spec_paint, spec_render, Color};

verus! {

/// An item answers to a handle when the handle is one of its names.
pub open spec fn answers<T: Describe>(item: T, h: Seq<char>) -> bool {
    item.spec_handle().contains(h)
}

/// How many items of `s` answer to `h`.
pub open spec fn count_answering<T: Describe>(s: Seq<T>, h: Seq<char>) -> nat
    decreases s.len(),
{
    if s.len() == 0 {
        0
    } else {
        count_answering(s.drop_last(), h) + if answers(s.last(), h) { 1nat } else { 0nat }
    }
}

/// Position of the `n`-th item (counting from 0) of `s` that answers to `h`.
pub open spec fn nth_answering<T: Describe>(s: Seq<T>, h: Seq<char>, n: int) -> Option<int> {
    if exists|i: int|
        0 <= i < s.len() && answers(s[i], h) && count_answering(s.subrange(0, i), h) == n {
        Some(
            choose|i: int|
                0 <= i < s.len() && answers(s[i], h) && count_answering(s.subrange(0, i), h) == n,
        )
    } else {
        None
    }
}

pub proof fn lemma_count_step<T: Describe>(s: Seq<T>, h: Seq<char>, i: int)
    requires
        0 <= i < s.len(),
    ensures
        count_answering(s.subrange(0, i + 1), h) == count_answering(s.subrange(0, i), h) + if answers(s[i], h) { 1nat } else { 0nat },
{
    assert(s.subrange(0, i + 1).drop_last() =~= s.subrange(0, i));
}

pub proof fn lemma_count_monotone<T: Describe>(s: Seq<T>, h: Seq<char>, i: int, j: int)
    requires
        0 <= i <= j <= s.len(),
    ensures
        count_answering(s.subrange(0, i), h) <= count_answering(s.subrange(0, j), h),
        i < j && answers(s[i], h) ==> count_answering(s.subrange(0, i), h) < count_answering(s.subrange(0, j), h),
    decreases j - i,
{
    if i < j {
        lemma_count_monotone(s, h, i, j - 1);
        lemma_count_step(s, h, j - 1);
        if answers(s[i], h) && i < j - 1 {
        } else if answers(s[i], h) {
            lemma_count_step(s, h, i);
        }
    }
}

/// The `n`-th answering item is unique.
pub proof fn lemma_nth_unique<T: Describe>(s: Seq<T>, h: Seq<char>, n: int, k: int)
    requires
        0 <= k < s.len(),
        answers(s[k], h),
        count_answering(s.subrange(0, k), h) == n,
    ensures
        nth_answering(s, h, n) == Some(k),
{
    let i = choose|i: int|
        0 <= i < s.len() && answers(s[i], h) && count_answering(s.subrange(0, i), h) == n;
    if i < k {
        lemma_count_monotone(s, h, i, k);
    } else if i > k {
        lemma_count_monotone(s, h, k, i);
    }
}

/// Position, in `s`, of the item that a grabber picks.
pub fn find_nth<T: Describe>(s: &Vec<T>, handle: &Grabber) -> (r: Option<usize>)
    ensures
        match r {
            Some(i) => nth_answering(s@, handle.handle@, handle.index as int) == Some(i as int),
            None => nth_answering(s@, handle.handle@, handle.index as int) is None,
        },
{
    let ghost h = handle.handle@;
    let mut seen: usize = 0;
    let mut i: usize = 0;
    while i < s.len()
        invariant
            i <= s@.len(),
            h == handle.handle@,
            seen as nat == count_answering(s@.subrange(0, i as int), h),
            seen <= handle.index,
        decreases s@.len() - i,
    {
        proof {
            lemma_count_step(s@, h, i as int);
        }
        let hk = s[i].handle();
        if hk.answers_to(handle.handle) {
            if seen == handle.index {
                proof {
                    lemma_nth_unique(s@, h, handle.index as int, i as int);
                }
                return Some(i);
            }
            seen = seen + 1;
        }
        i = i + 1;
    }
    proof {
        assert(s@.subrange(0, s@.len() as int) =~= s@);
        if exists|k: int|
            0 <= k < s@.len() && answers(s@[k], h) && count_answering(s@.subrange(0, k), h)
                == handle.index {
            let k = choose|k: int|
                0 <= k < s@.len() && answers(s@[k], h) && count_answering(s@.subrange(0, k), h)
                    == handle.index;
            lemma_count_monotone(s@, h, k, s@.len() as int);
        }
    }
    None
}

/// A list of things together with a description and qualities of its own.
#[derive(Debug, Default)]
pub struct List<T, U> {
    inner: Vec<T>,
    info: Description,
    attr: Vec<U>,
}

impl<T, U> List<T, U> {
    pub closed spec fn spec_inner(&self) -> Seq<T> {
        self.inner@
    }

    pub closed spec fn spec_info(&self) -> Description {
        self.info
    }

    pub closed spec fn spec_attr(&self) -> Seq<U> {
        self.attr@
    }

    pub fn new() -> (r: Self)
        ensures
            r.spec_inner() == Seq::<T>::empty(),
            r.spec_attr() == Seq::<U>::empty(),
            r.spec_info()@.name == Seq::<char>::empty(),
            r.spec_info()@.display == Seq::<char>::empty(),
            r.spec_info()@.description == Seq::<char>::empty(),
            r.spec_info()@.handle == Seq::<Seq<char>>::empty(),
    {
        proof {
            reveal_strlit("");
        }
        let h = Hook(Vec::new());
        assert(h@ =~= Seq::<Seq<char>>::empty());
        List { inner: Vec::new(), info: Description::new("", None, h), attr: Vec::new() }
    }

    /// A list of the given items, description and qualities.
    pub fn from_parts(inner: Vec<T>, info: Description, attr: Vec<U>) -> (r: Self)
        ensures
            r.spec_inner() == inner@,
            r.spec_info() == info,
            r.spec_attr() == attr@,
    {
        List { inner, info, attr }
    }

    pub fn set_info(&mut self, i: Description)
        ensures
            final(self).spec_info() == i,
            final(self).spec_inner() == old(self).spec_inner(),
            final(self).spec_attr() == old(self).spec_attr(),
    {
        self.info = i;
    }

    pub fn set_attr_list(&mut self, v: Vec<U>)
        ensures
            final(self).spec_attr() == v@,
            final(self).spec_info() == old(self).spec_info(),
            final(self).spec_inner() == old(self).spec_inner(),
    {
        self.attr = v;
    }

    pub fn into_inner(self) -> (r: Vec<T>)
        ensures
            r@ == self.spec_inner(),
    {
        self.inner
    }

    pub fn info(&self) -> (r: &Description)
        ensures
            *r == self.spec_info(),
    {
        &self.info
    }

    pub fn len(&self) -> (r: usize)
        ensures
            r == self.spec_inner().len(),
    {
        self.inner.len()
    }

    /// The item that the grabber picks, to change.
    pub fn get_item_mut(&mut self, handle: Grabber) -> (r: Option<&mut T>)
        where T: Describe
        ensures
            match nth_answering(old(self).spec_inner(), handle.handle@, handle.index as int) {
                Some(i) => r matches Some(x) && *x == old(self).spec_inner()[i]
                    && final(self).spec_inner() == old(self).spec_inner().update(i, *final(x))
                    && final(self).spec_info() == old(self).spec_info()
                    && final(self).spec_attr() == old(self).spec_attr(),
                None => r is None && final(self).spec_inner() == old(self).spec_inner()
                    && final(self).spec_info() == old(self).spec_info()
                    && final(self).spec_attr() == old(self).spec_attr(),
            },
    {
        match find_nth(&self.inner, &handle) {
            Some(i) => Some(&mut self.inner[i]),
            None => None,
        }
    }

    pub fn item_at(&self, i: usize) -> (r: &T)
        requires
            i < self.spec_inner().len(),
        ensures
            *r == self.spec_inner()[i as int],
    {
        &self.inner[i]
    }
}

impl<T, U> Describe for List<T, U> {
    closed spec fn spec_name(&self) -> Seq<char> {
        self.info.name@
    }

    closed spec fn spec_display(&self) -> Seq<char> {
        self.info.display@
    }

    closed spec fn spec_description(&self) -> Seq<char> {
        self.info.description@
    }

    closed spec fn spec_handle(&self) -> Seq<Seq<char>> {
        self.info.handle@
    }

    fn name(&self) -> (r: String) {
        self.info.name()
    }

    fn display(&self) -> (r: String) {
        self.info.display()
    }

    fn description(&self) -> (r: String) {
        self.info.description()
    }

    fn handle(&self) -> (r: Hook) {
        self.info.handle()
    }
}

impl<T> Attribute<Quality> for List<T, Quality> {
    open spec fn attr_view(&self) -> Seq<Quality> {
        self.spec_attr()
    }

    open spec fn holds_attrs(&self) -> bool {
        true
    }

    fn attr(&self) -> (r: Vec<Quality>) {
        self.attr.clone()
    }

    fn set_attr(&mut self, q: Quality) {
        self.attr.push(q);
    }

    fn unset_attr(&mut self, q: Quality) {
        remove_quality(&mut self.attr, q);
    }

    fn is(&self, a: Quality) -> (r: bool) {
        qualities_contain(&self.attr, a)
    }

    fn is_all(&self, ats: &[Quality]) -> (r: bool) {
        qualities_contain_all(&self.attr, ats)
    }
}

} // verus!

verus! {

/// Lines joined by newlines.
pub open spec fn join_lines(s: Seq<Seq<char>>) -> Seq<char>
    decreases s.len(),
{
    if s.len() == 0 {
        Seq::empty()
    } else if s.len() == 1 {
        s[0]
    } else {
        join_lines(s.drop_last()) + seq!['\n'] + s.last()
    }
}

/// The display lines of the items, each in green.
pub open spec fn green_displays<T: Describe>(s: Seq<T>) -> Seq<Seq<char>> {
    s.map_values(|x: T| spec_paint(green_code(), x.spec_display()))
}

/// What `display_items` shows: a newline, then one green display line per
/// item, when there are items; nothing otherwise.
pub open spec fn spec_display_items<T: Describe>(s: Seq<T>) -> Seq<char> {
    if s.len() > 0 {
        seq!['\n'] + join_lines(green_displays(s))
    } else {
        Seq::empty()
    }
}

/// Joins lines with newlines.
pub fn join_with_newlines(lines: &Vec<String>) -> (r: String)
    ensures
        r@ == join_lines(lines@.map_values(|s: String| s@)),
{
    let ghost v = lines@.map_values(|s: String| s@);
    let mut r = String::new();
    proof {
        reveal_strlit("\n");
    }
    let mut i: usize = 0;
    while i < lines.len()
        invariant
            i <= lines@.len(),
            v == lines@.map_values(|s: String| s@),
            r@ == join_lines(v.subrange(0, i as int)),
        decreases lines@.len() - i,
    {
        proof {
            reveal_strlit("\n");
        }
        if i > 0 {
            r.append("\n");
        }
        r.append(lines[i].as_str());
        proof {
            let a = v.subrange(0, i + 1);
            assert(a.drop_last() =~= v.subrange(0, i as int));
            if i == 0 {
                assert(r@ =~= join_lines(a));
            }
        }
        i = i + 1;
    }
    assert(v.subrange(0, lines@.len() as int) =~= v);
    r
}

/// Paints a text in a colour given by its code.
pub fn paint(c: Color) -> (r: String)
    ensures
        r@ == spec_render(c),
{
    c.render()
}

/// A list whose items are found again by their handles.
pub trait ListTrait {
    type Item: Describe;

    spec fn items_view(&self) -> Seq<Self::Item>;

    /// The item that the grabber picks: the `index`-th one that answers to
    /// the handle.
    fn get_item(&self, handle: Grabber) -> (r: Option<&Self::Item>)
        ensures
            match nth_answering(self.items_view(), handle.handle@, handle.index as int) {
                Some(i) => r matches Some(x) && *x == self.items_view()[i],
                None => r is None,
            },
    ;

    /// Takes out the item that the grabber picks.
    fn get_item_owned(&mut self, handle: Grabber) -> (r: Result<Self::Item, EnnuiError>)
        ensures
            match nth_answering(old(self).items_view(), handle.handle@, handle.index as int) {
                Some(i) => {
                    &&& r matches Ok(x) && x == old(self).items_view()[i]
                    &&& final(self).items_view() == old(self).items_view().remove(i)
                },
                None => {
                    &&& r matches Err(EnnuiError::Simple(Simple::ItemNotFound))
                    &&& final(self).items_view() == old(self).items_view()
                },
            },
    ;

    /// Whether the list takes `item`.
    spec fn spec_accepts(&self, item: Self::Item) -> bool;

    /// The items after `item` was taken in.
    spec fn spec_items_after_insert(&self, item: Self::Item) -> Seq<Self::Item>;

    /// Puts an item in; an item that is refused comes back unchanged.
    fn insert_item(&mut self, item: Self::Item) -> (r: Result<(), Self::Item>)
        ensures
            r is Ok == old(self).spec_accepts(item),
            r is Ok ==> final(self).items_view() == old(self).spec_items_after_insert(item),
            r matches Err(x) ==> x == item && final(self).items_view() == old(self).items_view(),
    ;

    /// Every item, in order.
    fn list(&self) -> (r: Vec<&Self::Item>)
        ensures
            r@.len() == self.items_view().len(),
            forall|i: int| 0 <= i < r@.len() ==> *r@[i] == self.items_view()[i],
    ;

    fn display_items(&self) -> (r: String)
        ensures
            r@ == spec_display_items(self.items_view()),
    ;
}

/// Moving an item from one list to the end of another keeps the items of
/// the two lists together: what left the first is what the second took.
pub proof fn law_transfer_keeps_items<T>(a: Seq<T>, b: Seq<T>, i: int)
    requires
        0 <= i < a.len(),
    ensures
        a.remove(i).to_multiset().add(b.push(a[i]).to_multiset()) == a.to_multiset().add(b.to_multiset()),
{
    broadcast use vstd::seq_lib::group_to_multiset_ensures;
    vstd::seq_lib::to_multiset_remove(a, i);
    assert(a.remove(i).to_multiset() == a.to_multiset().remove(a[i]));
    assert(b.push(a[i]).to_multiset() == b.to_multiset().insert(a[i]));
    assert(a.to_multiset().count(a[i]) > 0) by {
        assert(a.contains(a[i]));
    }
    assert(a.remove(i).to_multiset().add(b.push(a[i]).to_multiset()) =~= a.to_multiset().add(b.to_multiset()));
}

/// Moves the item that `handle` picks into `other` and answers with its
/// name. An item that `other` refuses is lost, and the answer is a
/// fatal error.
pub fn transfer<S: ListTrait, L: ListTrait<Item = S::Item>>(this: &mut S, other: &mut L, handle: &str) -> (r: Result<String, EnnuiError>)
    requires
        !is_all_form(handle@),
    ensures
        ({
            let g = spec_grab(handle@);
            match nth_answering(old(this).items_view(), g.0, g.1) {
                None => {
                    &&& r matches Err(EnnuiError::Simple(Simple::ItemNotFound))
                    &&& final(this).items_view() == old(this).items_view()
                    &&& final(other).items_view() == old(other).items_view()
                },
                Some(i) => {
                    let item = old(this).items_view()[i];
                    &&& final(this).items_view() == old(this).items_view().remove(i)
                    &&& if old(other).spec_accepts(item) {
                        &&& r matches Ok(name) && name@ == item.spec_name()
                        &&& final(other).items_view() == old(other).spec_items_after_insert(item)
                    } else {
                        &&& r matches Err(EnnuiError::Fatal(m)) && m@ == "COULD NOT TRANSFER ITEM"@
                        &&& final(other).items_view() == old(other).items_view()
                    }
                },
            }
        }),
{
    let item = match this.get_item_owned(Grabber::from_str(handle)) {
        Ok(item) => item,
        Err(e) => return Err(e),
    };
    let name = item.name();
    match other.insert_item(item) {
        Ok(()) => Ok(name),
        Err(_) => Err(EnnuiError::Fatal(String::from_str("COULD NOT TRANSFER ITEM"))),
    }
}

impl<T: Describe, U> ListTrait for List<T, U> {
    type Item = T;

    open spec fn items_view(&self) -> Seq<T> {
        self.spec_inner()
    }

    fn get_item(&self, handle: Grabber) -> (r: Option<&T>) {
        match find_nth(&self.inner, &handle) {
            Some(i) => Some(&self.inner[i]),
            None => None,
        }
    }

    fn get_item_owned(&mut self, handle: Grabber) -> (r: Result<T, EnnuiError>) {
        match find_nth(&self.inner, &handle) {
            Some(i) => Ok(self.inner.remove(i)),
            None => Err(EnnuiError::Simple(Simple::ItemNotFound)),
        }
    }

    open spec fn spec_accepts(&self, item: T) -> bool {
        true
    }

    open spec fn spec_items_after_insert(&self, item: T) -> Seq<T> {
        self.spec_inner().push(item)
    }

    fn insert_item(&mut self, item: T) -> (r: Result<(), T>)
        ensures
            r is Ok,
            final(self).items_view() == old(self).items_view().push(item),
    {
        self.inner.push(item);
        Ok(())
    }

    fn list(&self) -> (r: Vec<&T>) {
        let mut r: Vec<&T> = Vec::new();
        let mut i: usize = 0;
        while i < self.inner.len()
            invariant
                i <= self.inner@.len(),
                r@.len() == i,
                forall|j: int| 0 <= j < i ==> *r@[j] == self.inner@[j],
            decreases self.inner@.len() - i,
        {
            r.push(&self.inner[i]);
            i = i + 1;
        }
        r
    }

    fn display_items(&self) -> (r: String) {
        let mut lines: Vec<String> = Vec::new();
        let mut i: usize = 0;
        while i < self.inner.len()
            invariant
                i <= self.inner@.len(),
                lines@.len() == i,
                lines@.map_values(|s: String| s@) == green_displays(self.inner@.subrange(0, i as int)),
            decreases self.inner@.len() - i,
        {
            let d = self.inner[i].display();
            let line = paint(Color::Green(d));
            assert(line@ == spec_paint(green_code(), self.inner@[i as int].spec_display()));
            let ghost before = lines@;
            lines.push(line);
            proof {
                let a = lines@.map_values(|s: String| s@);
                let b = green_displays(self.inner@.subrange(0, i + 1));
                assert(a.len() == b.len());
                assert forall|j: int| 0 <= j < a.len() implies a[j] == b[j] by {
                    if j < i {
                        assert(a[j] == before.map_values(|s: String| s@)[j]);
                        assert(b[j] == green_displays(self.inner@.subrange(0, i as int))[j]);
                    }
                }
                assert(a =~= b);
            }
            i = i + 1;
        }
        assert(self.inner@.subrange(0, self.inner@.len() as int) =~= self.inner@);
        let joined = join_with_newlines(&lines);
        proof {
            reveal_strlit("\n");
        }
        if self.inner.len() > 0 {
            let mut r = String::from_str("\n");
            r.append(joined.as_str());
            r
        } else {
            String::new()
        }
    }
}

} // verus!
