//! The names (handles) by which players refer to things, and the
//! `N.name` form that picks the N-th thing of a name.
use vstd::prelude::*;
use crate::text::parse::{is_digit, lemma_nat_digits, parse_usize, spec_nat_digits, spec_parse_usize};
use crate::text::strings::{find_char, first_index, lemma_first_index, str_eq};

verus! {

/// The list of names something answers to.
#[derive(Debug, Default)]
pub struct Hook(pub Vec<String>);

impl View for Hook {
    type V = Seq<Seq<char>>;

    open spec fn view(&self) -> Seq<Seq<char>> {
        self.0@.map_values(|s: String| s@)
    }
}

impl Clone for Hook {
    fn clone(&self) -> (r: Self)
        ensures
            r.0@ == self.0@,
    {
        let mut v: Vec<String> = Vec::new();
        let mut i: usize = 0;
        while i < self.0.len()
            invariant
                i <= self.0@.len(),
                v@ == self.0@.subrange(0, i as int),
            decreases self.0@.len() - i,
        {
            v.push(self.0[i].clone());
            assert(v@ =~= self.0@.subrange(0, i + 1));
            i = i + 1;
        }
        assert(v@ =~= self.0@);
        Hook(v)
    }
}

impl Hook {
    pub fn push(&mut self, s: String)
        ensures
            final(self)@ == old(self)@.push(s@),
            final(self).0@ == old(self).0@.push(s),
    {
        self.0.push(s);
        proof {
            assert(self@ =~= old(self)@.push(s@));
        }
    }

    pub fn inner(&self) -> (r: &Vec<String>)
        ensures
            r == &self.0,
    {
        &self.0
    }

    /// Whether one of the names is exactly `name`.
    pub fn answers_to(&self, name: &str) -> (r: bool)
        ensures
            r == self@.contains(name@),
    {
        let mut i: usize = 0;
        while i < self.0.len()
            invariant
                i <= self.0@.len(),
                forall|j: int| 0 <= j < i ==> self.0@[j]@ != name@,
            decreases self.0@.len() - i,
        {
            if str_eq(self.0[i].as_str(), name) {
                assert(self@[i as int] == name@);
                return true;
            }
            i = i + 1;
        }
        proof {
            if self@.contains(name@) {
                let k = choose|k: int| 0 <= k < self@.len() && self@[k] == name@;
                assert(self.0@[k]@ == name@);
            }
        }
        false
    }
}

impl<'a> PartialEq<&'a str> for Hook {
    fn eq(&self, other: &&'a str) -> (r: bool) {
        self.answers_to(*other)
    }
}

impl<'a> vstd::std_specs::cmp::PartialEqSpecImpl<&'a str> for Hook {
    open spec fn obeys_eq_spec() -> bool {
        true
    }

    open spec fn eq_spec(&self, other: &&'a str) -> bool {
        self@.contains((*other)@)
    }
}

impl<'a> PartialEq<Hook> for &'a str {
    fn eq(&self, other: &Hook) -> (r: bool) {
        other.answers_to(*self)
    }
}

impl<'a> vstd::std_specs::cmp::PartialEqSpecImpl<Hook> for &'a str {
    open spec fn obeys_eq_spec() -> bool {
        true
    }

    open spec fn eq_spec(&self, other: &Hook) -> bool {
        other@.contains((*self)@)
    }
}

/// Which of the things of one name a command is about.
pub enum IndexKind {
    All,
    Nth(usize),
}

/// A name together with which of the things of that name is meant
/// (counting from zero).
pub struct Grabber<'a> {
    pub handle: &'a str,
    pub index: usize,
}

/// The name and the index that a word of the form `N.name` picks: the text
/// after the first dot, and `N - 1` when `N` is a positive number (else 0).
/// A word without a dot is the name itself, at index 0.
pub open spec fn spec_grab(h: Seq<char>) -> (Seq<char>, int) {
    match first_index(h, '.') {
        None => (h, 0),
        Some(num) => {
            let rest = h.subrange(num + 1, h.len() as int);
            match spec_parse_usize(h.subrange(0, num)) {
                Some(n) => if n > 0 { (rest, n - 1) } else { (rest, 0) },
                None => (rest, 0),
            }
        },
    }
}

/// A word `N.name`, with `N` a number in decimal, picks the name after
/// the dot at index `N - 1`: `1.sword` is the first sword, `3.sword` the
/// third; `0.sword` is the first too. It is not of the `all.name` form.
pub proof fn law_grab_numbered(n: nat, h: Seq<char>)
    requires
        n <= usize::MAX,
    ensures
        spec_grab(spec_nat_digits(n) + seq!['.'] + h) == (h, if n > 0 { n - 1 } else { 0 }),
        !is_all_form(spec_nat_digits(n) + seq!['.'] + h),
{
    let d = spec_nat_digits(n);
    let s = d + seq!['.'] + h;
    lemma_nat_digits(n);
    lemma_first_index(s, '.');
    assert(s[d.len() as int] == '.');
    match first_index(s, '.') {
        Some(k) => {
            if k < d.len() {
                assert(s[k] == d[k]);
                assert(is_digit(d[k]));
            }
            assert(k == d.len());
        },
        None => {},
    }
    assert(s.subrange(0, d.len() as int) =~= d);
    assert(s.subrange(d.len() as int + 1, s.len() as int) =~= h);
    assert(is_digit(d[0]));
}

/// A word whose part before the first dot does not start with a digit or
/// `+` is no number: it picks the name after the dot at index 0.
pub proof fn law_grab_unnumbered(head: Seq<char>, h: Seq<char>)
    requires
        head.len() > 0,
        !is_digit(head[0]),
        head[0] != '+',
        forall|i: int| 0 <= i < head.len() ==> head[i] != '.',
    ensures
        spec_grab(head + seq!['.'] + h) == (h, 0int),
{
    let s = head + seq!['.'] + h;
    lemma_first_index(s, '.');
    assert(s[head.len() as int] == '.');
    match first_index(s, '.') {
        Some(k) => {
            if k < head.len() {
                assert(s[k] == head[k]);
            }
        },
        None => {},
    }
    assert(s.subrange(0, head.len() as int) =~= head);
    assert(s.subrange(head.len() as int + 1, s.len() as int) =~= h);
}

/// A word without a dot picks itself, at index 0.
pub proof fn law_grab_plain(h: Seq<char>)
    requires
        forall|i: int| 0 <= i < h.len() ==> h[i] != '.',
    ensures
        spec_grab(h) == (h, 0int),
{
    lemma_first_index(h, '.');
}

/// The word before the first dot is `all`, a form that is not handled.
pub open spec fn is_all_form(h: Seq<char>) -> bool {
    match first_index(h, '.') {
        None => false,
        Some(num) => h.subrange(0, num) == seq!['a', 'l', 'l'],
    }
}

/// Whether a word has the `all.name` form.
pub fn all_form(handle: &str) -> (r: bool)
    ensures
        r == is_all_form(handle@),
{
    let num = match find_char(handle, '.') {
        Some(n) => n,
        None => return false,
    };
    proof {
        lemma_first_index(handle@, '.');
        reveal_strlit("all");
        assert("all"@ =~= seq!['a', 'l', 'l']);
    }
    let head = handle.substring_char(0, num);
    str_eq(head, "all")
}

impl<'a> Grabber<'a> {
    pub fn from_str(handle: &'a str) -> (r: Self)
        requires
            !is_all_form(handle@),
        ensures
            r.handle@ == spec_grab(handle@).0,
            r.index as int == spec_grab(handle@).1,
    {
        let num = match find_char(handle, '.') {
            Some(n) => n,
            None => return Grabber { handle, index: 0 },
        };
        proof {
            lemma_first_index(handle@, '.');
        }
        let len = handle.unicode_len();
        let head = handle.substring_char(0, num);
        let rest = handle.substring_char(num + 1, len);
        match parse_usize(head) {
            Some(n) => {
                if n > 0 {
                    Grabber { handle: rest, index: n - 1 }
                } else {
                    Grabber { handle: rest, index: 0 }
                }
            },
            None => Grabber { handle: rest, index: 0 },
        }
    }
}

} // verus!
