//! Souls, which players collect and combine into items.
pub mod recipe;

use vstd::prelude::*;
use crate::attribute::{index_of, lemma_index_of, remove_first, Quality};
use crate::describe::Describe;
use crate::error::EnnuiError;
use crate::hook::{Grabber, Hook};
use crate::list::{answers, count_answering, lemma_count_step, lemma_nth_unique, nth_answering, List, ListTrait};

verus! {

/// The kinds of soul.
#[derive(Copy, Clone, Debug, PartialEq, Eq, Structural)]
pub enum SoulKind {
    NoSoul,
    Combat,
    Crafting,
    Exploration,
}

impl Default for SoulKind {
    fn default() -> (r: Self)
        ensures
            r == SoulKind::NoSoul,
    {
        SoulKind::NoSoul
    }
}

/// The number that bytes write, most significant first, kept to 32 bits.
pub open spec fn spec_be_u32(b: Seq<u8>) -> u32
    decreases b.len(),
{
    if b.len() == 0 {
        0
    } else {
        ((spec_be_u32(b.drop_last()) as int * 256 + b.last() as int) % 4294967296) as u32
    }
}

impl SoulKind {
    /// The kind stored under a number: 1 combat, 2 crafting, 3 exploration;
    /// 0 is read as combat too. Other numbers are refused.
    pub fn try_from_code(o: i32) -> (r: Option<SoulKind>)
        ensures
            r == match o {
                0 => Some(SoulKind::Combat),
                1 => Some(SoulKind::Combat),
                2 => Some(SoulKind::Crafting),
                3 => Some(SoulKind::Exploration),
                _ => None::<SoulKind>,
            },
    {
        match o {
            0 => Some(SoulKind::Combat),
            1 => Some(SoulKind::Combat),
            2 => Some(SoulKind::Crafting),
            3 => Some(SoulKind::Exploration),
            _ => None,
        }
    }

    /// The kind that a stored number reads as, from its bytes, most
    /// significant first; bytes beyond four push the first ones out.
    pub fn from_sql_bytes(raw: &[u8]) -> (r: Option<SoulKind>)
        ensures
            r == match spec_be_u32(raw@) {
                0 => Some(SoulKind::Combat),
                1 => Some(SoulKind::Combat),
                2 => Some(SoulKind::Crafting),
                3 => Some(SoulKind::Exploration),
                _ => None::<SoulKind>,
            },
    {
        let mut acc: u32 = 0;
        let mut i: usize = 0;
        while i < raw.len()
            invariant
                i <= raw@.len(),
                acc == spec_be_u32(raw@.subrange(0, i as int)),
            decreases raw@.len() - i,
        {
            let next: u64 = (acc as u64 * 256 + raw[i] as u64) % 4294967296;
            proof {
                let t = raw@.subrange(0, i + 1);
                assert(t.drop_last() =~= raw@.subrange(0, i as int));
                assert(t.last() == raw@[i as int]);
            }
            acc = next as u32;
            i = i + 1;
        }
        assert(raw@.subrange(0, raw@.len() as int) =~= raw@);
        if acc <= 3 {
            SoulKind::try_from_code(acc as i32)
        } else {
            None
        }
    }

    /// The number under which a kind is stored.
    pub fn code(&self) -> (r: i32)
        ensures
            r == match *self {
                SoulKind::NoSoul => 0i32,
                SoulKind::Combat => 1i32,
                SoulKind::Crafting => 2i32,
                SoulKind::Exploration => 3i32,
            },
    {
        match self {
            SoulKind::NoSoul => 0,
            SoulKind::Combat => 1,
            SoulKind::Crafting => 2,
            SoulKind::Exploration => 3,
        }
    }
}

/// Makes a list of names from string literals.
fn names3(a: &str, b: &str, c: &str) -> (r: Hook)
    ensures
        r@ == seq![a@, b@, c@],
{
    let mut h = Hook(Vec::new());
    h.push(String::from_str(a));
    h.push(String::from_str(b));
    h.push(String::from_str(c));
    assert(h@ =~= seq![a@, b@, c@]);
    h
}

impl Describe for SoulKind {
    open spec fn spec_name(&self) -> Seq<char> {
        match self {
            SoulKind::Combat => "combat soul"@,
            SoulKind::Crafting => "crafting soul"@,
            SoulKind::Exploration => "exploration soul"@,
            SoulKind::NoSoul => ""@,
        }
    }

    open spec fn spec_display(&self) -> Seq<char> {
        match self {
            SoulKind::Combat => "A warrior soul wisps its way through the air"@,
            SoulKind::Crafting => "The soul of a maker travels through the air currents"@,
            SoulKind::Exploration => "An explorer's soul moves gently through every nook and cranny of the room"@,
            SoulKind::NoSoul => ""@,
        }
    }

    /// Souls carry no description.
    open spec fn spec_description(&self) -> Seq<char> {
        Seq::empty()
    }

    open spec fn spec_handle(&self) -> Seq<Seq<char>> {
        match self {
            SoulKind::Combat => seq!["combat"@, "soul"@, "warrior"@],
            SoulKind::Crafting => seq!["crafting"@, "soul"@, "crafter"@],
            SoulKind::Exploration => seq!["exploration"@, "soul"@, "explorer"@],
            SoulKind::NoSoul => Seq::empty(),
        }
    }

    fn name(&self) -> (r: String) {
        match self {
            SoulKind::Combat => String::from_str("combat soul"),
            SoulKind::Crafting => String::from_str("crafting soul"),
            SoulKind::Exploration => String::from_str("exploration soul"),
            SoulKind::NoSoul => String::from_str(""),
        }
    }

    fn display(&self) -> (r: String) {
        match self {
            SoulKind::Combat => String::from_str("A warrior soul wisps its way through the air"),
            SoulKind::Crafting => String::from_str("The soul of a maker travels through the air currents"),
            SoulKind::Exploration => String::from_str(
                "An explorer's soul moves gently through every nook and cranny of the room",
            ),
            SoulKind::NoSoul => String::from_str(""),
        }
    }

    fn description(&self) -> (r: String) {
        String::new()
    }

    fn handle(&self) -> (r: Hook) {
        match self {
            SoulKind::Combat => names3("combat", "soul", "warrior"),
            SoulKind::Crafting => names3("crafting", "soul", "crafter"),
            SoulKind::Exploration => names3("exploration", "soul", "explorer"),
            SoulKind::NoSoul => {
                let h = Hook(Vec::new());
                assert(h@ =~= Seq::<Seq<char>>::empty());
                h
            },
        }
    }
}

/// How many souls of kind `k` a list holds.
pub open spec fn count_kind(s: Seq<SoulKind>, k: SoulKind) -> nat
    decreases s.len(),
{
    if s.len() == 0 {
        0
    } else {
        count_kind(s.drop_last(), k) + if s.last() == k { 1nat } else { 0nat }
    }
}

/// `s` without its first `n` souls of kind `k`.
pub open spec fn remove_first_n(s: Seq<SoulKind>, k: SoulKind, n: nat) -> Seq<SoulKind>
    decreases n,
{
    if n == 0 {
        s
    } else {
        remove_first_n(remove_first(s, k), k, (n - 1) as nat)
    }
}

/// The handle by which souls of kind `k` are picked.
pub open spec fn kind_handle(k: SoulKind) -> Seq<char> {
    match k {
        SoulKind::Combat => "combat"@,
        SoulKind::Crafting => "crafting"@,
        SoulKind::Exploration => "exploration"@,
        SoulKind::NoSoul => Seq::empty(),
    }
}

proof fn lemma_answers_kind(x: SoulKind, k: SoulKind)
    requires
        k != SoulKind::NoSoul,
    ensures
        answers(x, kind_handle(k)) <==> x == k,
{
    reveal_strlit("combat");
    reveal_strlit("crafting");
    reveal_strlit("exploration");
    reveal_strlit("soul");
    reveal_strlit("warrior");
    reveal_strlit("crafter");
    reveal_strlit("explorer");
    let h = kind_handle(k);
    let hs = x.spec_handle();
    if x != k && hs.contains(h) {
        let i = choose|i: int| 0 <= i < hs.len() && hs[i] == h;
        assert(hs[i].len() == h.len());
        assert(hs[i][1] == h[1] || hs[i][0] != h[0]);
        assert(false);
    }
    if x == k {
        assert(hs[0] == h);
    }
}

proof fn lemma_count_zero(s: Seq<SoulKind>, k: SoulKind, i: int)
    requires
        k != SoulKind::NoSoul,
        0 <= i <= s.len(),
        forall|j: int| 0 <= j < i ==> s[j] != k,
    ensures
        count_answering(s.subrange(0, i), kind_handle(k)) == 0,
    decreases i,
{
    if i > 0 {
        lemma_count_zero(s, k, i - 1);
        lemma_count_step(s, kind_handle(k), i - 1);
        lemma_answers_kind(s[i - 1], k);
    }
}

/// The first soul of kind `k` is the one that its handle picks.
proof fn lemma_first_of_kind(s: Seq<SoulKind>, k: SoulKind)
    requires
        k != SoulKind::NoSoul,
    ensures
        nth_answering(s, kind_handle(k), 0) == index_of(s, k),
{
    lemma_index_of(s, k);
    match index_of(s, k) {
        Some(i) => {
            lemma_count_zero(s, k, i);
            lemma_answers_kind(s[i], k);
            lemma_nth_unique(s, kind_handle(k), 0, i);
        },
        None => {
            if nth_answering(s, kind_handle(k), 0) is Some {
                let i = nth_answering(s, kind_handle(k), 0)->0;
                lemma_answers_kind(s[i], k);
            }
        },
    }
}

proof fn lemma_count_remove_first(s: Seq<SoulKind>, k: SoulKind, j: SoulKind)
    requires
        s.contains(k),
    ensures
        count_kind(remove_first(s, k), j) == count_kind(s, j) - if j == k { 1int } else { 0int },
    decreases s.len(),
{
    lemma_index_of(s, k);
    let i = index_of(s, k)->0;
    if i == s.len() - 1 {
        assert(s.remove(i) =~= s.drop_last());
    } else {
        let t = s.drop_last();
        assert(t.contains(k)) by {
            assert(t[i] == s[i]);
        }
        lemma_index_of(t, k);
        crate::attribute::lemma_index_of_unique(t, k, i);
        lemma_count_remove_first(t, k, j);
        assert(remove_first(s, k).drop_last() =~= remove_first(t, k));
        assert(remove_first(s, k).last() == s.last());
    }
}

proof fn lemma_count_remove_n(s: Seq<SoulKind>, k: SoulKind, n: nat, j: SoulKind)
    requires
        count_kind(s, k) >= n,
    ensures
        count_kind(remove_first_n(s, k, n), j) == count_kind(s, j) - if j == k { n as int } else { 0int },
    decreases n,
{
    if n > 0 {
        lemma_count_pos_contains(s, k);
        lemma_count_remove_first(s, k, k);
        lemma_count_remove_first(s, k, j);
        lemma_count_remove_n(remove_first(s, k), k, (n - 1) as nat, j);
    }
}

proof fn lemma_count_pos_contains(s: Seq<SoulKind>, k: SoulKind)
    requires
        count_kind(s, k) > 0,
    ensures
        s.contains(k),
    decreases s.len(),
{
    if s.last() == k {
        assert(s[s.len() - 1] == k);
    } else {
        lemma_count_pos_contains(s.drop_last(), k);
        let i = choose|i: int| 0 <= i < s.drop_last().len() && s.drop_last()[i] == k;
        assert(s[i] == k);
    }
}

/// Counts the souls of one kind.
fn count_of(list: &List<SoulKind, Quality>, k: SoulKind) -> (r: usize)
    ensures
        r as nat == count_kind(list.items_view(), k),
{
    let lst = list.list();
    let ghost s = list.items_view();
    let mut n: usize = 0;
    let mut i: usize = 0;
    while i < lst.len()
        invariant
            i <= lst@.len(),
            lst@.len() == s.len(),
            forall|j: int| 0 <= j < lst@.len() ==> *lst@[j] == s[j],
            n as nat == count_kind(s.subrange(0, i as int), k),
            n <= i,
        decreases lst@.len() - i,
    {
        assert(s.subrange(0, i + 1).drop_last() =~= s.subrange(0, i as int));
        if *lst[i] == k {
            n = n + 1;
        }
        i = i + 1;
    }
    assert(s.subrange(0, s.len() as int) =~= s);
    n
}

/// Removes the first `n` souls of kind `k`, which the list must hold.
fn remove_kind(list: &mut List<SoulKind, Quality>, k: SoulKind, handle: &str, n: usize)
    requires
        k != SoulKind::NoSoul,
        handle@ == kind_handle(k),
        count_kind(old(list).items_view(), k) >= n,
    ensures
        final(list).items_view() == remove_first_n(old(list).items_view(), k, n as nat),
{
    let mut i: usize = 0;
    while i < n
        invariant
            k != SoulKind::NoSoul,
            handle@ == kind_handle(k),
            i <= n,
            count_kind(old(list).items_view(), k) >= n,
            remove_first_n(old(list).items_view(), k, n as nat) == remove_first_n(list.items_view(), k, (n - i) as nat),
            count_kind(list.items_view(), k) == count_kind(old(list).items_view(), k) - i,
        decreases n - i,
    {
        let ghost before = list.items_view();
        proof {
            lemma_first_of_kind(before, k);
            lemma_count_pos_contains(before, k);
            lemma_index_of(before, k);
            lemma_count_remove_first(before, k, k);
        }
        let _ = list.get_item_owned(Grabber { handle, index: 0 });
        assert(list.items_view() == remove_first(before, k));
        i = i + 1;
    }
}

impl List<SoulKind, Quality> {
    /// Uses up the souls that a recipe takes, if the list holds enough of
    /// each kind; says whether it did.
    pub fn process_recipe(&mut self, recipe: &recipe::Recipe) -> (r: bool)
        ensures
            r == (count_kind(old(self).items_view(), SoulKind::Crafting) >= recipe.crafting_req
                && count_kind(old(self).items_view(), SoulKind::Exploration) >= recipe.exploration_req
                && count_kind(old(self).items_view(), SoulKind::Combat) >= recipe.combat_req),
            r ==> final(self).items_view() == remove_first_n(
                remove_first_n(
                    remove_first_n(old(self).items_view(), SoulKind::Crafting, recipe.crafting_req as nat),
                    SoulKind::Exploration,
                    recipe.exploration_req as nat,
                ),
                SoulKind::Combat,
                recipe.combat_req as nat,
            ),
            !r ==> final(self).items_view() == old(self).items_view(),
    {
        let crafting = count_of(self, SoulKind::Crafting);
        let exploration = count_of(self, SoulKind::Exploration);
        let combat = count_of(self, SoulKind::Combat);
        if crafting >= recipe.crafting_req && exploration >= recipe.exploration_req && combat >= recipe.combat_req {
            proof {
                reveal_strlit("crafting");
                reveal_strlit("exploration");
                reveal_strlit("combat");
            }
            let ghost s0 = self.items_view();
            remove_kind(self, SoulKind::Crafting, "crafting", recipe.crafting_req);
            proof {
                lemma_count_remove_n(s0, SoulKind::Crafting, recipe.crafting_req as nat, SoulKind::Exploration);
                lemma_count_remove_n(s0, SoulKind::Crafting, recipe.crafting_req as nat, SoulKind::Combat);
            }
            let ghost s1 = self.items_view();
            remove_kind(self, SoulKind::Exploration, "exploration", recipe.exploration_req);
            proof {
                lemma_count_remove_n(s1, SoulKind::Exploration, recipe.exploration_req as nat, SoulKind::Combat);
            }
            remove_kind(self, SoulKind::Combat, "combat", recipe.combat_req);
            true
        } else {
            false
        }
    }
}

} // verus!
