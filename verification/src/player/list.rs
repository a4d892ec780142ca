//! Sets of player ids.
use vstd::prelude::*;
use crate::player::{PlayerType, Uuid};
use crate::text::message::Messenger;

verus! {

/// The test that keeps every id but `u`.
pub open spec fn not_id(u: u128) -> spec_fn(u128) -> bool {
    |x: u128| x != u
}

/// A set of player ids, kept in the order in which they came; no id is
/// held twice.
///
/// The ids are held in a vector rather than a `HashSet`: the order in
/// which a hash set is walked depends on a hasher seeded anew in each
/// process, and the contracts of this library say in which order the
/// players of a room are told things and which of them answers a name
/// first. The order of arrival is one order a set may be walked in, and
/// with it those contracts are exact.
#[derive(Debug)]
pub struct PlayerIdList {
    ids: Vec<u128>,
}

impl View for PlayerIdList {
    type V = Seq<u128>;

    closed spec fn view(&self) -> Seq<u128> {
        self.ids@
    }
}

impl PlayerIdList {
    #[verifier::type_invariant]
    closed spec fn inv(self) -> bool {
        self.ids@.no_duplicates()
    }

    pub fn new() -> (r: Self)
        ensures
            r@ == Seq::<u128>::empty(),
            r@.no_duplicates(),
    {
        PlayerIdList { ids: Vec::new() }
    }

    pub fn len(&self) -> (r: usize)
        ensures
            r == self@.len(),
    {
        self.ids.len()
    }

    pub fn contains(&self, u: u128) -> (r: bool)
        ensures
            r == self@.contains(u),
    {
        let mut i: usize = 0;
        while i < self.ids.len()
            invariant
                i <= self.ids@.len(),
                forall|j: int| 0 <= j < i ==> self.ids@[j] != u,
            decreases self.ids@.len() - i,
        {
            if self.ids[i] == u {
                return true;
            }
            i = i + 1;
        }
        false
    }

    /// Adds `u`; answers whether it was not there yet.
    pub fn insert(&mut self, u: u128) -> (r: bool)
        ensures
            r == !old(self)@.contains(u),
            r ==> final(self)@ == old(self)@.push(u),
            !r ==> final(self)@ == old(self)@,
            final(self)@.contains(u),
            final(self)@.no_duplicates(),
    {
        proof {
            use_type_invariant(&*self);
        }
        if self.contains(u) {
            return false;
        }
        let mut ids = Vec::new();
        std::mem::swap(&mut ids, &mut self.ids);
        ids.push(u);
        proof {
            assert(ids@[ids@.len() - 1] == u);
            assert forall|a: int, b: int| 0 <= a < b < ids@.len() implies ids@[a] != ids@[b] by {
                if b == ids@.len() - 1 {
                    assert(old(self)@.contains(ids@[a]));
                }
            }
        }
        self.ids = ids;
        true
    }

    /// Takes `u` out; answers whether it was there.
    pub fn remove(&mut self, u: u128) -> (r: bool)
        ensures
            r == old(self)@.contains(u),
            final(self)@ == old(self)@.filter(not_id(u)),
            !final(self)@.contains(u),
            final(self)@.no_duplicates(),
    {
        proof {
            use_type_invariant(&*self);
        }
        let mut kept: Vec<u128> = Vec::new();
        let mut found = false;
        let mut i: usize = 0;
        while i < self.ids.len()
            invariant
                i <= self.ids@.len(),
                self.ids@.no_duplicates(),
                kept@ == self.ids@.subrange(0, i as int).filter(not_id(u)),
                found == self.ids@.subrange(0, i as int).contains(u),
                kept@.no_duplicates(),
                forall|x: u128| kept@.contains(x) ==> self.ids@.subrange(0, i as int).contains(x),
            decreases self.ids@.len() - i,
        {
            let x = self.ids[i];
            proof {
                let s = self.ids@;
                assert(s.subrange(0, i + 1).drop_last() =~= s.subrange(0, i as int));
                assert(s.subrange(0, i + 1).last() == x);
                reveal(Seq::filter);
                if kept@.contains(x) {
                    let k = choose|k: int| 0 <= k < i && s.subrange(0, i as int)[k] == x;
                    assert(s[k] == s[i as int]);
                }
            }
            let ghost old_kept = kept@;
            if x == u {
                found = true;
            } else {
                kept.push(x);
            }
            i = i + 1;
            proof {
                let s = self.ids@;
                assert forall|y: u128| kept@.contains(y) implies s.subrange(0, i as int).contains(y) by {
                    if old_kept.contains(y) {
                        let pre = s.subrange(0, i - 1);
                        let k = choose|k: int| 0 <= k < pre.len() && pre[k] == y;
                        assert(s.subrange(0, i as int)[k] == y);
                    } else {
                        assert(s.subrange(0, i as int)[i - 1] == y);
                    }
                }
            }
        }
        proof {
            assert(self.ids@.subrange(0, self.ids@.len() as int) =~= self.ids@);
        }
        self.ids = kept;
        proof {
            let f = old(self)@.filter(not_id(u));
            if f.contains(u) {
                let k = choose|k: int| 0 <= k < f.len() && f[k] == u;
                old(self)@.lemma_filter_pred(not_id(u), k);
            }
        }
        found
    }

    /// The ids other than `id`.
    pub fn except(&self, id: u128) -> (r: PlayerIdList)
        ensures
            r@ == self@.filter(not_id(id)),
            r@.no_duplicates(),
    {
        proof {
            use_type_invariant(self);
        }
        let mut cl = PlayerIdList { ids: self.ids.clone() };
        cl.remove(id);
        cl
    }

    /// A copy of the set.
    pub fn clone_list(&self) -> (r: PlayerIdList)
        ensures
            r@ == self@,
    {
        proof {
            use_type_invariant(self);
        }
        PlayerIdList { ids: self.ids.clone() }
    }

    /// The ids, in order.
    pub fn to_vec(&self) -> (r: Vec<u128>)
        ensures
            r@ == self@,
            r@.no_duplicates(),
    {
        proof {
            use_type_invariant(self);
        }
        self.ids.clone()
    }

    /// The id at position `i`.
    pub fn id_at(&self, i: usize) -> (r: u128)
        requires
            i < self@.len(),
        ensures
            r == self@[i as int],
    {
        self.ids[i]
    }
}

/// Every id of `s` passes the test that keeps all ids but `u`.
proof fn lemma_filter_keeps_all(s: Seq<u128>, u: u128)
    requires
        !s.contains(u),
    ensures
        s.filter(not_id(u)) == s,
    decreases s.len(),
{
    if s.len() > 0 {
        let t = s.drop_last();
        assert(!t.contains(u)) by {
            if t.contains(u) {
                let k = choose|k: int| 0 <= k < t.len() && t[k] == u;
                assert(s[k] == u);
            }
        }
        lemma_filter_keeps_all(t, u);
        assert(s =~= t.push(s.last()));
        t.lemma_filter_push(s.last(), not_id(u));
    }
}

/// Taking out an id that was just put in gives the set back as it was:
/// `remove` undoes an `insert` that added the id.
pub proof fn law_insert_then_remove(s: Seq<u128>, u: u128)
    requires
        s.no_duplicates(),
        !s.contains(u),
    ensures
        s.push(u).filter(not_id(u)) == s,
{
    s.lemma_filter_push(u, not_id(u));
    lemma_filter_keeps_all(s, u);
}

impl Uuid for PlayerIdList {
    open spec fn uuid_view(&self) -> u128 {
        0
    }

    open spec fn others_view(&self) -> Seq<u128> {
        self@
    }

    fn uuid(&self) -> (r: u128) {
        0
    }

    fn others(&self) -> (r: Vec<u128>) {
        self.to_vec()
    }
}

impl Messenger for PlayerIdList {
    open spec fn id_view(&self) -> Option<u128> {
        None
    }

    open spec fn object_id_view(&self) -> Option<u128> {
        None
    }

    open spec fn others_view(&self) -> Seq<u128> {
        self@
    }

    fn id(&self) -> (r: Option<u128>) {
        None
    }

    fn object(&self) -> (r: Option<u128>) {
        None
    }

    fn others(&self) -> (r: Vec<u128>) {
        self.to_vec()
    }
}

/// Position of the first entry with key `c`.
pub open spec fn id_index(s: Seq<(u128, PlayerType)>, c: u128) -> Option<int>
    decreases s.len(),
{
    if s.len() == 0 {
        None
    } else if s[0].0 == c {
        Some(0)
    } else {
        match id_index(s.drop_first(), c) {
            Some(i) => Some(i + 1),
            None => None,
        }
    }
}

/// The map that a list of entries stands for: each key to the room of its
/// first entry.
pub open spec fn players_map(s: Seq<(u128, PlayerType)>) -> Map<u128, PlayerType> {
    Map::new(|c: u128| id_index(s, c) is Some, |c: u128| s[id_index(s, c)->0].1)
}

pub proof fn lemma_id_index(s: Seq<(u128, PlayerType)>, c: u128)
    ensures
        match id_index(s, c) {
            Some(i) => 0 <= i < s.len() && s[i].0 == c && forall|j: int| 0 <= j < i ==> s[j].0 != c,
            None => forall|j: int| 0 <= j < s.len() ==> s[j].0 != c,
        },
    decreases s.len(),
{
    if s.len() > 0 && s[0].0 != c {
        lemma_id_index(s.drop_first(), c);
        match id_index(s.drop_first(), c) {
            Some(i) => {
                assert forall|j: int| 0 <= j < i + 1 implies s[j].0 != c by {
                    if j > 0 {
                        assert(s[j] == s.drop_first()[j - 1]);
                    }
                }
            },
            None => {
                assert forall|j: int| 0 <= j < s.len() implies s[j].0 != c by {
                    if j > 0 {
                        assert(s[j] == s.drop_first()[j - 1]);
                    }
                }
            },
        }
    }
}

pub proof fn lemma_id_index_unique(s: Seq<(u128, PlayerType)>, c: u128, k: int)
    requires
        0 <= k < s.len(),
        s[k].0 == c,
        forall|j: int| 0 <= j < k ==> s[j].0 != c,
    ensures
        id_index(s, c) == Some(k),
{
    lemma_id_index(s, c);
    match id_index(s, c) {
        Some(i) => {
            if i < k {
            } else if i > k {
            }
        },
        None => {},
    }
}

pub proof fn lemma_id_index_none(s: Seq<(u128, PlayerType)>, c: u128)
    requires
        forall|j: int| 0 <= j < s.len() ==> s[j].0 != c,
    ensures
        id_index(s, c) is None,
{
    lemma_id_index(s, c);
}

/// Appending an entry with a new key adds that key to the map.
pub proof fn lemma_push_new_player(s: Seq<(u128, PlayerType)>, c: u128, r: PlayerType)
    requires
        id_index(s, c) is None,
    ensures
        players_map(s.push((c, r))) == players_map(s).insert(c, r),
{
    let t = s.push((c, r));
    lemma_id_index(s, c);
    assert forall|k: u128| #[trigger] players_map(t).contains_key(k) == players_map(s).insert(c, r).contains_key(k) by {
        lemma_id_index(s, k);
        lemma_id_index(t, k);
        if k == c {
            lemma_id_index_unique(t, c, s.len() as int);
        } else {
            match id_index(s, k) {
                Some(i) => {
                    lemma_id_index_unique(t, k, i);
                },
                None => {
                    lemma_id_index_none(t, k);
                },
            }
        }
    }
    assert forall|k: u128| players_map(t).contains_key(k) implies #[trigger] players_map(t)[k] == players_map(s).insert(c, r)[k] by {
        lemma_id_index(s, k);
        if k == c {
            lemma_id_index_unique(t, c, s.len() as int);
        } else {
            match id_index(s, k) {
                Some(i) => {
                    lemma_id_index_unique(t, k, i);
                },
                None => {
                    lemma_id_index_none(t, k);
                },
            }
        }
    }
    assert(players_map(t) =~= players_map(s).insert(c, r));
}

/// Replacing the room of the first entry with key `c` replaces `c`'s room
/// in the map.
pub proof fn lemma_update_player_at(s: Seq<(u128, PlayerType)>, c: u128, i: int, r: PlayerType)
    requires
        id_index(s, c) == Some(i),
    ensures
        players_map(s.update(i, (c, r))) == players_map(s).insert(c, r),
{
    let t = s.update(i, (c, r));
    lemma_id_index(s, c);
    assert forall|k: u128| #[trigger] players_map(t).contains_key(k) == players_map(s).insert(c, r).contains_key(k) by {
        lemma_id_index(s, k);
        if k == c {
            lemma_id_index_unique(t, c, i);
        } else {
            match id_index(s, k) {
                Some(j) => {
                    lemma_id_index_unique(t, k, j);
                },
                None => {
                    lemma_id_index_none(t, k);
                },
            }
        }
    }
    assert forall|k: u128| players_map(t).contains_key(k) implies #[trigger] players_map(t)[k] == players_map(s).insert(c, r)[k] by {
        lemma_id_index(s, k);
        if k == c {
            lemma_id_index_unique(t, c, i);
        } else {
            match id_index(s, k) {
                Some(j) => {
                    lemma_id_index_unique(t, k, j);
                },
                None => {
                    lemma_id_index_none(t, k);
                },
            }
        }
    }
    assert(players_map(t) =~= players_map(s).insert(c, r));
}

/// The ids of a list of entries.
pub open spec fn entry_ids(s: Seq<(u128, PlayerType)>) -> Seq<u128> {
    s.map_values(|e: (u128, PlayerType)| e.0)
}

/// No id stands in two entries.
pub open spec fn ids_distinct(s: Seq<(u128, PlayerType)>) -> bool {
    forall|a: int, b: int| 0 <= a < b < s.len() ==> s[a].0 != s[b].0
}

/// Removing the entry of `u` from entries with distinct ids removes `u`
/// from the map and keeps the ids distinct.
pub proof fn lemma_remove_player_at(s: Seq<(u128, PlayerType)>, u: u128, i: int)
    requires
        ids_distinct(s),
        id_index(s, u) == Some(i),
    ensures
        players_map(s.remove(i)) == players_map(s).remove(u),
        ids_distinct(s.remove(i)),
{
    let t = s.remove(i);
    lemma_id_index(s, u);
    assert forall|a: int, b: int| 0 <= a < b < t.len() implies t[a].0 != t[b].0 by {
        let a2 = if a < i { a } else { a + 1 };
        let b2 = if b < i { b } else { b + 1 };
        assert(t[a] == s[a2]);
        assert(t[b] == s[b2]);
    }
    assert forall|k: u128| #[trigger] players_map(t).contains_key(k) == players_map(s).remove(u).contains_key(k) by {
        lemma_id_index(s, k);
        lemma_id_index(t, k);
        if k == u {
            assert forall|j: int| 0 <= j < t.len() implies t[j].0 != u by {
                let j2 = if j < i { j } else { j + 1 };
                assert(t[j] == s[j2]);
            }
            lemma_id_index_none(t, u);
        } else {
            match id_index(s, k) {
                Some(j) => {
                    let j2 = if j < i { j } else { j - 1 };
                    assert(t[j2] == s[j]);
                    assert forall|m: int| 0 <= m < j2 implies t[m].0 != k by {
                        let m2 = if m < i { m } else { m + 1 };
                        assert(t[m] == s[m2]);
                    }
                    lemma_id_index_unique(t, k, j2);
                },
                None => {
                    assert forall|m: int| 0 <= m < t.len() implies t[m].0 != k by {
                        let m2 = if m < i { m } else { m + 1 };
                        assert(t[m] == s[m2]);
                    }
                    lemma_id_index_none(t, k);
                },
            }
        }
    }
    assert forall|k: u128| players_map(t).contains_key(k) implies #[trigger] players_map(t)[k] == players_map(s).remove(u)[k] by {
        lemma_id_index(s, k);
        if k != u {
            match id_index(s, k) {
                Some(j) => {
                    let j2 = if j < i { j } else { j - 1 };
                    assert(t[j2] == s[j]);
                    assert forall|m: int| 0 <= m < j2 implies t[m].0 != k by {
                        let m2 = if m < i { m } else { m + 1 };
                        assert(t[m] == s[m2]);
                    }
                    lemma_id_index_unique(t, k, j2);
                },
                None => {},
            }
        } else {
            assert forall|j: int| 0 <= j < t.len() implies t[j].0 != u by {
                let j2 = if j < i { j } else { j + 1 };
                assert(t[j] == s[j2]);
            }
            lemma_id_index_none(t, u);
        }
    }
    assert(players_map(t) =~= players_map(s).remove(u));
}

/// With distinct ids, the ids of the entries are the keys of the map.
pub proof fn lemma_ids_are_keys(s: Seq<(u128, PlayerType)>)
    requires
        ids_distinct(s),
    ensures
        entry_ids(s).no_duplicates(),
        forall|k: u128| entry_ids(s).contains(k) == players_map(s).contains_key(k),
{
    assert forall|k: u128| entry_ids(s).contains(k) == players_map(s).contains_key(k) by {
        lemma_id_index(s, k);
        if entry_ids(s).contains(k) {
            let j = choose|j: int| 0 <= j < entry_ids(s).len() && entry_ids(s)[j] == k;
            assert(s[j].0 == k);
        }
        match id_index(s, k) {
            Some(j) => {
                assert(entry_ids(s)[j] == k);
            },
            None => {},
        }
    }
}

/// The players of the game by their ids.
///
/// The players are held as pairs in a vector, in the order in which they
/// joined, rather than in a `HashMap`: a hash map is walked in an order
/// that its per-process hasher decides, while the contracts of the game
/// say in which order the players are told things and which player
/// answers a name first. The order of joining is one order a map may be
/// walked in, and with it those contracts are exact.
#[derive(Debug)]
pub struct PlayerList {
    entries: Vec<(u128, PlayerType)>,
}

impl View for PlayerList {
    type V = Map<u128, PlayerType>;

    closed spec fn view(&self) -> Map<u128, PlayerType> {
        players_map(self.entries@)
    }
}

impl PlayerList {
    fn position(&self, u: u128) -> (r: Option<usize>)
        ensures
            match r {
                Some(i) => id_index(self.entries@, u) == Some(i as int),
                None => id_index(self.entries@, u) is None,
            },
    {
        let mut i: usize = 0;
        while i < self.entries.len()
            invariant
                i <= self.entries@.len(),
                forall|j: int| 0 <= j < i ==> self.entries@[j].0 != u,
            decreases self.entries@.len() - i,
        {
            if self.entries[i].0 == u {
                proof {
                    lemma_id_index_unique(self.entries@, u, i as int);
                }
                return Some(i);
            }
            i = i + 1;
        }
        proof {
            lemma_id_index_none(self.entries@, u);
        }
        None
    }

    pub fn new() -> (r: Self)
        ensures
            r@ == Map::<u128, PlayerType>::empty(),
            r.wf(),
            r.spec_ids() == Seq::<u128>::empty(),
    {
        let r = PlayerList { entries: Vec::new() };
        assert(r@ =~= Map::<u128, PlayerType>::empty());
        r
    }

    pub fn contains_key(&self, u: u128) -> (r: bool)
        ensures
            r == self@.contains_key(u),
    {
        match self.position(u) {
            Some(_) => true,
            None => false,
        }
    }

    /// Puts `p` under id `u`, in place of any player with that id.
    pub fn insert(&mut self, u: u128, p: PlayerType)
        ensures
            final(self)@ == old(self)@.insert(u, p),
            old(self).wf() ==> final(self).wf(),
            old(self)@.contains_key(u) ==> final(self).spec_ids() == old(self).spec_ids(),
            !old(self)@.contains_key(u) ==> final(self).spec_ids() == old(self).spec_ids().push(u),
    {
        match self.position(u) {
            Some(i) => {
                proof {
                    lemma_id_index(self.entries@, u);
                    lemma_update_player_at(self.entries@, u, i as int, p);
                    assert(entry_ids(self.entries@.update(i as int, (u, p))) =~= entry_ids(self.entries@));
                }
                self.entries.set(i, (u, p));
            },
            None => {
                proof {
                    lemma_push_new_player(self.entries@, u, p);
                    lemma_id_index(self.entries@, u);
                    assert(entry_ids(self.entries@.push((u, p))) =~= entry_ids(self.entries@).push(u));
                }
                self.entries.push((u, p));
            },
        }
    }

    pub fn get(&self, u: u128) -> (r: Option<&PlayerType>)
        ensures
            match r {
                Some(pl) => self@.contains_key(u) && *pl == self@[u],
                None => !self@.contains_key(u),
            },
    {
        match self.position(u) {
            Some(i) => {
                proof {
                    lemma_id_index(self.entries@, u);
                }
                Some(&self.entries[i].1)
            },
            None => None,
        }
    }

    /// The player with id `u`, to change.
    pub fn get_mut(&mut self, u: u128) -> (r: Option<&mut PlayerType>)
        ensures
            match r {
                Some(pl) => old(self)@.contains_key(u) && *pl == old(self)@[u]
                    && final(self)@ == old(self)@.insert(u, *final(pl))
                    && final(self).spec_ids() == old(self).spec_ids()
                    && (old(self).wf() ==> final(self).wf()),
                None => !old(self)@.contains_key(u) && final(self)@ == old(self)@ && final(self).spec_ids() == old(self).spec_ids()
                    && (old(self).wf() ==> final(self).wf()),
            },
    {
        match self.position(u) {
            Some(i) => {
                proof {
                    lemma_id_index(self.entries@, u);
                }
                let ghost old_entries = self.entries@;
                let entry = &mut self.entries[i];
                let pl = &mut entry.1;
                proof {
                    lemma_update_player_at(old_entries, u, i as int, *final(pl));
                    assert(entry_ids(old_entries.update(i as int, (u, *final(pl)))) =~= entry_ids(old_entries));
                }
                Some(pl)
            },
            None => None,
        }
    }

    /// No id stands twice.
    pub closed spec fn wf(&self) -> bool {
        ids_distinct(self.entries@)
    }

    /// The ids of the players, in the order in which they came.
    pub closed spec fn spec_ids(&self) -> Seq<u128> {
        entry_ids(self.entries@)
    }

    /// The ids are distinct and are the keys of the map.
    pub proof fn lemma_ids(&self)
        requires
            self.wf(),
        ensures
            self.spec_ids().no_duplicates(),
            forall|k: u128| self.spec_ids().contains(k) == self@.contains_key(k),
            self.spec_ids().len() == self@.dom().len(),
    {
        lemma_ids_are_keys(self.entries@);
        vstd::seq_lib::seq_to_set_is_finite(self.spec_ids());
        assert(self.spec_ids().to_set() =~= self@.dom());
        self.spec_ids().unique_seq_to_set();
    }

    /// Takes out the player with id `u`.
    pub fn remove(&mut self, u: u128) -> (r: Option<PlayerType>)
        requires
            old(self).wf(),
        ensures
            final(self).wf(),
            match r {
                Some(p) => old(self)@.contains_key(u) && p == old(self)@[u] && final(self)@ == old(self)@.remove(u)
                    && final(self).spec_ids() == old(self).spec_ids().remove(old(self).spec_ids().index_of(u)),
                None => !old(self)@.contains_key(u) && final(self)@ == old(self)@ && final(self).spec_ids() == old(self).spec_ids(),
            },
    {
        match self.position(u) {
            Some(i) => {
                proof {
                    lemma_id_index(self.entries@, u);
                    lemma_remove_player_at(self.entries@, u, i as int);
                    lemma_ids_are_keys(self.entries@);
                    assert(self.spec_ids()[i as int] == u);
                    assert(self.spec_ids().index_of(u) == i as int) by {
                        self.spec_ids().index_of_first_ensures(u);
                        let k = self.spec_ids().index_of(u);
                        assert(self.spec_ids()[k] == u);
                    }
                    assert(entry_ids(self.entries@.remove(i as int)) =~= self.spec_ids().remove(i as int));
                }
                let (_, p) = self.entries.remove(i);
                Some(p)
            },
            None => None,
        }
    }

    pub fn len(&self) -> (r: usize)
        ensures
            r == self.spec_ids().len(),
    {
        self.entries.len()
    }

    /// The id at position `i`.
    pub fn id_at(&self, i: usize) -> (r: u128)
        requires
            i < self.spec_ids().len(),
        ensures
            r == self.spec_ids()[i as int],
    {
        self.entries[i].0
    }

    /// The player at position `i`.
    pub fn player_at(&self, i: usize) -> (r: &PlayerType)
        requires
            i < self.spec_ids().len(),
        ensures
            self@.contains_key(self.spec_ids()[i as int]),
            self.wf() ==> *r == self@[self.spec_ids()[i as int]],
    {
        proof {
            let s = self.entries@;
            let k = s[i as int].0;
            lemma_id_index(s, k);
            if self.wf() {
                lemma_id_index_unique(s, k, i as int);
            }
        }
        &self.entries[i].1
    }

    /// The ids of all players, in order.
    pub fn to_id_list(&self) -> (r: PlayerIdList)
        requires
            self.wf(),
        ensures
            r@ == self.spec_ids(),
    {
        let mut r = PlayerIdList::new();
        let mut i: usize = 0;
        proof {
            lemma_ids_are_keys(self.entries@);
        }
        while i < self.entries.len()
            invariant
                i <= self.entries@.len(),
                ids_distinct(self.entries@),
                entry_ids(self.entries@).no_duplicates(),
                r@ == entry_ids(self.entries@).subrange(0, i as int),
            decreases self.entries@.len() - i,
        {
            let k = self.entries[i].0;
            proof {
                if r@.contains(k) {
                    let j = choose|j: int| 0 <= j < r@.len() && r@[j] == k;
                    assert(entry_ids(self.entries@)[j] == entry_ids(self.entries@)[i as int]);
                }
            }
            r.insert(k);
            proof {
                assert(r@ =~= entry_ids(self.entries@).subrange(0, i + 1));
            }
            i = i + 1;
        }
        assert(entry_ids(self.entries@).subrange(0, self.entries@.len() as int) =~= entry_ids(self.entries@));
        r
    }
}

} // verus!
