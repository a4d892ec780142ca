//! Recipes: how many souls of each kind a crafted item takes.
use vstd::prelude::*;
use crate::error::{EnnuiError, Simple};
use crate::text::parse::{parse_usize, spec_parse_usize};
use crate::text::strings::{find_char, first_index, is_prefix, lemma_first_index, starts_with};

verus! {

/// A combination of souls. When the player combines souls with the
/// `combine` command, the recipe database is consulted for a matching item.
#[derive(Debug, Default)]
pub struct Recipe {
    pub combat_req: usize,
    pub crafting_req: usize,
    pub exploration_req: usize,
}

/// What one word `N.kind` of a recipe adds to the (crafting, combat,
/// exploration) counts: `N` souls of the first kind among crafting, combat
/// and exploration whose name starts with the text after the first dot.
/// `None` when there is no dot, `N` is no number, or no kind fits.
pub open spec fn spec_recipe_word(w: Seq<char>) -> Option<(int, int, int)> {
    match first_index(w, '.') {
        None => None,
        Some(dot) => match spec_parse_usize(w.subrange(0, dot)) {
            None => None,
            Some(n) => {
                let kind = w.subrange(dot + 1, w.len() as int);
                if is_prefix(kind, "crafting"@) {
                    Some((n as int, 0, 0))
                } else if is_prefix(kind, "combat"@) {
                    Some((0, n as int, 0))
                } else if is_prefix(kind, "exploration"@) {
                    Some((0, 0, n as int))
                } else {
                    None
                }
            },
        },
    }
}

/// The counts that the first `k` words add up to, or `None` if one of them
/// is malformed.
pub open spec fn spec_recipe_prefix(ws: Seq<Seq<char>>, k: int) -> Option<(int, int, int)>
    decreases k,
{
    if k <= 0 {
        Some((0, 0, 0))
    } else {
        match spec_recipe_prefix(ws, k - 1) {
            None => None,
            Some(acc) => match spec_recipe_word(ws[k - 1]) {
                None => None,
                Some(d) => Some((acc.0 + d.0, acc.1 + d.1, acc.2 + d.2)),
            },
        }
    }
}

/// The words as character sequences.
pub open spec fn words_view(o: Seq<&str>) -> Seq<Seq<char>> {
    o.map_values(|s: &str| s@)
}

/// No running count exceeds `usize::MAX` while the words are read.
pub open spec fn recipe_counts_fit(o: Seq<&str>) -> bool {
    forall|k: int| 0 <= k <= o.len() ==> match #[trigger] spec_recipe_prefix(words_view(o), k) {
        Some(c) => c.0 <= usize::MAX && c.1 <= usize::MAX && c.2 <= usize::MAX,
        None => true,
    }
}

/// Reads one word `N.kind`.
pub fn recipe_word(s: &str) -> (r: Option<(usize, usize, usize)>)
    ensures
        match r {
            Some(t) => spec_recipe_word(s@) == Some((t.0 as int, t.1 as int, t.2 as int)),
            None => spec_recipe_word(s@) is None,
        },
{
    let dot = match find_char(s, '.') {
        None => return None,
        Some(n) => n,
    };
    proof {
        lemma_first_index(s@, '.');
    }
    let len = s.unicode_len();
    let number = match parse_usize(s.substring_char(0, dot)) {
        Some(n) => n,
        None => return None,
    };
    let kind = s.substring_char(dot + 1, len);
    proof {
        reveal_strlit("crafting");
        reveal_strlit("combat");
        reveal_strlit("exploration");
    }
    if starts_with("crafting", kind) {
        Some((number, 0, 0))
    } else if starts_with("combat", kind) {
        Some((0, number, 0))
    } else if starts_with("exploration", kind) {
        Some((0, 0, number))
    } else {
        None
    }
}

impl Recipe {
    /// Reads a recipe from the three words of a `combine` command, such as
    /// `1.crafting 2.combat 0.exploration`: the kinds may come in any
    /// order, may be abbreviated, and each number must be written, even 0.
    pub fn parse_words(o: &[&str]) -> (r: Result<Recipe, EnnuiError>)
        requires
            recipe_counts_fit(o@),
        ensures
            o@.len() != 3 ==> r matches Err(EnnuiError::Simple(Simple::ItemNotFound)),
            o@.len() == 3 ==> match spec_recipe_prefix(words_view(o@), 3) {
                Some(c) => r matches Ok(rec) && rec.crafting_req == c.0 && rec.combat_req == c.1
                    && rec.exploration_req == c.2,
                None => r matches Err(EnnuiError::Simple(Simple::ItemNotFound)),
            },
    {
        if o.len() != 3 {
            return Err(EnnuiError::Simple(Simple::ItemNotFound));
        }
        let mut ret = Recipe { combat_req: 0, crafting_req: 0, exploration_req: 0 };
        let mut i: usize = 0;
        while i < 3
            invariant
                o@.len() == 3,
                i <= 3,
                recipe_counts_fit(o@),
                spec_recipe_prefix(words_view(o@), i as int) == Some(
                    (ret.crafting_req as int, ret.combat_req as int, ret.exploration_req as int),
                ),
            decreases 3 - i,
        {
            let ghost ws = words_view(o@);
            assert(ws[i as int] == o@[i as int]@);
            match recipe_word(o[i]) {
                None => {
                    assert(spec_recipe_prefix(ws, i + 1) is None);
                    proof {
                        lemma_prefix_none_stays(ws, i + 1, 3);
                    }
                    return Err(EnnuiError::Simple(Simple::ItemNotFound));
                },
                Some(t) => {
                    assert(spec_recipe_prefix(ws, i + 1) == Some((
                        ret.crafting_req + t.0,
                        ret.combat_req + t.1,
                        ret.exploration_req + t.2,
                    )));
                    assert(0 <= i + 1 <= o@.len());
                    assert(match spec_recipe_prefix(words_view(o@), i + 1) {
                        Some(c) => c.0 <= usize::MAX && c.1 <= usize::MAX && c.2 <= usize::MAX,
                        None => true,
                    });
                    ret.crafting_req = ret.crafting_req + t.0;
                    ret.combat_req = ret.combat_req + t.1;
                    ret.exploration_req = ret.exploration_req + t.2;
                },
            }
            i = i + 1;
        }
        Ok(ret)
    }
}

/// Once a word is malformed, every longer prefix is malformed too.
proof fn lemma_prefix_none_stays(ws: Seq<Seq<char>>, k: int, m: int)
    requires
        0 <= k <= m,
        spec_recipe_prefix(ws, k) is None,
    ensures
        spec_recipe_prefix(ws, m) is None,
    decreases m - k,
{
    if k < m {
        lemma_prefix_none_stays(ws, k + 1, m);
    }
}

/// What three read words add up to: the sum of their counts, or `None`
/// if one of them is malformed.
pub open spec fn sum_of_three(x: Option<(int, int, int)>, y: Option<(int, int, int)>, z: Option<(int, int, int)>) -> Option<(int, int, int)> {
    match (x, y, z) {
        (Some(p), Some(q), Some(r)) => Some((p.0 + q.0 + r.0, p.1 + q.1 + r.1, p.2 + q.2 + r.2)),
        _ => None,
    }
}

/// Three words add up word by word.
proof fn lemma_three_words(a: Seq<char>, b: Seq<char>, c: Seq<char>)
    ensures
        spec_recipe_prefix(seq![a, b, c], 3) == sum_of_three(spec_recipe_word(a), spec_recipe_word(b), spec_recipe_word(c)),
{
    let ws = seq![a, b, c];
    assert(ws[0] == a && ws[1] == b && ws[2] == c);
    assert(spec_recipe_prefix(ws, 0) == Some((0int, 0int, 0int)));
    assert(spec_recipe_prefix(ws, 1) == match spec_recipe_word(a) {
        None => None,
        Some(d) => Some((0 + d.0, 0 + d.1, 0 + d.2)),
    });
    assert(spec_recipe_prefix(ws, 2) == match spec_recipe_prefix(ws, 1) {
        None => None,
        Some(acc) => match spec_recipe_word(b) {
            None => None,
            Some(d) => Some((acc.0 + d.0, acc.1 + d.1, acc.2 + d.2)),
        },
    });
    assert(spec_recipe_prefix(ws, 3) == match spec_recipe_prefix(ws, 2) {
        None => None,
        Some(acc) => match spec_recipe_word(c) {
            None => None,
            Some(d) => Some((acc.0 + d.0, acc.1 + d.1, acc.2 + d.2)),
        },
    });
}

/// The words of a recipe may come in any order: the three words add up
/// to the same counts, or are refused alike, whichever way they are
/// arranged.
pub proof fn law_recipe_order(a: Seq<char>, b: Seq<char>, c: Seq<char>)
    ensures
        spec_recipe_prefix(seq![a, b, c], 3) == spec_recipe_prefix(seq![a, c, b], 3),
        spec_recipe_prefix(seq![a, b, c], 3) == spec_recipe_prefix(seq![b, a, c], 3),
        spec_recipe_prefix(seq![a, b, c], 3) == spec_recipe_prefix(seq![b, c, a], 3),
        spec_recipe_prefix(seq![a, b, c], 3) == spec_recipe_prefix(seq![c, a, b], 3),
        spec_recipe_prefix(seq![a, b, c], 3) == spec_recipe_prefix(seq![c, b, a], 3),
{
    lemma_three_words(a, b, c);
    lemma_three_words(a, c, b);
    lemma_three_words(b, a, c);
    lemma_three_words(b, c, a);
    lemma_three_words(c, a, b);
    lemma_three_words(c, b, a);
}

} // verus!
