//! What the rows of the game's database become: help texts, and the items
//! that soul recipes make. The queries themselves are run by the caller.
use vstd::prelude::*;
use crate::attribute::{spec_quality_code, Quality};
use crate::describe::{Description, DescriptionView};
use crate::hook::Hook;
use crate::item::{DescriptionWithQualities, Item};
use crate::soul::recipe::Recipe;
use crate::text::strings::concat3;

verus! {

/// What can go wrong with a lookup.
#[derive(Debug, Clone, Copy)]
pub enum DBError {
    /// The lookup found nothing.
    NoRows,
}

/// One row of the item table: name, display line, description, the names
/// the item answers to, and the numbers of its qualities.
pub struct ItemRow {
    pub name: String,
    pub display: String,
    pub description: String,
    pub hook: Vec<String>,
    pub attributes: Vec<i32>,
}

/// Every number codes a quality.
pub open spec fn all_codes(v: Seq<i32>) -> bool {
    forall|i: int| 0 <= i < v.len() ==> 0 <= #[trigger] v[i] <= 8
}

/// The numbers by which the item of a recipe is looked up: its crafting,
/// exploration and combat requirements, each cut to an `i32`.
pub fn recipe_key(r: &Recipe) -> (k: (i32, i32, i32))
    ensures
        k == (r.crafting_req as i32, r.exploration_req as i32, r.combat_req as i32),
{
    (r.crafting_req as i32, r.exploration_req as i32, r.combat_req as i32)
}

/// The item that a recipe makes, from the row that its lookup found: a
/// holdable item described by the row, with the qualities that the row's
/// numbers code. Nothing when the lookup found nothing or a number codes
/// no quality.
pub fn recipe_to_item(found: Option<ItemRow>) -> (r: Option<Item>)
    ensures
        match found {
            None => r is None,
            Some(row) => if all_codes(row.attributes@) {
                r matches Some(Item::Holdable(d)) && {
                    &&& d.info@ == (DescriptionView {
                        name: row.name@,
                        display: row.display@,
                        description: row.description@,
                        handle: row.hook@.map_values(|s: String| s@),
                    })
                    &&& d.attr@.len() == row.attributes@.len()
                    &&& forall|i: int| 0 <= i < d.attr@.len() ==> spec_quality_code(#[trigger] d.attr@[i]) == row.attributes@[i]
                }
            } else {
                r is None
            },
        },
{
    let ghost f = found;
    let row = match found {
        Some(row) => row,
        None => return None,
    };
    let ItemRow { name, display, description, hook, attributes } = row;
    let mut x: Vec<Quality> = Vec::new();
    let mut i: usize = 0;
    while i < attributes.len()
        invariant
            i <= attributes@.len(),
            f == found,
            f matches Some(rr) && rr.attributes@ == attributes@,
            x@.len() == i,
            forall|j: int| 0 <= j < i ==> 0 <= #[trigger] attributes@[j] <= 8,
            forall|j: int| 0 <= j < i ==> spec_quality_code(#[trigger] x@[j]) == attributes@[j],
        decreases attributes@.len() - i,
    {
        match Quality::try_from_code(attributes[i]) {
            Ok(q) => x.push(q),
            Err(_) => {
                proof {
                    assert(!(0 <= attributes@[i as int] <= 8));
                    assert(!all_codes(attributes@));
                }
                return None;
            },
        }
        i = i + 1;
    }
    let d = DescriptionWithQualities {
        info: Description { name, display, description, handle: Hook(hook) },
        attr: x,
    };
    Some(Item::Holdable(d))
}

/// The help text that a lookup found: its title, a blank line, and its
/// text; `NoRows` when the lookup found nothing.
pub fn help_text(found: Option<(String, String)>) -> (r: Result<String, DBError>)
    ensures
        match found {
            None => r matches Err(DBError::NoRows),
            Some(row) => r matches Ok(s) && s@ == row.0@ + "\n\n"@ + row.1@,
        },
{
    match found {
        Some((title, desc)) => {
            proof {
                reveal_strlit("\n\n");
            }
            Ok(concat3(title.as_str(), "\n\n", desc.as_str()))
        },
        None => Err(DBError::NoRows),
    }
}

} // verus!
