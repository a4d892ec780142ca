use vstd::prelude::*;

verus! {

/// What can go wrong when an item changes hands; the text names the item
/// or player.
#[derive(Debug)]
pub enum Error {
    Clothing(String),
    ItemNotFound(String),
    PlayerNotFound(String),
}

} // verus!
