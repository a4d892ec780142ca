//! Small helpers of the game.
use vstd::prelude::*;
use rand::Rng;

verus! {

/// Draws one `usize` with `Rng::gen` from rand's mock generator
/// `StepRng::new(initial, increment)`. In rand 0.7 the mock generator
/// hands out `initial` first, and a `usize` is drawn from `next_u64` (or
/// `next_u32` where `usize` has 32 bits) by a cast; so the value is
/// `initial` cut to the width of `usize`.
#[verifier::external_body]
fn first_step_value(initial: u64, increment: u64) -> (r: usize)
    ensures
        r as int == initial as int % (usize::MAX as int + 1),
{
    let mut n = rand::rngs::mock::StepRng::new(initial, increment);
    n.gen::<usize>()
}

/// The five answers to a word that names no command.
pub open spec fn spec_insult(n: int) -> Seq<char> {
    if n == 0 {
        "dude wtf"@
    } else if n == 1 {
        "i think you should leave"@
    } else if n == 2 {
        "i'll have to ask my lawyer about that"@
    } else if n == 3 {
        "that's ... uncommon"@
    } else {
        "that's an interesting theory... but will it hold up in the laboratory?"@
    }
}

/// The answer to a word that names no command: the first value of a
/// mock generator that starts at 48, taken modulo 5, picks one of five
/// answers.
pub fn random_insult() -> (r: String)
    ensures
        r@ == spec_insult(48int % 5),
{
    let n: usize = first_step_value(48, 32895) % 5;
    assert(n == 3) by {
        vstd::arithmetic::div_mod::lemma_small_mod(48nat, (usize::MAX as int + 1) as nat);
    }
    if n == 0 {
        String::from_str("dude wtf")
    } else if n == 1 {
        String::from_str("i think you should leave")
    } else if n == 2 {
        String::from_str("i'll have to ask my lawyer about that")
    } else if n == 3 {
        String::from_str("that's ... uncommon")
    } else {
        String::from_str("that's an interesting theory... but will it hold up in the laboratory?")
    }
}

} // verus!
