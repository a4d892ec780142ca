//! Errors of game commands.
use vstd::prelude::*;

verus! {

/// The simple ways in which a command can fail.
#[derive(Copy, Clone, Debug, PartialEq, Eq, Structural)]
pub enum Simple {
    Clothing,
    ItemNotFound,
    TooHeavy,
    Fatal,
    Guarded,
    NotClothing,
    PlayerNotFound,
    CannotAcceptGivenItem,
}

/// Another name of `Simple`, as command code refers to it.
pub type CmdErr = Simple;

/// What went wrong while a command ran.
#[derive(Debug)]
pub enum EnnuiError {
    UnidentifiedError,
    /// Something that should not happen; the text says what.
    Fatal(String),
    /// A minor problem that is reported but not fatal.
    Lesser(String),
    Simple(Simple),
    /// A message that goes back to the player as the command's answer.
    Msg(String),
    ComplexError(Simple, String),
    /// The player asked to leave the game.
    Quit,
    /// Something that was looked up is not there.
    NoneFound,
}

/// The error is fatal, with text `m`.
pub open spec fn is_fatal(e: EnnuiError, m: Seq<char>) -> bool {
    e matches EnnuiError::Fatal(x) && x@ == m
}

/// The error is a message to the player, with text `m`.
pub open spec fn is_msg(e: EnnuiError, m: Seq<char>) -> bool {
    e matches EnnuiError::Msg(x) && x@ == m
}

} // verus!
