//! The ways in which an action on a hand can be refused.

use vstd::prelude::*;

verus! {

#[derive(Clone, Copy, Debug, PartialEq, Eq, Structural)]
pub enum GinError {
    /// A draw from a deck with no cards left.
    DeckExhausted,
    /// A draw from an empty discard pile.
    PileEmpty,
    /// A hand or meld position that does not exist.
    InvalidIndex,
    /// Gin declared by a player whose deadwood is not zero.
    InvalidGin,
    /// A knock by a player whose deadwood is above the knock limit.
    InvalidKnock,
}

} // verus!
