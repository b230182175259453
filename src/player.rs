//! The two seats at the table and what each player holds.

use vstd::prelude::*;
use vstd::multiset::Multiset;
use crate::card::Card;
use crate::melds::Melds;

verus! {

#[derive(Clone, Copy, Debug, PartialEq, Eq, Structural)]
pub enum PlayerId {
    PlayerOne,
    PlayerTwo,
}

pub open spec fn opponent_of(p: PlayerId) -> PlayerId {
    match p {
        PlayerId::PlayerOne => PlayerId::PlayerTwo,
        PlayerId::PlayerTwo => PlayerId::PlayerOne,
    }
}

impl PlayerId {
    pub fn opponent(&self) -> (r: PlayerId)
        ensures
            r == opponent_of(*self),
    {
        match self {
            PlayerId::PlayerOne => PlayerId::PlayerTwo,
            PlayerId::PlayerTwo => PlayerId::PlayerOne,
        }
    }
}

pub struct Player {
    pub name: String,
    pub hand: Vec<Card>,
    pub melds: Melds,
}

impl Player {
    /// A player with an empty hand and no melds.
    pub fn new(name: String) -> (r: Player)
        ensures
            r.name@ == name@,
            r.hand@.len() == 0,
            r.melds@.len() == 0,
    {
        Player { name, hand: Vec::new(), melds: Melds::create() }
    }

    /// Every card the player holds, in hand or in a meld.
    pub open spec fn cards(&self) -> Multiset<Card> {
        self.hand@.to_multiset().add(self.melds.cards())
    }
}

} // verus!
