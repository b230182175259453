//! The deck and the discard pile: ordered cards whose top is the last element.

use vstd::prelude::*;
use rand::seq::SliceRandom;
use crate::card::{Card, DECK_SIZE, standard_deck};
use crate::error::GinError;
use crate::melds::{lemma_move_card, lemma_move_top};

verus! {

/// Relies on rand's `SliceRandom::shuffle` with the thread-local generator:
/// it only swaps elements, so the result holds the same cards.
#[verifier::external_body]
fn shuffle_cards(cards: &mut Vec<Card>)
    ensures
        final(cards)@.len() == old(cards)@.len(),
        final(cards)@.to_multiset() == old(cards)@.to_multiset(),
{
    cards.shuffle(&mut rand::thread_rng());
}

pub struct Deck {
    pub cards: Vec<Card>,
}

impl Deck {
    /// A fresh deck of all 52 cards in suit-by-suit order.
    pub fn create() -> (r: Deck)
        ensures
            r.cards@ == standard_deck(),
    {
        let mut cards: Vec<Card> = Vec::new();
        let mut i: usize = 0;
        while i < DECK_SIZE
            invariant
                i <= DECK_SIZE,
                cards@ == standard_deck().take(i as int),
            decreases DECK_SIZE - i,
        {
            cards.push(Card::at_position(i));
            i = i + 1;
            assert(cards@ =~= standard_deck().take(i as int));
        }
        assert(cards@ =~= standard_deck());
        Deck { cards }
    }

    /// The top card and the one below it, without removing them.
    pub fn peek_two(&self) -> (r: (Card, Card))
        requires
            self.cards@.len() >= 2,
        ensures
            r.0 == self.cards@[self.cards@.len() - 1],
            r.1 == self.cards@[self.cards@.len() - 2],
    {
        let n = self.cards.len();
        (self.cards[n - 1], self.cards[n - 2])
    }

    /// Puts the cards in a random order.
    pub fn shuffle_deck(&mut self)
        ensures
            final(self).cards@.len() == old(self).cards@.len(),
            final(self).cards@.to_multiset() == old(self).cards@.to_multiset(),
    {
        shuffle_cards(&mut self.cards);
    }

    /// Moves the top card onto the end of `destination`; an empty deck is exhausted.
    pub fn draw_card(&mut self, destination: &mut Vec<Card>) -> (r: Result<(), GinError>)
        ensures
            old(self).cards@.len() == 0 ==> r == Err::<(), GinError>(GinError::DeckExhausted)
                && final(self).cards@ == old(self).cards@ && final(destination)@ == old(
                destination,
            )@,
            old(self).cards@.len() > 0 ==> r is Ok && final(self).cards@ == old(
                self,
            ).cards@.drop_last() && final(destination)@ == old(destination)@.push(
                old(self).cards@.last(),
            ),
            final(self).cards@.to_multiset().add(final(destination)@.to_multiset()) == old(
                self,
            ).cards@.to_multiset().add(old(destination)@.to_multiset()),
    {
        match self.cards.pop() {
            Some(card) => {
                destination.push(card);
                proof {
                    lemma_move_top(old(self).cards@, old(destination)@);
                }
                Ok(())
            },
            None => Err(GinError::DeckExhausted),
        }
    }
}

pub struct DiscardPile {
    pub cards: Vec<Card>,
}

impl DiscardPile {
    pub fn create() -> (r: DiscardPile)
        ensures
            r.cards@.len() == 0,
    {
        DiscardPile { cards: Vec::new() }
    }

    /// Moves the top discard onto the end of `destination`; an empty pile is reported.
    pub fn draw_card(&mut self, destination: &mut Vec<Card>) -> (r: Result<(), GinError>)
        ensures
            old(self).cards@.len() == 0 ==> r == Err::<(), GinError>(GinError::PileEmpty)
                && final(self).cards@ == old(self).cards@ && final(destination)@ == old(
                destination,
            )@,
            old(self).cards@.len() > 0 ==> r is Ok && final(self).cards@ == old(
                self,
            ).cards@.drop_last() && final(destination)@ == old(destination)@.push(
                old(self).cards@.last(),
            ),
            final(self).cards@.to_multiset().add(final(destination)@.to_multiset()) == old(
                self,
            ).cards@.to_multiset().add(old(destination)@.to_multiset()),
    {
        match self.cards.pop() {
            Some(card) => {
                destination.push(card);
                proof {
                    lemma_move_top(old(self).cards@, old(destination)@);
                }
                Ok(())
            },
            None => Err(GinError::PileEmpty),
        }
    }

    /// Moves the card at `card_index` of `origin` onto the top of the pile.
    pub fn discard_card(&mut self, origin: &mut Vec<Card>, card_index: usize) -> (r: Result<
        (),
        GinError,
    >)
        ensures
            card_index >= old(origin)@.len() ==> r == Err::<(), GinError>(GinError::InvalidIndex)
                && final(self).cards@ == old(self).cards@ && final(origin)@ == old(origin)@,
            card_index < old(origin)@.len() ==> r is Ok && final(origin)@ == old(origin)@.remove(
                card_index as int,
            ) && final(self).cards@ == old(self).cards@.push(old(origin)@[card_index as int]),
            final(origin)@.to_multiset().add(final(self).cards@.to_multiset()) == old(
                origin,
            )@.to_multiset().add(old(self).cards@.to_multiset()),
    {
        if card_index >= origin.len() {
            return Err(GinError::InvalidIndex);
        }
        let card = origin.remove(card_index);
        self.cards.push(card);
        proof {
            lemma_move_card(old(origin)@, old(self).cards@, card_index as int);
        }
        Ok(())
    }

    /// The card that a player drawing from the pile would take.
    pub fn top(&self) -> (r: Option<Card>)
        ensures
            self.cards@.len() == 0 ==> r is None,
            self.cards@.len() > 0 ==> r == Some(self.cards@.last()),
    {
        if self.cards.len() == 0 {
            None
        } else {
            Some(self.cards[self.cards.len() - 1])
        }
    }
}

} // verus!
