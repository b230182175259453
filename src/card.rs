//! Cards, suits and ranks, and the standard 52-card order.

use vstd::prelude::*;

verus! {

#[derive(Clone, Copy, Debug, PartialEq, Eq, Structural)]
pub enum Suit {
    Clubs,
    Spades,
    Diamonds,
    Hearts,
}

/// Ranks in the order in which a fresh deck lists them, highest first but for the ace.
#[derive(Clone, Copy, Debug, PartialEq, Eq, Structural)]
pub enum Rank {
    Ace,
    King,
    Queen,
    Jack,
    Ten,
    Nine,
    Eight,
    Seven,
    Six,
    Five,
    Four,
    Three,
    Two,
}

#[derive(Clone, Copy, Debug, PartialEq, Eq, Structural)]
pub struct Card {
    pub suit: Suit,
    pub rank: Rank,
}

/// The number of cards in a full deck.
pub const DECK_SIZE: usize = 52;

/// The point value of a rank: the ace counts one, the king thirteen.
pub open spec fn rank_value(r: Rank) -> nat {
    match r {
        Rank::Ace => 1,
        Rank::Two => 2,
        Rank::Three => 3,
        Rank::Four => 4,
        Rank::Five => 5,
        Rank::Six => 6,
        Rank::Seven => 7,
        Rank::Eight => 8,
        Rank::Nine => 9,
        Rank::Ten => 10,
        Rank::Jack => 11,
        Rank::Queen => 12,
        Rank::King => 13,
    }
}

pub open spec fn card_value(c: Card) -> nat {
    rank_value(c.rank)
}

pub open spec fn suit_index(s: Suit) -> int {
    match s {
        Suit::Clubs => 0,
        Suit::Spades => 1,
        Suit::Diamonds => 2,
        Suit::Hearts => 3,
    }
}

/// Position of a rank within one suit of a fresh deck.
pub open spec fn rank_index(r: Rank) -> int {
    match r {
        Rank::Ace => 0,
        Rank::King => 1,
        Rank::Queen => 2,
        Rank::Jack => 3,
        Rank::Ten => 4,
        Rank::Nine => 5,
        Rank::Eight => 6,
        Rank::Seven => 7,
        Rank::Six => 8,
        Rank::Five => 9,
        Rank::Four => 10,
        Rank::Three => 11,
        Rank::Two => 12,
    }
}

pub open spec fn suit_at(k: int) -> Suit {
    if k <= 0 {
        Suit::Clubs
    } else if k == 1 {
        Suit::Spades
    } else if k == 2 {
        Suit::Diamonds
    } else {
        Suit::Hearts
    }
}

pub open spec fn rank_at(k: int) -> Rank {
    if k <= 0 {
        Rank::Ace
    } else if k == 1 {
        Rank::King
    } else if k == 2 {
        Rank::Queen
    } else if k == 3 {
        Rank::Jack
    } else if k == 4 {
        Rank::Ten
    } else if k == 5 {
        Rank::Nine
    } else if k == 6 {
        Rank::Eight
    } else if k == 7 {
        Rank::Seven
    } else if k == 8 {
        Rank::Six
    } else if k == 9 {
        Rank::Five
    } else if k == 10 {
        Rank::Four
    } else if k == 11 {
        Rank::Three
    } else {
        Rank::Two
    }
}

/// Which suit the card at position `i` of a fresh deck has: thirteen cards per suit.
pub open spec fn suit_block(i: int) -> int {
    if i < 13 {
        0
    } else if i < 26 {
        1
    } else if i < 39 {
        2
    } else {
        3
    }
}

/// The card at position `i` of a fresh deck: suit by suit, each suit in rank order.
pub open spec fn card_at(i: int) -> Card {
    Card { suit: suit_at(suit_block(i)), rank: rank_at(i - 13 * suit_block(i)) }
}

/// Position of a card in a fresh deck.
pub open spec fn card_index(c: Card) -> int {
    13 * suit_index(c.suit) + rank_index(c.rank)
}

/// A fresh deck, in its order before any shuffle.
pub open spec fn standard_deck() -> Seq<Card> {
    Seq::new(52, |i: int| card_at(i))
}

pub proof fn lemma_card_index_of_card_at(i: int)
    requires
        0 <= i < 52,
    ensures
        card_index(card_at(i)) == i,
{
}

pub proof fn lemma_card_at_of_card_index(c: Card)
    ensures
        0 <= card_index(c) < 52,
        card_at(card_index(c)) == c,
{
}

/// Every card occurs exactly once in a fresh deck.
pub proof fn lemma_standard_deck_once(c: Card)
    ensures
        standard_deck().to_multiset().count(c) == 1,
{
    let d = standard_deck();
    assert(d.no_duplicates()) by {
        assert forall|i: int, j: int| 0 <= i < d.len() && 0 <= j < d.len() && i != j implies d[i]
            != d[j] by {
            lemma_card_index_of_card_at(i);
            lemma_card_index_of_card_at(j);
        }
    }
    lemma_card_at_of_card_index(c);
    assert(d[card_index(c)] == c);
    assert(d.contains(c));
    broadcast use vstd::seq_lib::group_to_multiset_ensures;
    d.lemma_multiset_has_no_duplicates();
}

pub open spec fn suit_name(s: Suit) -> Seq<char> {
    match s {
        Suit::Clubs => "Clubs"@,
        Suit::Spades => "Spades"@,
        Suit::Diamonds => "Diamonds"@,
        Suit::Hearts => "Hearts"@,
    }
}

pub open spec fn rank_name(r: Rank) -> Seq<char> {
    match r {
        Rank::Ace => "Ace"@,
        Rank::King => "King"@,
        Rank::Queen => "Queen"@,
        Rank::Jack => "Jack"@,
        Rank::Ten => "Ten"@,
        Rank::Nine => "Nine"@,
        Rank::Eight => "Eight"@,
        Rank::Seven => "Seven"@,
        Rank::Six => "Six"@,
        Rank::Five => "Five"@,
        Rank::Four => "Four"@,
        Rank::Three => "Three"@,
        Rank::Two => "Two"@,
    }
}

/// How a card is shown to players: "<rank> of <suit>".
pub open spec fn card_text(c: Card) -> Seq<char> {
    rank_name(c.rank) + " of "@ + suit_name(c.suit)
}

impl Suit {
    pub fn name(&self) -> (r: &'static str)
        ensures
            r@ == suit_name(*self),
    {
        match self {
            Suit::Clubs => "Clubs",
            Suit::Spades => "Spades",
            Suit::Diamonds => "Diamonds",
            Suit::Hearts => "Hearts",
        }
    }

    pub fn from_index(k: usize) -> (r: Suit)
        requires
            k < 4,
        ensures
            r == suit_at(k as int),
            suit_index(r) == k,
    {
        if k == 0 {
            Suit::Clubs
        } else if k == 1 {
            Suit::Spades
        } else if k == 2 {
            Suit::Diamonds
        } else {
            Suit::Hearts
        }
    }
}

impl Rank {
    pub fn value(&self) -> (r: u64)
        ensures
            r == rank_value(*self),
    {
        match self {
            Rank::Ace => 1,
            Rank::Two => 2,
            Rank::Three => 3,
            Rank::Four => 4,
            Rank::Five => 5,
            Rank::Six => 6,
            Rank::Seven => 7,
            Rank::Eight => 8,
            Rank::Nine => 9,
            Rank::Ten => 10,
            Rank::Jack => 11,
            Rank::Queen => 12,
            Rank::King => 13,
        }
    }

    pub fn name(&self) -> (r: &'static str)
        ensures
            r@ == rank_name(*self),
    {
        match self {
            Rank::Ace => "Ace",
            Rank::King => "King",
            Rank::Queen => "Queen",
            Rank::Jack => "Jack",
            Rank::Ten => "Ten",
            Rank::Nine => "Nine",
            Rank::Eight => "Eight",
            Rank::Seven => "Seven",
            Rank::Six => "Six",
            Rank::Five => "Five",
            Rank::Four => "Four",
            Rank::Three => "Three",
            Rank::Two => "Two",
        }
    }

    pub fn from_index(k: usize) -> (r: Rank)
        requires
            k < 13,
        ensures
            r == rank_at(k as int),
            rank_index(r) == k,
    {
        if k == 0 {
            Rank::Ace
        } else if k == 1 {
            Rank::King
        } else if k == 2 {
            Rank::Queen
        } else if k == 3 {
            Rank::Jack
        } else if k == 4 {
            Rank::Ten
        } else if k == 5 {
            Rank::Nine
        } else if k == 6 {
            Rank::Eight
        } else if k == 7 {
            Rank::Seven
        } else if k == 8 {
            Rank::Six
        } else if k == 9 {
            Rank::Five
        } else if k == 10 {
            Rank::Four
        } else if k == 11 {
            Rank::Three
        } else {
            Rank::Two
        }
    }
}

impl Card {
    pub fn value(&self) -> (r: u64)
        ensures
            r == card_value(*self),
    {
        self.rank.value()
    }

    /// The card's name as players see it, such as "Queen of Hearts".
    pub fn describe(&self) -> (r: String)
        ensures
            r@ == card_text(*self),
    {
        let s = String::from_str(self.rank.name());
        let s = s.concat(" of ");
        s.concat(self.suit.name())
    }

    /// The card at position `i` of a fresh deck.
    pub fn at_position(i: usize) -> (r: Card)
        requires
            i < DECK_SIZE,
        ensures
            r == card_at(i as int),
    {
        let block: usize = if i < 13 {
            0
        } else if i < 26 {
            1
        } else if i < 39 {
            2
        } else {
            3
        };
        Card { suit: Suit::from_index(block), rank: Rank::from_index(i - 13 * block) }
    }
}

} // verus!
