//! The state of one hand of Gin Rummy and the moves that advance it.
//!
//! A hand goes through these phases: the first turn is decided, the cards
//! are dealt, players take turns of draw, decision and discard until one of
//! them knocks or goes gin, then both build melds, the other player lays off
//! onto the declarer's melds, and the hand is scored.

use vstd::prelude::*;
use vstd::multiset::Multiset;
use crate::card::{Card, standard_deck, lemma_standard_deck_once, card_value, DECK_SIZE};
use crate::error::GinError;
use crate::melds::{meld_cards, lemma_empty_cards};
use crate::pile::{Deck, DiscardPile};
use crate::player::{Player, PlayerId, opponent_of};
use crate::scoring::{GameResult, deadwood, deadwood_value, hand_result, meld_size, score_hand};

verus! {

/// Which action the hand is waiting for.
#[derive(Clone, Copy, Debug, PartialEq, Eq, Structural)]
pub enum Phase {
    DeterminingFirstTurn,
    Dealing,
    AwaitingDraw,
    AwaitingDecision,
    AwaitingDiscard,
    Melding,
    LayingOff,
    HandOver,
}

/// What a player does after drawing.
#[derive(Clone, Copy, Debug, PartialEq, Eq, Structural)]
pub enum Decision {
    Knock,
    Gin,
    Neither,
}

/// What players may see of the discard pile.
#[derive(Clone, Copy, Debug, PartialEq, Eq, Structural)]
pub enum DiscardTop {
    Empty,
    FaceDown,
    FaceUp(Card),
}

pub struct GinGame {
    pub first_player: Player,
    pub second_player: Player,
    pub deck: Deck,
    pub discard_pile: DiscardPile,
    pub current_turn: PlayerId,
    pub knock_status: bool,
    pub gin_status: bool,
    /// The player who knocked or went gin; meaningful once one of them did.
    pub declarer: PlayerId,
    pub phase: Phase,
    pub score: Option<GameResult>,
}

/// The abstract state of a hand.
pub struct GameView {
    pub deck: Seq<Card>,
    pub discard: Seq<Card>,
    pub first_name: Seq<char>,
    pub second_name: Seq<char>,
    pub first_hand: Seq<Card>,
    pub second_hand: Seq<Card>,
    pub first_melds: Seq<Seq<Card>>,
    pub second_melds: Seq<Seq<Card>>,
    pub current_turn: PlayerId,
    pub knock_status: bool,
    pub gin_status: bool,
    pub declarer: PlayerId,
    pub phase: Phase,
    pub score: Option<GameResult>,
}

impl GameView {
    pub open spec fn hand(self, p: PlayerId) -> Seq<Card> {
        match p {
            PlayerId::PlayerOne => self.first_hand,
            PlayerId::PlayerTwo => self.second_hand,
        }
    }

    pub open spec fn melds(self, p: PlayerId) -> Seq<Seq<Card>> {
        match p {
            PlayerId::PlayerOne => self.first_melds,
            PlayerId::PlayerTwo => self.second_melds,
        }
    }

    pub open spec fn with_hand(self, p: PlayerId, h: Seq<Card>) -> GameView {
        match p {
            PlayerId::PlayerOne => GameView { first_hand: h, ..self },
            PlayerId::PlayerTwo => GameView { second_hand: h, ..self },
        }
    }

    pub open spec fn with_melds(self, p: PlayerId, m: Seq<Seq<Card>>) -> GameView {
        match p {
            PlayerId::PlayerOne => GameView { first_melds: m, ..self },
            PlayerId::PlayerTwo => GameView { second_melds: m, ..self },
        }
    }

    /// Every card of the hand, wherever it lies.
    pub open spec fn all_cards(self) -> Multiset<Card> {
        self.deck.to_multiset().add(self.discard.to_multiset()).add(
            self.first_hand.to_multiset(),
        ).add(meld_cards(self.first_melds)).add(self.second_hand.to_multiset()).add(
            meld_cards(self.second_melds),
        )
    }

    /// Whether the hand has been ended by a knock or by gin.
    pub open spec fn ended(self) -> bool {
        self.phase is Melding || self.phase is LayingOff || self.phase is HandOver
    }

    pub open spec fn wf(self) -> bool {
        &&& self.all_cards() == standard_deck().to_multiset()
        &&& !(self.knock_status && self.gin_status)
        &&& (self.knock_status || self.gin_status) == self.ended()
        &&& (self.phase is DeterminingFirstTurn || self.phase is Dealing) ==> {
            &&& self.discard.len() == 0
            &&& self.first_hand.len() == 0
            &&& self.second_hand.len() == 0
            &&& self.first_melds.len() == 0
            &&& self.second_melds.len() == 0
        }
    }
}

impl View for GinGame {
    type V = GameView;

    open spec fn view(&self) -> GameView {
        GameView {
            deck: self.deck.cards@,
            discard: self.discard_pile.cards@,
            first_name: self.first_player.name@,
            second_name: self.second_player.name@,
            first_hand: self.first_player.hand@,
            second_hand: self.second_player.hand@,
            first_melds: self.first_player.melds@,
            second_melds: self.second_player.melds@,
            current_turn: self.current_turn,
            knock_status: self.knock_status,
            gin_status: self.gin_status,
            declarer: self.declarer,
            phase: self.phase,
            score: self.score,
        }
    }
}

/// Who plays first after each player is shown a card (`a` for the first
/// player, `b` for the second): the higher value; on a tie, nobody yet.
pub open spec fn first_turn_from(a: Card, b: Card) -> Option<PlayerId> {
    if card_value(a) > card_value(b) {
        Some(PlayerId::PlayerOne)
    } else if card_value(a) < card_value(b) {
        Some(PlayerId::PlayerTwo)
    } else {
        None
    }
}

/// What players see of the discard pile: nothing once the hand has ended.
pub open spec fn discard_top_of(v: GameView) -> DiscardTop {
    if v.discard.len() == 0 {
        DiscardTop::Empty
    } else if v.knock_status || v.gin_status {
        DiscardTop::FaceDown
    } else {
        DiscardTop::FaceUp(v.discard.last())
    }
}

pub fn first_turn_from_cards(a: Card, b: Card) -> (r: Option<PlayerId>)
    ensures
        r == first_turn_from(a, b),
{
    let va = a.value();
    let vb = b.value();
    if va > vb {
        Some(PlayerId::PlayerOne)
    } else if va < vb {
        Some(PlayerId::PlayerTwo)
    } else {
        None
    }
}

proof fn lemma_pair_counts(x1: Multiset<Card>, y1: Multiset<Card>, x2: Multiset<Card>, y2: Multiset<Card>)
    requires
        x1.add(y1) == x2.add(y2),
    ensures
        forall|c: Card| #[trigger] x1.count(c) + y1.count(c) == x2.count(c) + y2.count(c),
{
    assert forall|c: Card| #[trigger] x1.count(c) + y1.count(c) == x2.count(c) + y2.count(c) by {
        let l = x1.add(y1);
        let r = x2.add(y2);
        assert(l.count(c) == r.count(c));
        assert(l.count(c) == x1.count(c) + y1.count(c));
        assert(r.count(c) == x2.count(c) + y2.count(c));
    }
}

proof fn lemma_meld_cards_len(ms: Seq<Seq<Card>>)
    ensures
        meld_cards(ms).len() == meld_size(ms),
    decreases ms.len(),
{
    broadcast use vstd::seq_lib::group_to_multiset_ensures;

    if ms.len() > 0 {
        lemma_meld_cards_len(ms.drop_last());
    }
}

/// In a well-formed hand every one of the 52 cards lies in exactly one
/// place: the deck, the discard pile, a hand or a meld.
pub proof fn lemma_each_card_once(v: GameView, c: Card)
    requires
        v.wf(),
    ensures
        v.all_cards().count(c) == 1,
{
    lemma_standard_deck_once(c);
}

/// In a well-formed hand a player holds no more cards than a deck has.
pub proof fn lemma_player_cards_bound(v: GameView, p: PlayerId)
    requires
        v.wf(),
    ensures
        v.hand(p).len() + meld_size(v.melds(p)) <= DECK_SIZE,
{
    broadcast use vstd::seq_lib::group_to_multiset_ensures;

    lemma_meld_cards_len(v.first_melds);
    lemma_meld_cards_len(v.second_melds);
    assert(standard_deck().len() == 52);
    assert(standard_deck().to_multiset().len() == 52);
    assert(v.all_cards().len() == v.deck.len() + v.discard.len() + v.first_hand.len() + meld_size(
        v.first_melds,
    ) + v.second_hand.len() + meld_size(v.second_melds));
}

/// Before the deal the whole deck is still in it.
pub proof fn lemma_full_deck_before_deal(v: GameView)
    requires
        v.wf(),
        v.phase is DeterminingFirstTurn || v.phase is Dealing,
    ensures
        v.deck.len() == DECK_SIZE,
        v.deck.to_multiset() == standard_deck().to_multiset(),
{
    broadcast use vstd::seq_lib::group_to_multiset_ensures;

    lemma_empty_cards();
    assert(v.first_melds =~= Seq::<Seq<Card>>::empty());
    assert(v.second_melds =~= Seq::<Seq<Card>>::empty());
    assert(v.discard =~= Seq::<Card>::empty());
    assert(v.first_hand =~= Seq::<Card>::empty());
    assert(v.second_hand =~= Seq::<Card>::empty());
    assert(meld_cards(v.first_melds) == Multiset::<Card>::empty());
    assert(meld_cards(v.second_melds) == Multiset::<Card>::empty());
    assert(v.all_cards() =~= v.deck.to_multiset());
    assert(standard_deck().len() == 52);
    assert(standard_deck().to_multiset().len() == 52);
    assert(v.deck.to_multiset().len() == v.deck.len());
}

impl GinGame {
    /// A new hand between two named players, waiting for the first turn to be decided.
    pub fn new(first_player_name: String, second_player_name: String) -> (r: GinGame)
        ensures
            r.wf(),
            r@.deck == standard_deck(),
            r@.discard.len() == 0,
            r@.first_name == first_player_name@,
            r@.second_name == second_player_name@,
            r@.first_hand.len() == 0,
            r@.second_hand.len() == 0,
            r@.first_melds.len() == 0,
            r@.second_melds.len() == 0,
            r@.current_turn == PlayerId::PlayerOne,
            !r@.knock_status,
            !r@.gin_status,
            r@.phase == Phase::DeterminingFirstTurn,
            r@.score is None,
    {
        let deck = Deck::create();
        let discard_pile = DiscardPile::create();
        let first_player = Player::new(first_player_name);
        let second_player = Player::new(second_player_name);
        let r = GinGame {
            first_player,
            second_player,
            deck,
            discard_pile,
            current_turn: PlayerId::PlayerOne,
            knock_status: false,
            gin_status: false,
            declarer: PlayerId::PlayerOne,
            phase: Phase::DeterminingFirstTurn,
            score: None,
        };
        proof {
            broadcast use vstd::seq_lib::group_to_multiset_ensures;

            lemma_empty_cards();
            let v = r@;
            assert(v.first_melds =~= Seq::<Seq<Card>>::empty());
            assert(v.second_melds =~= Seq::<Seq<Card>>::empty());
            assert(v.discard =~= Seq::<Card>::empty());
            assert(v.first_hand =~= Seq::<Card>::empty());
            assert(v.second_hand =~= Seq::<Card>::empty());
            assert(v.all_cards() =~= standard_deck().to_multiset());
        }
        r
    }

    pub open spec fn wf(&self) -> bool {
        self@.wf()
    }

    /// The player whose action is next.
    pub fn get_current_turn(&self) -> (r: PlayerId)
        ensures
            r == self@.current_turn,
    {
        self.current_turn
    }

    /// Passes the turn to the other player.
    pub fn set_next_turn(&mut self)
        requires
            old(self).wf(),
        ensures
            final(self).wf(),
            final(self)@ == (GameView {
                current_turn: opponent_of(old(self)@.current_turn),
                ..old(self)@
            }),
    {
        self.current_turn = self.current_turn.opponent();
    }

    /// Records the outcome of the hand.
    pub fn set_score(&mut self, points: u64, player: PlayerId)
        requires
            old(self).wf(),
        ensures
            final(self).wf(),
            final(self)@ == (GameView {
                score: Some(GameResult { winner: player, points }),
                ..old(self)@
            }),
    {
        self.score = Some(GameResult::new(player, points));
    }

    /// The current player draws the top card of the deck; an empty deck
    /// leaves everything as it was.
    pub fn draw_from_deck(&mut self) -> (r: Result<(), GinError>)
        requires
            old(self).wf(),
            old(self)@.phase == Phase::AwaitingDraw,
        ensures
            final(self).wf(),
            old(self)@.deck.len() == 0 ==> r == Err::<(), GinError>(GinError::DeckExhausted)
                && final(self)@ == old(self)@,
            old(self)@.deck.len() > 0 ==> r is Ok && final(self)@ == (GameView {
                deck: old(self)@.deck.drop_last(),
                phase: Phase::AwaitingDecision,
                ..old(self)@.with_hand(
                    old(self)@.current_turn,
                    old(self)@.hand(old(self)@.current_turn).push(old(self)@.deck.last()),
                )
            }),
    {
        let r = match self.current_turn {
            PlayerId::PlayerOne => self.deck.draw_card(&mut self.first_player.hand),
            PlayerId::PlayerTwo => self.deck.draw_card(&mut self.second_player.hand),
        };
        if r.is_ok() {
            self.phase = Phase::AwaitingDecision;
        }
        proof {
            let p = old(self)@.current_turn;
            lemma_pair_counts(
                self@.deck.to_multiset(),
                self@.hand(p).to_multiset(),
                old(self)@.deck.to_multiset(),
                old(self)@.hand(p).to_multiset(),
            );
            assert(self@.all_cards() =~= old(self)@.all_cards());
        }
        r
    }

    /// The current player takes the top of the discard pile; an empty pile
    /// leaves everything as it was.
    pub fn draw_from_discard(&mut self) -> (r: Result<(), GinError>)
        requires
            old(self).wf(),
            old(self)@.phase == Phase::AwaitingDraw,
        ensures
            final(self).wf(),
            old(self)@.discard.len() == 0 ==> r == Err::<(), GinError>(GinError::PileEmpty)
                && final(self)@ == old(self)@,
            old(self)@.discard.len() > 0 ==> r is Ok && final(self)@ == (GameView {
                discard: old(self)@.discard.drop_last(),
                phase: Phase::AwaitingDecision,
                ..old(self)@.with_hand(
                    old(self)@.current_turn,
                    old(self)@.hand(old(self)@.current_turn).push(old(self)@.discard.last()),
                )
            }),
    {
        let r = match self.current_turn {
            PlayerId::PlayerOne => self.discard_pile.draw_card(&mut self.first_player.hand),
            PlayerId::PlayerTwo => self.discard_pile.draw_card(&mut self.second_player.hand),
        };
        if r.is_ok() {
            self.phase = Phase::AwaitingDecision;
        }
        proof {
            let p = old(self)@.current_turn;
            lemma_pair_counts(
                self@.discard.to_multiset(),
                self@.hand(p).to_multiset(),
                old(self)@.discard.to_multiset(),
                old(self)@.hand(p).to_multiset(),
            );
            assert(self@.all_cards() =~= old(self)@.all_cards());
        }
        r
    }

    /// The current player knocks, goes gin, or goes on to discard. A knock
    /// or gin ends the turns and starts the meld phase with the declarer.
    pub fn declare(&mut self, decision: Decision)
        requires
            old(self).wf(),
            old(self)@.phase == Phase::AwaitingDecision,
        ensures
            final(self).wf(),
            decision == Decision::Knock ==> final(self)@ == (GameView {
                knock_status: true,
                declarer: old(self)@.current_turn,
                phase: Phase::Melding,
                ..old(self)@
            }),
            decision == Decision::Gin ==> final(self)@ == (GameView {
                gin_status: true,
                declarer: old(self)@.current_turn,
                phase: Phase::Melding,
                ..old(self)@
            }),
            decision == Decision::Neither ==> final(self)@ == (GameView {
                phase: Phase::AwaitingDiscard,
                ..old(self)@
            }),
    {
        match decision {
            Decision::Knock => {
                self.knock_status = true;
                self.declarer = self.current_turn;
                self.phase = Phase::Melding;
            },
            Decision::Gin => {
                self.gin_status = true;
                self.declarer = self.current_turn;
                self.phase = Phase::Melding;
            },
            Decision::Neither => {
                self.phase = Phase::AwaitingDiscard;
            },
        }
    }

    /// The current player discards the card at `hand_index` and the turn
    /// passes; a position outside the hand is refused with nothing changed.
    pub fn discard(&mut self, hand_index: usize) -> (r: Result<(), GinError>)
        requires
            old(self).wf(),
            old(self)@.phase == Phase::AwaitingDiscard,
        ensures
            final(self).wf(),
            hand_index >= old(self)@.hand(old(self)@.current_turn).len() ==> r == Err::<
                (),
                GinError,
            >(GinError::InvalidIndex) && final(self)@ == old(self)@,
            hand_index < old(self)@.hand(old(self)@.current_turn).len() ==> r is Ok
                && final(self)@ == (GameView {
                discard: old(self)@.discard.push(
                    old(self)@.hand(old(self)@.current_turn)[hand_index as int],
                ),
                current_turn: opponent_of(old(self)@.current_turn),
                phase: Phase::AwaitingDraw,
                ..old(self)@.with_hand(
                    old(self)@.current_turn,
                    old(self)@.hand(old(self)@.current_turn).remove(hand_index as int),
                )
            }),
    {
        let r = match self.current_turn {
            PlayerId::PlayerOne => self.discard_pile.discard_card(
                &mut self.first_player.hand,
                hand_index,
            ),
            PlayerId::PlayerTwo => self.discard_pile.discard_card(
                &mut self.second_player.hand,
                hand_index,
            ),
        };
        if r.is_ok() {
            self.current_turn = self.current_turn.opponent();
            self.phase = Phase::AwaitingDraw;
        }
        proof {
            let p = old(self)@.current_turn;
            lemma_pair_counts(
                self@.hand(p).to_multiset(),
                self@.discard.to_multiset(),
                old(self)@.hand(p).to_multiset(),
                old(self)@.discard.to_multiset(),
            );
            assert(self@.all_cards() =~= old(self)@.all_cards());
        }
        r
    }

    /// What players may see of the discard pile.
    pub fn discard_top(&self) -> (r: DiscardTop)
        ensures
            r == discard_top_of(self@),
    {
        match self.discard_pile.top() {
            None => DiscardTop::Empty,
            Some(card) => {
                if self.knock_status || self.gin_status {
                    DiscardTop::FaceDown
                } else {
                    DiscardTop::FaceUp(card)
                }
            },
        }
    }

    /// One draw for the first turn: the deck is shuffled and each player is
    /// shown a card from the top, the first player the very top one. The
    /// higher value plays first and the hand moves on to the deal; on a tie
    /// nothing is decided and the caller draws again.
    pub fn determine_first_turn(&mut self) -> (r: Option<PlayerId>)
        requires
            old(self).wf(),
            old(self)@.phase == Phase::DeterminingFirstTurn,
        ensures
            final(self).wf(),
            final(self)@.deck.len() == DECK_SIZE,
            final(self)@.deck.to_multiset() == old(self)@.deck.to_multiset(),
            r == first_turn_from(final(self)@.deck[DECK_SIZE - 1], final(self)@.deck[DECK_SIZE - 2]),
            r is None ==> final(self)@ == (GameView { deck: final(self)@.deck, ..old(self)@ }),
            r is Some ==> final(self)@ == (GameView {
                deck: final(self)@.deck,
                current_turn: r->Some_0,
                phase: Phase::Dealing,
                ..old(self)@
            }),
    {
        proof {
            lemma_full_deck_before_deal(old(self)@);
        }
        self.deck.shuffle_deck();
        proof {
            assert(self@.all_cards() =~= old(self)@.all_cards());
        }
        let (a, b) = self.deck.peek_two();
        let r = first_turn_from_cards(a, b);
        match r {
            Some(p) => {
                self.current_turn = p;
                self.phase = Phase::Dealing;
            },
            None => {},
        }
        r
    }

    /// Shuffles and deals ten cards to each player, one at a time and the
    /// first player first, then turns one card up to start the discard pile.
    pub fn deal_starting_hands(&mut self)
        requires
            old(self).wf(),
            old(self)@.phase == Phase::Dealing,
        ensures
            final(self).wf(),
            final(self)@.first_hand.len() == 10,
            final(self)@.second_hand.len() == 10,
            final(self)@.discard.len() == 1,
            final(self)@.deck.len() == 31,
            final(self)@ == (GameView {
                deck: final(self)@.deck,
                discard: final(self)@.discard,
                first_hand: final(self)@.first_hand,
                second_hand: final(self)@.second_hand,
                phase: Phase::AwaitingDraw,
                ..old(self)@
            }),
    {
        proof {
            lemma_full_deck_before_deal(old(self)@);
        }
        self.deck.shuffle_deck();
        proof {
            assert(self@.all_cards() =~= old(self)@.all_cards());
        }
        let mut i: usize = 0;
        while i < 10
            invariant
                i <= 10,
                self@.all_cards() == standard_deck().to_multiset(),
                self@.deck.len() == DECK_SIZE - 2 * i,
                self@.first_hand.len() == i,
                self@.second_hand.len() == i,
                self@ == (GameView {
                    deck: self@.deck,
                    first_hand: self@.first_hand,
                    second_hand: self@.second_hand,
                    ..old(self)@
                }),
            decreases 10 - i,
        {
            let ghost before = self@;
            let _ = self.deck.draw_card(&mut self.first_player.hand);
            proof {
                lemma_pair_counts(
                    self@.deck.to_multiset(),
                    self@.first_hand.to_multiset(),
                    before.deck.to_multiset(),
                    before.first_hand.to_multiset(),
                );
                assert(self@.all_cards() =~= before.all_cards());
            }
            let ghost mid = self@;
            let _ = self.deck.draw_card(&mut self.second_player.hand);
            proof {
                lemma_pair_counts(
                    self@.deck.to_multiset(),
                    self@.second_hand.to_multiset(),
                    mid.deck.to_multiset(),
                    mid.second_hand.to_multiset(),
                );
                assert(self@.all_cards() =~= mid.all_cards());
            }
            i = i + 1;
        }
        let ghost before = self@;
        let _ = self.deck.draw_card(&mut self.discard_pile.cards);
        proof {
            lemma_pair_counts(
                self@.deck.to_multiset(),
                self@.discard.to_multiset(),
                before.deck.to_multiset(),
                before.discard.to_multiset(),
            );
            assert(self@.all_cards() =~= before.all_cards());
        }
        self.phase = Phase::AwaitingDraw;
    }

    /// The current player starts an empty meld; its position is returned.
    pub fn create_meld(&mut self) -> (r: usize)
        requires
            old(self).wf(),
            old(self)@.phase == Phase::Melding,
        ensures
            final(self).wf(),
            r == old(self)@.melds(old(self)@.current_turn).len(),
            final(self)@ == old(self)@.with_melds(
                old(self)@.current_turn,
                old(self)@.melds(old(self)@.current_turn).push(Seq::empty()),
            ),
    {
        let r = match self.current_turn {
            PlayerId::PlayerOne => self.first_player.melds.create_new_meld(),
            PlayerId::PlayerTwo => self.second_player.melds.create_new_meld(),
        };
        proof {
            assert(self@.all_cards() =~= old(self)@.all_cards());
        }
        r
    }

    /// The current player moves the card at `hand_index` onto the end of
    /// their own meld at `meld_index`; either position out of range is
    /// refused with nothing changed.
    pub fn add_to_meld(&mut self, hand_index: usize, meld_index: usize) -> (r: Result<(), GinError>)
        requires
            old(self).wf(),
            old(self)@.phase == Phase::Melding,
        ensures
            final(self).wf(),
            ({
                let v = old(self)@;
                let p = v.current_turn;
                &&& (hand_index >= v.hand(p).len() || meld_index >= v.melds(p).len()) ==> r
                    == Err::<(), GinError>(GinError::InvalidIndex) && final(self)@ == v
                &&& (hand_index < v.hand(p).len() && meld_index < v.melds(p).len()) ==> r is Ok
                    && final(self)@ == v.with_hand(p, v.hand(p).remove(hand_index as int)).with_melds(
                    p,
                    v.melds(p).update(
                        meld_index as int,
                        v.melds(p)[meld_index as int].push(v.hand(p)[hand_index as int]),
                    ),
                )
            }),
    {
        let r = match self.current_turn {
            PlayerId::PlayerOne => self.first_player.melds.add_to_meld(
                &mut self.first_player.hand,
                hand_index,
                meld_index,
            ),
            PlayerId::PlayerTwo => self.second_player.melds.add_to_meld(
                &mut self.second_player.hand,
                hand_index,
                meld_index,
            ),
        };
        proof {
            let p = old(self)@.current_turn;
            lemma_pair_counts(
                meld_cards(self@.melds(p)),
                self@.hand(p).to_multiset(),
                meld_cards(old(self)@.melds(p)),
                old(self)@.hand(p).to_multiset(),
            );
            assert(self@.all_cards() =~= old(self)@.all_cards());
        }
        r
    }

    /// The current player disbands their meld at `meld_index`: its cards go
    /// back onto the end of their hand and later melds move down one place.
    pub fn remove_meld(&mut self, meld_index: usize) -> (r: Result<(), GinError>)
        requires
            old(self).wf(),
            old(self)@.phase == Phase::Melding,
        ensures
            final(self).wf(),
            ({
                let v = old(self)@;
                let p = v.current_turn;
                &&& meld_index >= v.melds(p).len() ==> r == Err::<(), GinError>(
                    GinError::InvalidIndex,
                ) && final(self)@ == v
                &&& meld_index < v.melds(p).len() ==> r is Ok && final(self)@ == v.with_hand(
                    p,
                    v.hand(p) + v.melds(p)[meld_index as int],
                ).with_melds(p, v.melds(p).remove(meld_index as int))
            }),
    {
        let r = match self.current_turn {
            PlayerId::PlayerOne => self.first_player.melds.remove_meld(
                &mut self.first_player.hand,
                meld_index,
            ),
            PlayerId::PlayerTwo => self.second_player.melds.remove_meld(
                &mut self.second_player.hand,
                meld_index,
            ),
        };
        proof {
            let p = old(self)@.current_turn;
            lemma_pair_counts(
                meld_cards(self@.melds(p)),
                self@.hand(p).to_multiset(),
                meld_cards(old(self)@.melds(p)),
                old(self)@.hand(p).to_multiset(),
            );
            assert(self@.all_cards() =~= old(self)@.all_cards());
        }
        r
    }

    /// The current player lays the card at `hand_index` off onto the end of
    /// the opponent's meld at `meld_index`; either position out of range is
    /// refused with nothing changed.
    pub fn lay_off(&mut self, hand_index: usize, meld_index: usize) -> (r: Result<(), GinError>)
        requires
            old(self).wf(),
            old(self)@.phase == Phase::LayingOff,
        ensures
            final(self).wf(),
            ({
                let v = old(self)@;
                let p = v.current_turn;
                let o = opponent_of(p);
                &&& (hand_index >= v.hand(p).len() || meld_index >= v.melds(o).len()) ==> r
                    == Err::<(), GinError>(GinError::InvalidIndex) && final(self)@ == v
                &&& (hand_index < v.hand(p).len() && meld_index < v.melds(o).len()) ==> r is Ok
                    && final(self)@ == v.with_hand(p, v.hand(p).remove(hand_index as int)).with_melds(
                    o,
                    v.melds(o).update(
                        meld_index as int,
                        v.melds(o)[meld_index as int].push(v.hand(p)[hand_index as int]),
                    ),
                )
            }),
    {
        let r = match self.current_turn {
            PlayerId::PlayerOne => self.second_player.melds.add_to_meld(
                &mut self.first_player.hand,
                hand_index,
                meld_index,
            ),
            PlayerId::PlayerTwo => self.first_player.melds.add_to_meld(
                &mut self.second_player.hand,
                hand_index,
                meld_index,
            ),
        };
        proof {
            let p = old(self)@.current_turn;
            let o = opponent_of(p);
            lemma_pair_counts(
                meld_cards(self@.melds(o)),
                self@.hand(p).to_multiset(),
                meld_cards(old(self)@.melds(o)),
                old(self)@.hand(p).to_multiset(),
            );
            assert(self@.all_cards() =~= old(self)@.all_cards());
        }
        r
    }

    /// The current player is done with this part of the meld phase. The
    /// declarer melds first, then the opponent melds and then lays off onto
    /// the declarer's melds; after that the hand is over.
    pub fn finish_melds(&mut self)
        requires
            old(self).wf(),
            old(self)@.phase == Phase::Melding || old(self)@.phase == Phase::LayingOff,
        ensures
            final(self).wf(),
            ({
                let v = old(self)@;
                &&& (v.phase == Phase::Melding && v.current_turn == v.declarer) ==> final(self)@
                    == (GameView { current_turn: opponent_of(v.current_turn), ..v })
                &&& (v.phase == Phase::Melding && v.current_turn != v.declarer) ==> final(self)@
                    == (GameView { phase: Phase::LayingOff, ..v })
                &&& v.phase == Phase::LayingOff ==> final(self)@ == (GameView {
                    phase: Phase::HandOver,
                    ..v
                })
            }),
    {
        if self.phase == Phase::LayingOff {
            self.phase = Phase::HandOver;
        } else if self.current_turn == self.declarer {
            self.current_turn = self.current_turn.opponent();
        } else {
            self.phase = Phase::LayingOff;
        }
    }

    /// A player's deadwood: the value of their hand plus that of each of
    /// their melds that is neither a run nor a set.
    pub fn deadwood_of(&self, player: PlayerId) -> (r: u64)
        requires
            self.wf(),
        ensures
            r == deadwood_value(self@.hand(player), self@.melds(player)),
            r <= 13 * DECK_SIZE,
    {
        proof {
            lemma_player_cards_bound(self@, player);
        }
        match player {
            PlayerId::PlayerOne => deadwood(&self.first_player.hand, &self.first_player.melds),
            PlayerId::PlayerTwo => deadwood(&self.second_player.hand, &self.second_player.melds),
        }
    }

    /// Scores the finished hand: gin earns the opponent's deadwood plus the
    /// gin bonus and needs zero deadwood; a knock needs deadwood within the
    /// knock limit and earns the difference, unless the opponent's deadwood
    /// is no higher, in which case the opponent earns the difference plus the
    /// undercut bonus.
    pub fn compute_score(&self) -> (r: Result<GameResult, GinError>)
        requires
            self.wf(),
            self@.phase == Phase::HandOver,
        ensures
            r == hand_result(
                self@.gin_status,
                self@.declarer,
                deadwood_value(self@.hand(self@.declarer), self@.melds(self@.declarer)),
                deadwood_value(
                    self@.hand(opponent_of(self@.declarer)),
                    self@.melds(opponent_of(self@.declarer)),
                ),
            ),
            self@.gin_status && deadwood_value(self@.hand(self@.declarer), self@.melds(self@.declarer))
                != 0 ==> r == Err::<GameResult, GinError>(GinError::InvalidGin),
    {
        let declarer = self.declarer;
        let dd = self.deadwood_of(declarer);
        let od = self.deadwood_of(declarer.opponent());
        score_hand(self.gin_status, declarer, dd, od)
    }
}

} // verus!
