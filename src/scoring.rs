//! Meld validity, deadwood and the points a finished hand is worth.

use vstd::prelude::*;
use crate::card::{Card, DECK_SIZE, card_value};
use crate::error::GinError;
use crate::melds::Melds;
use crate::player::{PlayerId, opponent_of};

verus! {

/// Deadwood at or below which a player may knock.
pub const KNOCK_LIMIT: u64 = 10;

/// Bonus on top of the opponent's deadwood for going gin.
pub const GIN_BONUS: u64 = 20;

/// Bonus on top of the difference for undercutting a knock.
pub const UNDERCUT_BONUS: u64 = 10;

/// The outcome of a finished hand.
#[derive(Clone, Copy, Debug, PartialEq, Eq, Structural)]
pub struct GameResult {
    pub winner: PlayerId,
    pub points: u64,
}

impl GameResult {
    pub fn new(winner: PlayerId, points: u64) -> (r: GameResult)
        ensures
            r == (GameResult { winner, points }),
    {
        GameResult { winner, points }
    }
}

pub open spec fn rank_gap(a: nat, b: nat) -> nat {
    if a >= b {
        (a - b) as nat
    } else {
        (b - a) as nat
    }
}

/// Three or more cards of one rank, no two of the same suit.
pub open spec fn is_set(m: Seq<Card>) -> bool {
    &&& m.len() >= 3
    &&& forall|i: int| 0 <= i < m.len() ==> #[trigger] m[i].rank == m[0].rank
    &&& forall|i: int, j: int| 0 <= i < j < m.len() ==> m[i].suit != m[j].suit
}

/// Three or more cards of one suit with consecutive ranks, in any order: the
/// ranks are pairwise distinct and no two lie as far apart as the meld is long.
pub open spec fn is_run(m: Seq<Card>) -> bool {
    &&& m.len() >= 3
    &&& forall|i: int| 0 <= i < m.len() ==> #[trigger] m[i].suit == m[0].suit
    &&& forall|i: int, j: int| 0 <= i < j < m.len() ==> #[trigger] run_pair(m, i, j)
}

/// Two cards of a run: their ranks differ, by less than the run's length.
pub open spec fn run_pair(m: Seq<Card>, i: int, j: int) -> bool {
    card_value(m[i]) != card_value(m[j]) && rank_gap(card_value(m[i]), card_value(m[j])) < m.len()
}

pub open spec fn is_valid_meld(m: Seq<Card>) -> bool {
    is_set(m) || is_run(m)
}

/// The summed point value of a sequence of cards.
pub open spec fn cards_value(s: Seq<Card>) -> nat
    decreases s.len(),
{
    if s.len() == 0 {
        0
    } else {
        cards_value(s.drop_last()) + card_value(s.last())
    }
}

/// The number of cards in a sequence of melds.
pub open spec fn meld_size(ms: Seq<Seq<Card>>) -> nat
    decreases ms.len(),
{
    if ms.len() == 0 {
        0
    } else {
        meld_size(ms.drop_last()) + ms.last().len()
    }
}

/// The value of the cards that sit in melds that are neither a run nor a set.
pub open spec fn unmelded_value(ms: Seq<Seq<Card>>) -> nat
    decreases ms.len(),
{
    if ms.len() == 0 {
        0
    } else {
        unmelded_value(ms.drop_last()) + if is_valid_meld(ms.last()) {
            0
        } else {
            cards_value(ms.last())
        }
    }
}

/// A player's deadwood: the hand, and every meld that does not count.
pub open spec fn deadwood_value(hand: Seq<Card>, ms: Seq<Seq<Card>>) -> nat {
    cards_value(hand) + unmelded_value(ms)
}

/// Who wins a finished hand and by how much, from the deadwood of the player
/// who ended it (`dd`) and of the other player (`od`).
pub open spec fn hand_result(gin: bool, declarer: PlayerId, dd: nat, od: nat) -> Result<
    GameResult,
    GinError,
> {
    if gin {
        if dd != 0 {
            Err(GinError::InvalidGin)
        } else {
            Ok(GameResult { winner: declarer, points: (od + GIN_BONUS) as u64 })
        }
    } else if dd > KNOCK_LIMIT {
        Err(GinError::InvalidKnock)
    } else if od <= dd {
        Ok(GameResult { winner: opponent_of(declarer), points: (dd - od + UNDERCUT_BONUS) as u64 })
    } else {
        Ok(GameResult { winner: declarer, points: (od - dd) as u64 })
    }
}

pub proof fn lemma_cards_value_bound(s: Seq<Card>)
    ensures
        cards_value(s) <= 13 * s.len(),
    decreases s.len(),
{
    if s.len() > 0 {
        lemma_cards_value_bound(s.drop_last());
    }
}

pub proof fn lemma_meld_size_prefix(ms: Seq<Seq<Card>>, k: int)
    requires
        0 <= k <= ms.len(),
    ensures
        meld_size(ms.take(k)) <= meld_size(ms),
    decreases ms.len(),
{
    if k < ms.len() {
        assert(ms.drop_last().take(k) =~= ms.take(k));
        lemma_meld_size_prefix(ms.drop_last(), k);
    } else {
        assert(ms.take(k) =~= ms);
    }
}

/// Whether the cards form a set.
pub fn check_set(m: &Vec<Card>) -> (r: bool)
    ensures
        r == is_set(m@),
{
    let n = m.len();
    if n < 3 {
        return false;
    }
    let mut i: usize = 0;
    while i < n
        invariant
            n == m@.len(),
            n >= 3,
            i <= n,
            forall|k: int| 0 <= k < i ==> #[trigger] m@[k].rank == m@[0].rank,
        decreases n - i,
    {
        if m[i].rank != m[0].rank {
            return false;
        }
        i = i + 1;
    }
    let mut i: usize = 0;
    while i < n
        invariant
            n == m@.len(),
            i <= n,
            forall|a: int, b: int| 0 <= a < i && a < b < n ==> m@[a].suit != m@[b].suit,
        decreases n - i,
    {
        let mut j: usize = i + 1;
        while j < n
            invariant
                n == m@.len(),
                i < n,
                i + 1 <= j <= n,
                forall|a: int, b: int| 0 <= a < i && a < b < n ==> m@[a].suit != m@[b].suit,
                forall|b: int| i < b < j ==> m@[i as int].suit != m@[b].suit,
            decreases n - j,
        {
            if m[i].suit == m[j].suit {
                return false;
            }
            j = j + 1;
        }
        i = i + 1;
    }
    true
}

/// Whether the cards form a run.
pub fn check_run(m: &Vec<Card>) -> (r: bool)
    ensures
        r == is_run(m@),
{
    let n = m.len();
    if n < 3 {
        return false;
    }
    let mut i: usize = 0;
    while i < n
        invariant
            n == m@.len(),
            n >= 3,
            i <= n,
            forall|k: int| 0 <= k < i ==> #[trigger] m@[k].suit == m@[0].suit,
        decreases n - i,
    {
        if m[i].suit != m[0].suit {
            return false;
        }
        i = i + 1;
    }
    let mut i: usize = 0;
    while i < n
        invariant
            n == m@.len(),
            i <= n,
            forall|k: int| 0 <= k < n ==> #[trigger] m@[k].suit == m@[0].suit,
            forall|a: int, b: int| 0 <= a < i && a < b < n ==> #[trigger] run_pair(m@, a, b),
        decreases n - i,
    {
        let mut j: usize = i + 1;
        while j < n
            invariant
                n == m@.len(),
                i < n,
                i + 1 <= j <= n,
                forall|k: int| 0 <= k < n ==> #[trigger] m@[k].suit == m@[0].suit,
                forall|a: int, b: int| 0 <= a < i && a < b < n ==> #[trigger] run_pair(m@, a, b),
                forall|b: int| i < b < j ==> #[trigger] run_pair(m@, i as int, b),
            decreases n - j,
        {
            let a = m[i].value();
            let b = m[j].value();
            let gap = if a >= b {
                a - b
            } else {
                b - a
            };
            if a == b || gap as usize >= n {
                assert(!run_pair(m@, i as int, j as int));
                return false;
            }
            j = j + 1;
        }
        i = i + 1;
    }
    true
}

/// Whether the cards form a run or a set, and so count against no one's deadwood.
pub fn meld_is_valid(m: &Vec<Card>) -> (r: bool)
    ensures
        r == is_valid_meld(m@),
{
    check_set(m) || check_run(m)
}

/// The summed point value of the cards.
pub fn value_of_cards(s: &Vec<Card>) -> (r: u64)
    requires
        s@.len() <= DECK_SIZE,
    ensures
        r == cards_value(s@),
{
    let mut acc: u64 = 0;
    let mut i: usize = 0;
    while i < s.len()
        invariant
            s@.len() <= DECK_SIZE,
            i <= s@.len(),
            acc == cards_value(s@.take(i as int)),
            acc <= 13 * i,
        decreases s@.len() - i,
    {
        assert(s@.take(i + 1).drop_last() =~= s@.take(i as int));
        acc = acc + s[i].value();
        i = i + 1;
    }
    assert(s@.take(s@.len() as int) =~= s@);
    acc
}

/// A player's deadwood: the value of the hand plus that of each meld that is
/// neither a run nor a set.
pub fn deadwood(hand: &Vec<Card>, melds: &Melds) -> (r: u64)
    requires
        hand@.len() + meld_size(melds@) <= DECK_SIZE,
    ensures
        r == deadwood_value(hand@, melds@),
        r <= 13 * DECK_SIZE,
{
    let ghost ms = melds@;
    proof {
        lemma_cards_value_bound(hand@);
    }
    let mut acc: u64 = value_of_cards(hand);
    let mut k: usize = 0;
    while k < melds.collection.len()
        invariant
            ms == melds@,
            hand@.len() + meld_size(ms) <= DECK_SIZE,
            k <= ms.len(),
            acc == cards_value(hand@) + unmelded_value(ms.take(k as int)),
            acc <= 13 * (hand@.len() + meld_size(ms.take(k as int))),
        decreases ms.len() - k,
    {
        let ghost pre = ms.take(k as int);
        let ghost next = ms.take(k + 1);
        proof {
            assert(next.drop_last() =~= pre);
            assert(next.last() == ms[k as int]);
            lemma_meld_size_prefix(ms, k + 1);
            lemma_cards_value_bound(ms[k as int]);
        }
        let meld = &melds.collection[k];
        assert(meld@ == ms[k as int]);
        if !meld_is_valid(meld) {
            let v = value_of_cards(meld);
            acc = acc + v;
        }
        k = k + 1;
    }
    assert(ms.take(ms.len() as int) =~= ms);
    acc
}

/// Scores a finished hand from the deadwood of the player who knocked or
/// went gin and that of the other player. Gin is refused unless the
/// declarer's deadwood is zero, a knock unless it is within the knock limit.
pub fn score_hand(gin: bool, declarer: PlayerId, declarer_deadwood: u64, opponent_deadwood: u64) -> (r:
    Result<GameResult, GinError>)
    requires
        opponent_deadwood <= u64::MAX - GIN_BONUS,
    ensures
        r == hand_result(gin, declarer, declarer_deadwood as nat, opponent_deadwood as nat),
        gin && declarer_deadwood != 0 ==> r == Err::<GameResult, GinError>(GinError::InvalidGin),
{
    if gin {
        if declarer_deadwood != 0 {
            Err(GinError::InvalidGin)
        } else {
            Ok(GameResult::new(declarer, opponent_deadwood + GIN_BONUS))
        }
    } else if declarer_deadwood > KNOCK_LIMIT {
        Err(GinError::InvalidKnock)
    } else if opponent_deadwood <= declarer_deadwood {
        Ok(
            GameResult::new(
                declarer.opponent(),
                declarer_deadwood - opponent_deadwood + UNDERCUT_BONUS,
            ),
        )
    } else {
        Ok(GameResult::new(declarer, opponent_deadwood - declarer_deadwood))
    }
}

} // verus!
