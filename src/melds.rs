//! A player's melds: groups of cards taken out of a hand.

use vstd::prelude::*;
use vstd::multiset::Multiset;
use crate::card::Card;
use crate::error::GinError;

verus! {

/// All cards held in a sequence of melds, counted with multiplicity.
pub open spec fn meld_cards(ms: Seq<Seq<Card>>) -> Multiset<Card>
    decreases ms.len(),
{
    if ms.len() == 0 {
        Multiset::empty()
    } else {
        meld_cards(ms.drop_last()).add(ms.last().to_multiset())
    }
}

pub proof fn lemma_meld_cards_push(ms: Seq<Seq<Card>>, m: Seq<Card>)
    ensures
        meld_cards(ms.push(m)) == meld_cards(ms).add(m.to_multiset()),
{
    assert(ms.push(m).drop_last() =~= ms);
}

pub proof fn lemma_meld_cards_update(ms: Seq<Seq<Card>>, j: int, m: Seq<Card>)
    requires
        0 <= j < ms.len(),
    ensures
        meld_cards(ms.update(j, m)).add(ms[j].to_multiset()) == meld_cards(ms).add(
            m.to_multiset(),
        ),
    decreases ms.len(),
{
    let u = ms.update(j, m);
    if j == ms.len() - 1 {
        assert(u.drop_last() =~= ms.drop_last());
        assert(u.last() == m);
        assert(meld_cards(u).add(ms[j].to_multiset()) =~= meld_cards(ms).add(m.to_multiset()));
    } else {
        assert(u.drop_last() =~= ms.drop_last().update(j, m));
        assert(u.last() == ms.last());
        lemma_meld_cards_update(ms.drop_last(), j, m);
        let a = meld_cards(ms.drop_last().update(j, m));
        let b = meld_cards(ms.drop_last());
        assert forall|v: Card|
            #[trigger] meld_cards(u).add(ms[j].to_multiset()).count(v) == meld_cards(ms).add(
                m.to_multiset(),
            ).count(v) by {
            assert(a.add(ms[j].to_multiset()).count(v) == b.add(m.to_multiset()).count(v));
        }
        assert(meld_cards(u).add(ms[j].to_multiset()) =~= meld_cards(ms).add(m.to_multiset()));
    }
}

pub proof fn lemma_meld_cards_remove(ms: Seq<Seq<Card>>, j: int)
    requires
        0 <= j < ms.len(),
    ensures
        meld_cards(ms.remove(j)).add(ms[j].to_multiset()) == meld_cards(ms),
    decreases ms.len(),
{
    let u = ms.remove(j);
    if j == ms.len() - 1 {
        assert(u =~= ms.drop_last());
    } else {
        assert(u.drop_last() =~= ms.drop_last().remove(j));
        lemma_meld_cards_remove(ms.drop_last(), j);
        assert(u.last() == ms.last());
        let a = meld_cards(ms.drop_last().remove(j));
        assert forall|v: Card| #[trigger] meld_cards(u).add(ms[j].to_multiset()).count(v)
            == meld_cards(ms).count(v) by {
            assert(a.add(ms[j].to_multiset()).count(v) == meld_cards(ms.drop_last()).count(v));
        }
    }
    assert(meld_cards(u).add(ms[j].to_multiset()) =~= meld_cards(ms));
}

/// Moving one card between two sequences keeps the cards they hold together.
pub proof fn lemma_move_card(a: Seq<Card>, b: Seq<Card>, i: int)
    requires
        0 <= i < a.len(),
    ensures
        a.remove(i).to_multiset().add(b.push(a[i]).to_multiset()) == a.to_multiset().add(
            b.to_multiset(),
        ),
{
    broadcast use vstd::seq_lib::group_to_multiset_ensures;

    assert(a.to_multiset().count(a[i]) > 0) by {
        assert(a.contains(a[i]));
    }
    assert(a.remove(i).to_multiset().add(b.push(a[i]).to_multiset()) =~= a.to_multiset().add(
        b.to_multiset(),
    ));
}

/// Moving the last card of one sequence onto another keeps the cards they hold together.
pub proof fn lemma_move_top(a: Seq<Card>, b: Seq<Card>)
    requires
        a.len() > 0,
    ensures
        a.drop_last().to_multiset().add(b.push(a.last()).to_multiset()) == a.to_multiset().add(
            b.to_multiset(),
        ),
{
    assert(a.remove(a.len() - 1) =~= a.drop_last());
    lemma_move_card(a, b, a.len() - 1);
}

pub proof fn lemma_empty_cards()
    ensures
        Seq::<Card>::empty().to_multiset() == Multiset::<Card>::empty(),
{
    broadcast use vstd::seq_lib::group_to_multiset_ensures;
    broadcast use vstd::seq_lib::lemma_seq_empty_contains_nothing;

    assert(Seq::<Card>::empty().to_multiset() =~= Multiset::<Card>::empty());
}

pub struct Melds {
    pub collection: Vec<Vec<Card>>,
}

impl View for Melds {
    type V = Seq<Seq<Card>>;

    open spec fn view(&self) -> Seq<Seq<Card>> {
        self.collection@.map_values(|m: Vec<Card>| m@)
    }
}

impl Melds {
    /// Every card in these melds.
    pub open spec fn cards(&self) -> Multiset<Card> {
        meld_cards(self@)
    }

    pub fn create() -> (r: Melds)
        ensures
            r@.len() == 0,
    {
        Melds { collection: Vec::new() }
    }

    pub fn len(&self) -> (r: usize)
        ensures
            r == self@.len(),
    {
        self.collection.len()
    }

    /// Starts an empty meld and returns its position.
    pub fn create_new_meld(&mut self) -> (r: usize)
        ensures
            r == old(self)@.len(),
            final(self)@ == old(self)@.push(Seq::empty()),
            final(self).cards() == old(self).cards(),
    {
        let r = self.collection.len();
        self.collection.push(Vec::new());
        proof {
            assert(final(self)@ =~= old(self)@.push(Seq::empty()));
            lemma_meld_cards_push(old(self)@, Seq::empty());
            lemma_empty_cards();
            assert(old(self).cards().add(Seq::<Card>::empty().to_multiset()) =~= old(self).cards());
        }
        r
    }

    /// Moves the card at `card_index` of `origin` onto the end of the meld at
    /// `meld_index`; either position out of range is refused with nothing moved.
    pub fn add_to_meld(&mut self, origin: &mut Vec<Card>, card_index: usize, meld_index: usize) -> (r:
        Result<(), GinError>)
        ensures
            (card_index >= old(origin)@.len() || meld_index >= old(self)@.len()) ==> r == Err::<
                (),
                GinError,
            >(GinError::InvalidIndex) && final(self)@ == old(self)@ && final(origin)@ == old(
                origin,
            )@,
            (card_index < old(origin)@.len() && meld_index < old(self)@.len()) ==> r is Ok
                && final(origin)@ == old(origin)@.remove(card_index as int) && final(self)@ == old(
                self,
            )@.update(
                meld_index as int,
                old(self)@[meld_index as int].push(old(origin)@[card_index as int]),
            ),
            final(self).cards().add(final(origin)@.to_multiset()) == old(self).cards().add(
                old(origin)@.to_multiset(),
            ),
    {
        if card_index >= origin.len() || meld_index >= self.collection.len() {
            return Err(GinError::InvalidIndex);
        }
        let card = origin.remove(card_index);
        let mut meld = self.collection.remove(meld_index);
        meld.push(card);
        self.collection.insert(meld_index, meld);
        proof {
            let ms = old(self)@;
            let j = meld_index as int;
            let m = ms[j];
            assert(final(self)@ =~= ms.update(j, m.push(card)));
            lemma_meld_cards_update(ms, j, m.push(card));
            lemma_move_card(old(origin)@, m, card_index as int);
            let mu = meld_cards(ms.update(j, m.push(card)));
            assert forall|v: Card| #[trigger] final(self).cards().add(
                final(origin)@.to_multiset(),
            ).count(v) == old(self).cards().add(old(origin)@.to_multiset()).count(v) by {
                assert(mu.add(m.to_multiset()).count(v) == old(self).cards().add(
                    m.push(card).to_multiset(),
                ).count(v));
                assert(final(origin)@.to_multiset().add(m.push(card).to_multiset()).count(v)
                    == old(origin)@.to_multiset().add(m.to_multiset()).count(v));
            }
            assert(final(self).cards().add(final(origin)@.to_multiset()) =~= old(self).cards().add(
                old(origin)@.to_multiset(),
            ));
        }
        Ok(())
    }

    /// Disbands the meld at `meld_index`: its cards go back onto the end of
    /// `destination` and later melds move down one position.
    pub fn remove_meld(&mut self, destination: &mut Vec<Card>, meld_index: usize) -> (r: Result<
        (),
        GinError,
    >)
        ensures
            meld_index >= old(self)@.len() ==> r == Err::<(), GinError>(GinError::InvalidIndex)
                && final(self)@ == old(self)@ && final(destination)@ == old(destination)@,
            meld_index < old(self)@.len() ==> r is Ok && final(self)@ == old(self)@.remove(
                meld_index as int,
            ) && final(destination)@ == old(destination)@ + old(self)@[meld_index as int],
            final(self).cards().add(final(destination)@.to_multiset()) == old(self).cards().add(
                old(destination)@.to_multiset(),
            ),
    {
        if meld_index >= self.collection.len() {
            return Err(GinError::InvalidIndex);
        }
        let mut meld = self.collection.remove(meld_index);
        destination.append(&mut meld);
        proof {
            let ms = old(self)@;
            let j = meld_index as int;
            assert(final(self)@ =~= ms.remove(j));
            lemma_meld_cards_remove(ms, j);
            vstd::seq_lib::lemma_multiset_commutative(old(destination)@, ms[j]);
            assert(final(self).cards().add(final(destination)@.to_multiset()) =~= old(
                self,
            ).cards().add(old(destination)@.to_multiset()));
        }
        Ok(())
    }
}

} // verus!
