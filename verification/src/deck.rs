use vstd::prelude::*;
use crate::rng::{rng_advance, rng_output, GameRng};
use crate::types::{Card, EnergyType};
use crate::util::copy_vec;

verus! {

/// A player's deck: the cards in order, the top card first, and the kinds of
/// energy that the player's energy zone gives.
#[derive(Debug, PartialEq, Eq)]
pub struct Deck {
    pub cards: Vec<Card>,
    pub energy_types: Vec<EnergyType>,
}

/// The value of a [`Deck`].
pub struct DeckView {
    pub cards: Seq<Card>,
    pub energy_types: Seq<EnergyType>,
}

impl View for Deck {
    type V = DeckView;

    open spec fn view(&self) -> DeckView {
        DeckView { cards: self.cards@, energy_types: self.energy_types@ }
    }
}

/// The sequence with the items at `i` and `j` exchanged.
pub open spec fn swapped<T>(s: Seq<T>, i: int, j: int) -> Seq<T> {
    s.update(i, s[j]).update(j, s[i])
}

/// The first `n` cards shuffled by the generator in `state`: the card at
/// `n - 1` is exchanged with one at a drawn position up to `n - 1`, then the
/// first `n - 1` cards are shuffled in the same way.
pub open spec fn shuffled(cards: Seq<Card>, state: u64, n: nat) -> Seq<Card>
    decreases n,
{
    if n <= 1 {
        cards
    } else {
        let j = (rng_output(state) % (n as u64)) as int;
        shuffled(swapped(cards, n - 1, j), rng_advance(state), (n - 1) as nat)
    }
}

/// The generator's state after it shuffled `n` cards.
pub open spec fn state_after_shuffle(state: u64, n: nat) -> u64
    decreases n,
{
    if n <= 1 {
        state
    } else {
        state_after_shuffle(rng_advance(state), (n - 1) as nat)
    }
}

/// Exchanging two items keeps the items and their number.
pub proof fn lemma_swapped_is_permutation<T>(s: Seq<T>, i: int, j: int)
    requires
        0 <= i < s.len(),
        0 <= j < s.len(),
    ensures
        swapped(s, i, j).len() == s.len(),
        swapped(s, i, j).to_multiset() == s.to_multiset(),
{
    broadcast use vstd::seq_lib::group_to_multiset_ensures;

    let t = s.update(i, s[j]);
    let m = s.to_multiset();
    assert(s.contains(s[i]) && s.contains(s[j]));
    assert(m.count(s[i]) > 0 && m.count(s[j]) > 0);
    assert(t.to_multiset() == m.insert(s[j]).remove(s[i]));
    assert(t.len() == s.len());
    assert(t[j] == s[j]);
    assert(swapped(s, i, j).to_multiset() == t.to_multiset().insert(s[i]).remove(s[j]));
    assert(swapped(s, i, j).to_multiset() =~= m);
}

/// A shuffle reorders: it keeps the cards and their number.
pub proof fn lemma_shuffled_is_permutation(cards: Seq<Card>, state: u64, n: nat)
    requires
        n <= cards.len(),
        n <= u64::MAX,
    ensures
        shuffled(cards, state, n).len() == cards.len(),
        shuffled(cards, state, n).to_multiset() == cards.to_multiset(),
    decreases n,
{
    if n > 1 {
        let j = (rng_output(state) % (n as u64)) as int;
        lemma_swapped_is_permutation(cards, n - 1, j);
        lemma_shuffled_is_permutation(swapped(cards, n - 1, j), rng_advance(state), (n - 1) as nat);
    }
}

impl Default for Deck {
    fn default() -> (r: Deck)
        ensures
            r@.cards == Seq::<Card>::empty(),
            r@.energy_types == Seq::<EnergyType>::empty(),
    {
        Deck { cards: Vec::new(), energy_types: Vec::new() }
    }
}

impl Clone for Deck {
    fn clone(&self) -> (r: Deck)
        ensures
            r@ == self@,
    {
        Deck { cards: copy_vec(&self.cards), energy_types: copy_vec(&self.energy_types) }
    }
}

impl Deck {
    /// Takes the top card, if there is one.
    pub fn draw(&mut self) -> (r: Option<Card>)
        ensures
            old(self)@.cards.len() == 0 ==> r is None && final(self)@ == old(self)@,
            old(self)@.cards.len() > 0 ==> r == Some(old(self)@.cards[0]) && final(self)@ == (DeckView {
                cards: old(self)@.cards.drop_first(),
                ..old(self)@
            }),
    {
        if self.cards.len() == 0 {
            None
        } else {
            let c = self.cards.remove(0);
            assert(self.cards@ =~= old(self).cards@.drop_first());
            Some(c)
        }
    }

    /// Shuffles the cards with numbers taken from `rng`. The cards and
    /// their number stay; their order, and the generator's state after, are
    /// functions of the cards' order and the generator's state before.
    pub fn shuffle(&mut self, rng: &mut GameRng)
        ensures
            final(self)@.cards == shuffled(old(self)@.cards, old(rng).state, old(self)@.cards.len()),
            final(self)@.energy_types == old(self)@.energy_types,
            final(rng).state == state_after_shuffle(old(rng).state, old(self)@.cards.len()),
            final(self)@.cards.len() == old(self)@.cards.len(),
            final(self)@.cards.to_multiset() == old(self)@.cards.to_multiset(),
    {
        let mut n: usize = self.cards.len();
        while n > 1
            invariant
                n <= self.cards.len(),
                self.cards.len() == old(self).cards.len(),
                self.energy_types == old(self).energy_types,
                shuffled(self.cards@, rng.state, n as nat) == shuffled(
                    old(self)@.cards,
                    old(rng).state,
                    old(self)@.cards.len(),
                ),
                state_after_shuffle(rng.state, n as nat) == state_after_shuffle(
                    old(rng).state,
                    old(self)@.cards.len(),
                ),
            decreases n,
        {
            let j: usize = rng.gen_below(n as u64) as usize;
            let a: Card = self.cards[n - 1];
            let b: Card = self.cards[j];
            self.cards[n - 1] = b;
            self.cards[j] = a;
            n -= 1;
        }
        proof {
            lemma_shuffled_is_permutation(old(self)@.cards, old(rng).state, old(self)@.cards.len());
        }
    }
}

} // verus!
