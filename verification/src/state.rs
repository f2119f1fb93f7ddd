use vstd::prelude::*;
use crate::actions::types::{SimpleAction, SimpleActionView};
use crate::deck::{Deck, DeckView};
use crate::types::{Card, EnergyType, PlayedCard, PlayedCardView};
use crate::util::copy_vec;

verus! {

/// The game state: per player a deck, a hand, a discard pile and a row of
/// slots for creatures in play; the turn counter and the player to move; and
/// the stack of decisions that resolutions under way have opened.
///
/// Slot 0 of a row is the active position, slots 1 to 3 are the bench. The
/// last entry of `move_generation_stack` is the decision to take next: a
/// player and the commands that player may choose from.
#[derive(Debug, PartialEq, Eq)]
pub struct State {
    pub turn_count: u32,
    pub current_player: usize,
    pub move_generation_stack: Vec<(usize, Vec<SimpleAction>)>,
    /// The energy that the current player may attach this turn.
    pub current_energy: Option<EnergyType>,
    pub has_played_support: bool,
    pub has_retreated: bool,
    pub decks: [Deck; 2],
    pub hands: [Vec<Card>; 2],
    pub discard_piles: [Vec<Card>; 2],
    pub in_play_pokemon: [[Option<PlayedCard>; 4]; 2],
}

/// The value of a [`State`].
pub struct StateView {
    pub turn_count: u32,
    pub current_player: usize,
    pub stack: Seq<(usize, Seq<SimpleActionView>)>,
    pub current_energy: Option<EnergyType>,
    pub has_played_support: bool,
    pub has_retreated: bool,
    pub decks: Seq<DeckView>,
    pub hands: Seq<Seq<Card>>,
    pub discard_piles: Seq<Seq<Card>>,
    pub in_play: Seq<Seq<Option<PlayedCardView>>>,
}

/// The values of a sequence of commands.
pub open spec fn actions_view(v: Seq<SimpleAction>) -> Seq<SimpleActionView> {
    Seq::new(v.len(), |i: int| v[i]@)
}

/// The value of a stack of decisions.
pub open spec fn stack_view(v: Seq<(usize, Vec<SimpleAction>)>) -> Seq<(usize, Seq<SimpleActionView>)> {
    Seq::new(v.len(), |i: int| (v[i].0, actions_view(v[i].1@)))
}

/// The value of a slot.
pub open spec fn slot_view(s: Option<PlayedCard>) -> Option<PlayedCardView> {
    match s {
        Some(c) => Some(c@),
        None => None,
    }
}

impl View for State {
    type V = StateView;

    open spec fn view(&self) -> StateView {
        StateView {
            turn_count: self.turn_count,
            current_player: self.current_player,
            stack: stack_view(self.move_generation_stack@),
            current_energy: self.current_energy,
            has_played_support: self.has_played_support,
            has_retreated: self.has_retreated,
            decks: Seq::new(2, |p: int| self.decks[p]@),
            hands: Seq::new(2, |p: int| self.hands[p]@),
            discard_piles: Seq::new(2, |p: int| self.discard_piles[p]@),
            in_play: Seq::new(
                2,
                |p: int| Seq::new(4, |i: int| slot_view(self.in_play_pokemon[p][i])),
            ),
        }
    }
}

impl StateView {
    /// The shape of a state: two players, four slots each, a current player,
    /// and only well-formed creatures in play.
    pub open spec fn wf(self) -> bool {
        &&& self.current_player < 2
        &&& self.decks.len() == 2
        &&& self.hands.len() == 2
        &&& self.discard_piles.len() == 2
        &&& self.in_play.len() == 2
        &&& forall|p: int| 0 <= p < 2 ==> (#[trigger] self.in_play[p]).len() == 4
        &&& forall|p: int, i: int|
            0 <= p < 2 && 0 <= i < 4 && (#[trigger] self.in_play[p][i]) is Some
                ==> self.in_play[p][i]->0.wf()
        &&& forall|k: int| 0 <= k < self.stack.len() ==> (#[trigger] self.stack[k]).0 < 2
    }

    /// Whether a creature stands in the slot.
    pub open spec fn occupied(self, player: int, slot: int) -> bool {
        &&& 0 <= player < 2
        &&& 0 <= slot < 4
        &&& self.in_play[player][slot] is Some
    }

    /// The creature in an occupied slot.
    pub open spec fn creature(self, player: int, slot: int) -> PlayedCardView {
        self.in_play[player][slot]->0
    }

    /// The state with another hand for `player`.
    pub open spec fn with_hand(self, player: int, hand: Seq<Card>) -> StateView {
        StateView { hands: self.hands.update(player, hand), ..self }
    }

    /// The state with other cards in the deck of `player`.
    pub open spec fn with_deck_cards(self, player: int, cards: Seq<Card>) -> StateView {
        StateView {
            decks: self.decks.update(player, DeckView { cards, ..self.decks[player] }),
            ..self
        }
    }

    /// The state with another discard pile for `player`.
    pub open spec fn with_discard(self, player: int, pile: Seq<Card>) -> StateView {
        StateView { discard_piles: self.discard_piles.update(player, pile), ..self }
    }

    /// The state with another content of one slot.
    pub open spec fn with_slot(self, player: int, slot: int, content: Option<PlayedCardView>) -> StateView {
        StateView {
            in_play: self.in_play.update(player, self.in_play[player].update(slot, content)),
            ..self
        }
    }

    /// The state with one more open decision.
    pub open spec fn with_decision(self, player: usize, choices: Seq<SimpleActionView>) -> StateView {
        StateView { stack: self.stack.push((player, choices)), ..self }
    }

    /// The state without its latest open decision, if it has one.
    pub open spec fn without_decision(self) -> StateView {
        if self.stack.len() > 0 {
            StateView { stack: self.stack.drop_last(), ..self }
        } else {
            self
        }
    }
}

/// The state before the first turn: nothing in any deck, hand, pile or slot.
pub open spec fn empty_state() -> StateView {
    StateView {
        turn_count: 0,
        current_player: 0,
        stack: Seq::empty(),
        current_energy: None,
        has_played_support: false,
        has_retreated: false,
        decks: Seq::new(2, |p: int| DeckView { cards: Seq::empty(), energy_types: Seq::empty() }),
        hands: Seq::new(2, |p: int| Seq::empty()),
        discard_piles: Seq::new(2, |p: int| Seq::empty()),
        in_play: Seq::new(2, |p: int| Seq::new(4, |i: int| None)),
    }
}

/// A copy of a sequence of commands.
pub fn clone_actions(v: &Vec<SimpleAction>) -> (r: Vec<SimpleAction>)
    ensures
        actions_view(r@) == actions_view(v@),
{
    let mut r: Vec<SimpleAction> = Vec::new();
    let mut i: usize = 0;
    while i < v.len()
        invariant
            i <= v.len(),
            r.len() == i,
            forall|k: int| 0 <= k < i ==> r[k]@ == v[k]@,
        decreases v.len() - i,
    {
        r.push(v[i].clone());
        i += 1;
    }
    assert(actions_view(r@) =~= actions_view(v@));
    r
}

fn clone_stack(v: &Vec<(usize, Vec<SimpleAction>)>) -> (r: Vec<(usize, Vec<SimpleAction>)>)
    ensures
        stack_view(r@) == stack_view(v@),
{
    let mut r: Vec<(usize, Vec<SimpleAction>)> = Vec::new();
    let mut i: usize = 0;
    while i < v.len()
        invariant
            i <= v.len(),
            r.len() == i,
            forall|k: int|
                0 <= k < i ==> r[k].0 == v[k].0 && actions_view(r[k].1@) == actions_view(v[k].1@),
        decreases v.len() - i,
    {
        let choices = clone_actions(&v[i].1);
        r.push((v[i].0, choices));
        i += 1;
    }
    assert(stack_view(r@) =~= stack_view(v@));
    r
}

fn clone_slot(s: &Option<PlayedCard>) -> (r: Option<PlayedCard>)
    ensures
        slot_view(r) == slot_view(*s),
{
    match s {
        Some(c) => Some(c.clone()),
        None => None,
    }
}

fn clone_row(row: &[Option<PlayedCard>; 4]) -> (r: [Option<PlayedCard>; 4])
    ensures
        forall|i: int| 0 <= i < 4 ==> slot_view(r[i]) == slot_view(row[i]),
{
    [clone_slot(&row[0]), clone_slot(&row[1]), clone_slot(&row[2]), clone_slot(&row[3])]
}

impl Default for State {
    fn default() -> (r: State)
        ensures
            r@ == empty_state(),
            r@.wf(),
    {
        let r = State {
            turn_count: 0,
            current_player: 0,
            move_generation_stack: Vec::new(),
            current_energy: None,
            has_played_support: false,
            has_retreated: false,
            decks: [Deck::default(), Deck::default()],
            hands: [Vec::new(), Vec::new()],
            discard_piles: [Vec::new(), Vec::new()],
            in_play_pokemon: [[None, None, None, None], [None, None, None, None]],
        };
        assert(r@.stack =~= empty_state().stack);
        assert(r@.decks =~= empty_state().decks);
        assert(r@.hands =~= empty_state().hands);
        assert(r@.discard_piles =~= empty_state().discard_piles);
        assert(r@.in_play =~~= empty_state().in_play);
        r
    }
}

impl Clone for State {
    fn clone(&self) -> (r: State)
        ensures
            r@ == self@,
    {
        let r = State {
            turn_count: self.turn_count,
            current_player: self.current_player,
            move_generation_stack: clone_stack(&self.move_generation_stack),
            current_energy: self.current_energy,
            has_played_support: self.has_played_support,
            has_retreated: self.has_retreated,
            decks: [self.decks[0].clone(), self.decks[1].clone()],
            hands: [copy_vec(&self.hands[0]), copy_vec(&self.hands[1])],
            discard_piles: [copy_vec(&self.discard_piles[0]), copy_vec(&self.discard_piles[1])],
            in_play_pokemon: [
                clone_row(&self.in_play_pokemon[0]),
                clone_row(&self.in_play_pokemon[1]),
            ],
        };
        assert(r@.stack =~= self@.stack);
        assert(r@.decks =~= self@.decks);
        assert(r@.hands =~= self@.hands);
        assert(r@.discard_piles =~= self@.discard_piles);
        assert(r@.in_play =~~= self@.in_play);
        r
    }
}

/// Two states are equal where their parts hold the same items: those of a
/// player `p` and those of the other player.
pub proof fn lemma_state_view_eq(a: StateView, b: StateView, p: int)
    requires
        0 <= p < 2,
        a.turn_count == b.turn_count,
        a.current_player == b.current_player,
        a.current_energy == b.current_energy,
        a.has_played_support == b.has_played_support,
        a.has_retreated == b.has_retreated,
        a.stack =~~= b.stack,
        a.decks.len() == 2 && b.decks.len() == 2,
        a.decks[p].cards =~= b.decks[p].cards,
        a.decks[p].energy_types =~= b.decks[p].energy_types,
        a.decks[1 - p].cards =~= b.decks[1 - p].cards,
        a.decks[1 - p].energy_types =~= b.decks[1 - p].energy_types,
        a.hands.len() == 2 && b.hands.len() == 2,
        a.hands[p] =~= b.hands[p],
        a.hands[1 - p] =~= b.hands[1 - p],
        a.discard_piles.len() == 2 && b.discard_piles.len() == 2,
        a.discard_piles[p] =~= b.discard_piles[p],
        a.discard_piles[1 - p] =~= b.discard_piles[1 - p],
        a.in_play.len() == 2 && b.in_play.len() == 2,
        a.in_play[p] =~~= b.in_play[p],
        a.in_play[1 - p] =~~= b.in_play[1 - p],
    ensures
        a == b,
{
    assert(a.decks =~= b.decks);
    assert(a.hands =~= b.hands);
    assert(a.discard_piles =~= b.discard_piles);
    assert(a.in_play =~= b.in_play);
}

/// The parts of the value of a state are the values of the state's parts.
pub proof fn lemma_view_of(st: State, p: int)
    requires
        0 <= p < 2,
    ensures
        st@.stack == stack_view(st.move_generation_stack@),
        st@.decks.len() == 2,
        st@.decks[p] == st.decks[p]@,
        st@.decks[1 - p] == st.decks[1 - p]@,
        st@.hands.len() == 2,
        st@.hands[p] == st.hands[p]@,
        st@.hands[1 - p] == st.hands[1 - p]@,
        st@.discard_piles.len() == 2,
        st@.discard_piles[p] == st.discard_piles[p]@,
        st@.discard_piles[1 - p] == st.discard_piles[1 - p]@,
        st@.in_play.len() == 2,
        st@.in_play[p].len() == 4,
        st@.in_play[1 - p].len() == 4,
        forall|i: int| 0 <= i < 4 ==> #[trigger] st@.in_play[p][i] == slot_view(st.in_play_pokemon[p][i]),
        forall|i: int|
            0 <= i < 4 ==> #[trigger] st@.in_play[1 - p][i] == slot_view(
                st.in_play_pokemon[1 - p][i],
            ),
{
}

/// Replacing the content of a slot by nothing or by a well-formed creature
/// keeps the state well-formed; so does replacing a hand, a deck or a
/// discard pile.
pub proof fn lemma_updates_keep_wf(s: StateView, p: int, i: int, content: Option<PlayedCardView>, cards: Seq<Card>)
    requires
        s.wf(),
        0 <= p < 2,
        0 <= i < 4,
        content is Some ==> content->0.wf(),
    ensures
        s.with_slot(p, i, content).wf(),
        s.with_hand(p, cards).wf(),
        s.with_deck_cards(p, cards).wf(),
        s.with_discard(p, cards).wf(),
        s.without_decision().wf(),
{
    let t = s.with_slot(p, i, content);
    assert forall|q: int| 0 <= q < 2 implies (#[trigger] t.in_play[q]).len() == 4 by {
        assert(s.in_play[q].len() == 4);
    }
    assert forall|q: int, j: int|
        0 <= q < 2 && 0 <= j < 4 && (#[trigger] t.in_play[q][j]) is Some implies t.in_play[q][j]->0.wf() by {
        assert(s.in_play[q].len() == 4);
        if q != p || j != i {
            assert(t.in_play[q][j] == s.in_play[q][j]);
        }
    }
    let u = s.without_decision();
    assert forall|k: int| 0 <= k < u.stack.len() implies (#[trigger] u.stack[k]).0 < 2 by {
        assert(u.stack[k] == s.stack[k]);
    }
}

/// Opening a decision for one of the two players keeps the state
/// well-formed.
pub proof fn lemma_decision_keeps_wf(s: StateView, player: usize, choices: Seq<SimpleActionView>)
    requires
        s.wf(),
        player < 2,
    ensures
        s.with_decision(player, choices).wf(),
{
    let t = s.with_decision(player, choices);
    assert forall|k: int| 0 <= k < t.stack.len() implies (#[trigger] t.stack[k]).0 < 2 by {
        if k < s.stack.len() {
            assert(t.stack[k] == s.stack[k]);
        }
    }
}

/// The position of the first `x` in `s`, and the length of `s` where `x`
/// does not occur.
pub open spec fn position_of<T>(s: Seq<T>, x: T) -> int
    decreases s.len(),
{
    if s.len() == 0 {
        0
    } else if s[0] == x {
        0
    } else {
        1 + position_of(s.drop_first(), x)
    }
}

/// The sequence without the first `x`, if `x` occurs in it.
pub open spec fn remove_first<T>(s: Seq<T>, x: T) -> Seq<T> {
    if position_of(s, x) < s.len() {
        s.remove(position_of(s, x))
    } else {
        s
    }
}

/// `position_of` gives the first position of the item.
pub proof fn lemma_position_of<T>(s: Seq<T>, x: T)
    ensures
        0 <= position_of(s, x) <= s.len(),
        position_of(s, x) < s.len() <==> s.contains(x),
        position_of(s, x) < s.len() ==> s[position_of(s, x)] == x,
        forall|j: int| 0 <= j < position_of(s, x) ==> s[j] != x,
    decreases s.len(),
{
    if s.len() > 0 && s[0] != x {
        let rest = s.drop_first();
        lemma_position_of(rest, x);
        assert forall|j: int| 0 <= j < position_of(s, x) implies s[j] != x by {
            if j > 0 {
                assert(rest[j - 1] == s[j]);
            }
        }
        if position_of(rest, x) < rest.len() {
            assert(s[position_of(rest, x) + 1] == x);
        }
        if s.contains(x) {
            let k = choose|k: int| 0 <= k < s.len() && s[k] == x;
            assert(rest[k - 1] == x);
        }
    } else if s.len() > 0 {
        assert(s[0] == x);
    }
}

/// Finds the first position of a card.
pub fn find_card(cards: &Vec<Card>, card: Card) -> (r: usize)
    ensures
        r == position_of(cards@, card),
        r <= cards.len(),
{
    let mut i: usize = 0;
    assert(cards@.skip(0) =~= cards@);
    while i < cards.len() && cards[i] != card
        invariant
            i <= cards.len(),
            position_of(cards@, card) == i + position_of(cards@.skip(i as int), card),
        decreases cards.len() - i,
    {
        assert(cards@.skip(i as int).drop_first() =~= cards@.skip(i + 1));
        i += 1;
    }
    i
}

/// Takes the first copy of a card out, and says whether there was one.
pub fn take_card(cards: &mut Vec<Card>, card: Card) -> (found: bool)
    ensures
        final(cards)@ == remove_first(old(cards)@, card),
        found == old(cards)@.contains(card),
{
    proof {
        lemma_position_of(cards@, card);
    }
    let i = find_card(cards, card);
    if i < cards.len() {
        cards.remove(i);
        true
    } else {
        false
    }
}

fn slot_is_well_formed(slot: &Option<PlayedCard>) -> (r: bool)
    ensures
        r == (slot_view(*slot) is Some ==> slot_view(*slot)->0.wf()),
{
    match slot {
        Some(c) => {
            let is_pokemon = match c.card {
                Card::Pokemon(_) => true,
                Card::Trainer(_) => false,
            };
            is_pokemon && 0 < c.remaining_hp && c.remaining_hp <= c.total_hp
        },
        None => true,
    }
}

impl State {
    /// Whether the state has the shape that the engine works on: a current
    /// player, only creature cards in play, each with hit points left and no
    /// more than its maximum, and only decisions of the two players.
    pub fn is_well_formed(&self) -> (r: bool)
        ensures
            r == self@.wf(),
    {
        proof {
            lemma_view_of(*self, 0);
        }
        if self.current_player >= 2 {
            return false;
        }
        let mut p: usize = 0;
        while p < 2
            invariant
                p <= 2,
                self.current_player < 2,
                forall|q: int, i: int|
                    0 <= q < p && 0 <= i < 4 && (#[trigger] self@.in_play[q][i]) is Some
                        ==> self@.in_play[q][i]->0.wf(),
            decreases 2 - p,
        {
            let mut i: usize = 0;
            while i < 4
                invariant
                    p < 2,
                    i <= 4,
                    forall|q: int, j: int|
                        0 <= q < p && 0 <= j < 4 && (#[trigger] self@.in_play[q][j]) is Some
                            ==> self@.in_play[q][j]->0.wf(),
                    forall|j: int|
                        0 <= j < i && (#[trigger] self@.in_play[p as int][j]) is Some
                            ==> self@.in_play[p as int][j]->0.wf(),
                decreases 4 - i,
            {
                proof {
                    lemma_view_of(*self, p as int);
                }
                if !slot_is_well_formed(&self.in_play_pokemon[p][i]) {
                    assert(self@.in_play[p as int][i as int] is Some);
                    assert(!self@.in_play[p as int][i as int]->0.wf());
                    return false;
                }
                i += 1;
            }
            p += 1;
        }
        let mut k: usize = 0;
        while k < self.move_generation_stack.len()
            invariant
                k <= self.move_generation_stack.len(),
                self@.stack.len() == self.move_generation_stack.len(),
                forall|j: int| 0 <= j < k ==> (#[trigger] self@.stack[j]).0 < 2,
            decreases self.move_generation_stack.len() - k,
        {
            if self.move_generation_stack[k].0 >= 2 {
                assert(self@.stack[k as int].0 >= 2);
                return false;
            }
            k += 1;
        }
        true
    }
}

} // verus!
