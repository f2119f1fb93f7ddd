use vstd::prelude::*;
use crate::actions::types::{SimpleAction, SimpleActionView};
use crate::move_generation::slot_choices::{
    collect_slot_choices, row_view, slot_choices, SlotChoice,
};
use crate::state::{
    actions_view, lemma_decision_keeps_wf, lemma_state_view_eq, lemma_updates_keep_wf,
    lemma_view_of, State, StateView,
};
use crate::types::{EnergyType, PlayedCard, PlayedCardView};

verus! {

/// The state after `player` drew `amount` cards, or the whole deck where it
/// holds fewer: the cards leave the top of the deck and join the hand in the
/// order in which they were drawn.
pub open spec fn after_draw(s: StateView, player: int, amount: nat) -> StateView {
    let deck = s.decks[player].cards;
    let k = if amount <= deck.len() {
        amount as int
    } else {
        deck.len() as int
    };
    s.with_hand(player, s.hands[player] + deck.take(k)).with_deck_cards(player, deck.skip(k))
}

/// The creature after `amount` damage was healed from it.
pub open spec fn healed(c: PlayedCardView, amount: u32) -> PlayedCardView {
    PlayedCardView {
        remaining_hp: if c.total_hp - c.remaining_hp <= amount {
            c.total_hp
        } else {
            (c.remaining_hp + amount) as u32
        },
        ..c
    }
}

/// The state after the creature in the slot, if there is one, was healed.
pub open spec fn after_heal(s: StateView, player: int, slot: int, amount: u32) -> StateView {
    if s.occupied(player, slot) {
        s.with_slot(player, slot, Some(healed(s.creature(player, slot), amount)))
    } else {
        s
    }
}

/// The state after each creature in the first `n` slots of `player` was
/// healed.
pub open spec fn after_heal_all(s: StateView, player: int, amount: u32, n: nat) -> StateView
    decreases n,
{
    if n == 0 {
        s
    } else {
        after_heal(after_heal_all(s, player, amount, (n - 1) as nat), player, n - 1, amount)
    }
}

/// The state after the creature in the slot, if there is one, took damage.
/// A creature whose hit points the damage uses up leaves play: its slot is
/// vacated, and the cards it evolved from and its own card go to its
/// player's discard pile.
pub open spec fn after_damage(s: StateView, player: int, slot: int, damage: u32) -> StateView {
    if !s.occupied(player, slot) {
        s
    } else {
        let c = s.creature(player, slot);
        if damage >= c.remaining_hp {
            s.with_slot(player, slot, None).with_discard(
                player,
                s.discard_piles[player] + c.cards_behind.push(c.card),
            )
        } else {
            s.with_slot(
                player,
                slot,
                Some(PlayedCardView { remaining_hp: (c.remaining_hp - damage) as u32, ..c }),
            )
        }
    }
}

/// The state after the creatures in the slot and in the active position of
/// `player` changed places.
pub open spec fn after_swap(s: StateView, player: int, slot: int) -> StateView {
    s.with_slot(player, 0, s.in_play[player][slot]).with_slot(player, slot, s.in_play[player][0])
}

/// The state after `amount` energies of one kind were attached to the
/// creature in the slot, if there is one.
pub open spec fn after_attach(
    s: StateView,
    player: int,
    slot: int,
    energy: EnergyType,
    amount: nat,
) -> StateView {
    if s.occupied(player, slot) {
        let c = s.creature(player, slot);
        s.with_slot(
            player,
            slot,
            Some(
                PlayedCardView {
                    attached_energy: c.attached_energy + Seq::new(amount, |k: int| energy),
                    ..c
                },
            ),
        )
    } else {
        s
    }
}

/// The state after the active creature of `player`, if there is one, was
/// poisoned.
pub open spec fn after_poison(s: StateView, player: int) -> StateView {
    if s.occupied(player, 0) {
        s.with_slot(player, 0, Some(PlayedCardView { poisoned: true, ..s.creature(player, 0) }))
    } else {
        s
    }
}

/// The state after `player` was asked to choose among the commands, where
/// there is at least one: the decision is opened on top of the stack.
pub open spec fn after_offer(s: StateView, player: usize, choices: Seq<SimpleActionView>) -> StateView {
    if choices.len() > 0 {
        s.with_decision(player, choices)
    } else {
        s
    }
}

/// The state after `player`, where their active position is vacant, was
/// asked which creature of their bench becomes active.
pub open spec fn after_promotion_request(s: StateView, player: int) -> StateView {
    if s.in_play[player][0] is None {
        after_offer(s, player as usize, slot_choices(s.in_play[player], SlotChoice::Promotion, 4))
    } else {
        s
    }
}

/// The creature at the start of a turn: it may evolve and use its ability
/// again.
pub open spec fn refreshed(c: PlayedCardView) -> PlayedCardView {
    PlayedCardView { played_this_turn: false, ability_used: false, ..c }
}

/// The slots with each creature refreshed.
pub open spec fn refreshed_rows(rows: Seq<Seq<Option<PlayedCardView>>>) -> Seq<Seq<Option<PlayedCardView>>> {
    Seq::new(
        2,
        |p: int|
            Seq::new(
                4,
                |i: int|
                    match rows[p][i] {
                        Some(c) => Some(refreshed(c)),
                        None => None,
                    },
            ),
    )
}

/// The player draws `amount` cards, as far as the deck holds them.
pub(crate) fn draw_cards(state: &mut State, player: usize, amount: u8)
    requires
        player < 2,
        old(state)@.wf(),
    ensures
        final(state)@ == after_draw(old(state)@, player as int, amount as nat),
        final(state)@.wf(),
{
    let available = state.decks[player].cards.len();
    let k: usize = if (amount as usize) <= available {
        amount as usize
    } else {
        available
    };
    let mut i: usize = 0;
    proof {
        let deck = old(state)@.decks[player as int].cards;
        assert(deck.skip(0) =~= deck);
        assert(old(state)@.hands[player as int] + deck.take(0) =~= old(state)@.hands[player as int]);
        lemma_view_of(*state, player as int);
        lemma_state_view_eq(state@, after_draw(old(state)@, player as int, 0), player as int);
    }
    while i < k
        invariant
            player < 2,
            i <= k <= old(state)@.decks[player as int].cards.len(),
            k <= amount,
            state@ == after_draw(old(state)@, player as int, i as nat),
        decreases k - i,
    {
        proof {
            lemma_view_of(*state, player as int);
        }
        let drawn = state.decks[player].draw();
        match drawn {
            Some(card) => {
                state.hands[player].push(card);
            },
            None => {},
        }
        proof {
            let deck = old(state)@.decks[player as int].cards;
            assert(deck.skip(i as int).drop_first() =~= deck.skip(i + 1));
            assert(deck.take(i + 1) =~= deck.take(i as int).push(deck[i as int]));
            lemma_view_of(*state, player as int);
            lemma_state_view_eq(
                state@,
                after_draw(old(state)@, player as int, (i + 1) as nat),
                player as int,
            );
        }
        i += 1;
    }
    proof {
        let s = old(state)@;
        let deck = s.decks[player as int].cards;
        lemma_updates_keep_wf(s, player as int, 0, None, s.hands[player as int] + deck.take(k as int));
        lemma_updates_keep_wf(
            s.with_hand(player as int, s.hands[player as int] + deck.take(k as int)),
            player as int,
            0,
            None,
            deck.skip(k as int),
        );
    }
}

/// Heals the creature in the slot, if there is one.
pub(crate) fn heal_slot(state: &mut State, player: usize, slot: usize, amount: u32)
    requires
        player < 2,
        slot < 4,
        old(state)@.wf(),
    ensures
        final(state)@ == after_heal(old(state)@, player as int, slot as int, amount),
        final(state)@.wf(),
{
    proof {
        lemma_view_of(*state, player as int);
    }
    match &mut state.in_play_pokemon[player][slot] {
        Some(c) => {
            if c.total_hp - c.remaining_hp <= amount {
                c.remaining_hp = c.total_hp;
            } else {
                c.remaining_hp = c.remaining_hp + amount;
            }
        },
        None => {},
    }
    proof {
        lemma_view_of(*state, player as int);
        let target = after_heal(old(state)@, player as int, slot as int, amount);
        lemma_state_view_eq(state@, target, player as int);
        if old(state)@.occupied(player as int, slot as int) {
            lemma_updates_keep_wf(
                old(state)@,
                player as int,
                slot as int,
                Some(healed(old(state)@.creature(player as int, slot as int), amount)),
                Seq::empty(),
            );
        }
    }
}

/// Heals each creature of the player.
pub(crate) fn heal_all(state: &mut State, player: usize, amount: u32)
    requires
        player < 2,
        old(state)@.wf(),
    ensures
        final(state)@ == after_heal_all(old(state)@, player as int, amount, 4),
        final(state)@.wf(),
{
    let mut i: usize = 0;
    while i < 4
        invariant
            player < 2,
            i <= 4,
            state@.wf(),
            state@ == after_heal_all(old(state)@, player as int, amount, i as nat),
        decreases 4 - i,
    {
        heal_slot(state, player, i, amount);
        i += 1;
    }
}

/// Damages the creature in the slot, if there is one, and takes it out of
/// play where the damage uses its hit points up.
pub(crate) fn damage_slot(state: &mut State, player: usize, slot: usize, damage: u32)
    requires
        player < 2,
        slot < 4,
        old(state)@.wf(),
    ensures
        final(state)@ == after_damage(old(state)@, player as int, slot as int, damage),
        final(state)@.wf(),
{
    proof {
        lemma_view_of(*state, player as int);
    }
    let knocked_out = match &state.in_play_pokemon[player][slot] {
        Some(c) => damage >= c.remaining_hp,
        None => false,
    };
    if knocked_out {
        let taken = state.in_play_pokemon[player][slot].take();
        match taken {
            Some(mut c) => {
                state.discard_piles[player].append(&mut c.cards_behind);
                state.discard_piles[player].push(c.card);
            },
            None => {},
        }
    } else {
        match &mut state.in_play_pokemon[player][slot] {
            Some(c) => {
                c.remaining_hp = c.remaining_hp - damage;
            },
            None => {},
        }
    }
    proof {
        lemma_view_of(*state, player as int);
        let s = old(state)@;
        let target = after_damage(s, player as int, slot as int, damage);
        lemma_state_view_eq(state@, target, player as int);
        if s.occupied(player as int, slot as int) {
            let c = s.creature(player as int, slot as int);
            if damage >= c.remaining_hp {
                lemma_updates_keep_wf(s, player as int, slot as int, None, Seq::empty());
                lemma_updates_keep_wf(
                    s.with_slot(player as int, slot as int, None),
                    player as int,
                    slot as int,
                    None,
                    s.discard_piles[player as int] + c.cards_behind.push(c.card),
                );
            } else {
                lemma_updates_keep_wf(
                    s,
                    player as int,
                    slot as int,
                    Some(PlayedCardView { remaining_hp: (c.remaining_hp - damage) as u32, ..c }),
                    Seq::empty(),
                );
            }
        }
    }
}

/// Exchanges the creature in the slot with the active creature of the
/// player.
pub(crate) fn swap_with_active(state: &mut State, player: usize, slot: usize)
    requires
        player < 2,
        slot < 4,
        old(state)@.wf(),
    ensures
        final(state)@ == after_swap(old(state)@, player as int, slot as int),
        final(state)@.wf(),
{
    proof {
        lemma_view_of(*state, player as int);
    }
    let a = state.in_play_pokemon[player][0].take();
    let b = state.in_play_pokemon[player][slot].take();
    state.in_play_pokemon[player][0] = b;
    state.in_play_pokemon[player][slot] = a;
    proof {
        lemma_view_of(*state, player as int);
        let s = old(state)@;
        lemma_state_view_eq(state@, after_swap(s, player as int, slot as int), player as int);
        lemma_updates_keep_wf(s, player as int, 0, s.in_play[player as int][slot as int], Seq::empty());
        lemma_updates_keep_wf(
            s.with_slot(player as int, 0, s.in_play[player as int][slot as int]),
            player as int,
            slot as int,
            s.in_play[player as int][0],
            Seq::empty(),
        );
    }
}

fn add_energy(c: &mut PlayedCard, energy: EnergyType, amount: u32)
    ensures
        final(c)@ == (PlayedCardView {
            attached_energy: old(c)@.attached_energy + Seq::new(amount as nat, |k: int| energy),
            ..old(c)@
        }),
{
    let mut k: u32 = 0;
    assert(c.attached_energy@ =~= old(c)@.attached_energy + Seq::new(0, |j: int| energy));
    while k < amount
        invariant
            k <= amount,
            c@ == (PlayedCardView {
                attached_energy: old(c)@.attached_energy + Seq::new(k as nat, |j: int| energy),
                ..old(c)@
            }),
        decreases amount - k,
    {
        c.attached_energy.push(energy);
        assert(c.attached_energy@ =~= old(c)@.attached_energy + Seq::new(
            (k + 1) as nat,
            |j: int| energy,
        ));
        k += 1;
    }
}

/// Attaches `amount` energies of one kind to the creature in the slot, if
/// there is one.
pub(crate) fn attach_energy(state: &mut State, player: usize, slot: usize, energy: EnergyType, amount: u32)
    requires
        player < 2,
        slot < 4,
        old(state)@.wf(),
    ensures
        final(state)@ == after_attach(
            old(state)@,
            player as int,
            slot as int,
            energy,
            amount as nat,
        ),
        final(state)@.wf(),
{
    proof {
        lemma_view_of(*state, player as int);
    }
    match &mut state.in_play_pokemon[player][slot] {
        Some(c) => {
            add_energy(c, energy, amount);
        },
        None => {},
    }
    proof {
        lemma_view_of(*state, player as int);
        let s = old(state)@;
        let target = after_attach(s, player as int, slot as int, energy, amount as nat);
        lemma_state_view_eq(state@, target, player as int);
        if s.occupied(player as int, slot as int) {
            lemma_updates_keep_wf(s, player as int, slot as int, target.in_play[player as int][slot as int], Seq::empty());
        }
    }
}

/// Poisons the active creature of the player, if there is one.
pub(crate) fn poison_active(state: &mut State, player: usize)
    requires
        player < 2,
        old(state)@.wf(),
    ensures
        final(state)@ == after_poison(old(state)@, player as int),
        final(state)@.wf(),
{
    proof {
        lemma_view_of(*state, player as int);
    }
    match &mut state.in_play_pokemon[player][0] {
        Some(c) => {
            c.poisoned = true;
        },
        None => {},
    }
    proof {
        lemma_view_of(*state, player as int);
        let s = old(state)@;
        let target = after_poison(s, player as int);
        lemma_state_view_eq(state@, target, player as int);
        if s.occupied(player as int, 0) {
            lemma_updates_keep_wf(s, player as int, 0, target.in_play[player as int][0], Seq::empty());
        }
    }
}

/// Asks `player` to choose among the commands, where there is at least one.
pub(crate) fn offer_choices(state: &mut State, player: usize, choices: Vec<SimpleAction>)
    requires
        player < 2,
        old(state)@.wf(),
    ensures
        final(state)@ == after_offer(old(state)@, player, actions_view(choices@)),
        final(state)@.wf(),
{
    proof {
        lemma_view_of(*state, 0);
    }
    if choices.len() > 0 {
        state.move_generation_stack.push((player, choices));
        proof {
            lemma_view_of(*state, 0);
            let target = old(state)@.with_decision(player, actions_view(choices@));
            assert(state@.stack =~= target.stack);
            lemma_state_view_eq(state@, target, 0);
            lemma_decision_keeps_wf(old(state)@, player, actions_view(choices@));
        }
    }
}

/// Asks the player to choose among the eligible slots of a row of `owner`.
pub(crate) fn offer_slot_choices(state: &mut State, player: usize, owner: usize, choice: SlotChoice)
    requires
        player < 2,
        owner < 2,
        old(state)@.wf(),
    ensures
        final(state)@ == after_offer(
            old(state)@,
            player,
            slot_choices(old(state)@.in_play[owner as int], choice, 4),
        ),
        final(state)@.wf(),
{
    proof {
        lemma_view_of(*state, owner as int);
        assert(row_view(state.in_play_pokemon[owner as int]) =~= state@.in_play[owner as int]);
    }
    let choices = collect_slot_choices(&state.in_play_pokemon[owner], choice);
    offer_choices(state, player, choices);
}

/// Asks the player, where their active position is vacant, which creature
/// of their bench becomes active.
pub(crate) fn request_promotion(state: &mut State, player: usize)
    requires
        player < 2,
        old(state)@.wf(),
    ensures
        final(state)@ == after_promotion_request(old(state)@, player as int),
        final(state)@.wf(),
{
    proof {
        lemma_view_of(*state, player as int);
    }
    if state.in_play_pokemon[player][0].is_none() {
        offer_slot_choices(state, player, player, SlotChoice::Promotion);
    }
}

} // verus!
