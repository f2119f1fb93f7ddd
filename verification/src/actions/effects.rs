use vstd::prelude::*;
use crate::actions::apply_action_helpers::Effect;
use crate::actions::shared_mutations::{
    after_attach, after_draw, after_heal_all, after_offer, after_poison, after_swap,
    attach_energy, draw_cards, heal_all, offer_slot_choices, poison_active, swap_with_active,
};
use crate::deck::{shuffled, state_after_shuffle};
use crate::move_generation::slot_choices::{slot_choices, SlotChoice};
use crate::rng::GameRng;
use crate::state::{
    lemma_position_of, lemma_state_view_eq, lemma_updates_keep_wf, lemma_view_of, remove_first,
    take_card, State, StateView,
};
use crate::types::Card;

verus! {

/// The state and the generator after the deck of `player` was shuffled.
pub open spec fn after_shuffle(s: StateView, rng: u64, player: int) -> (StateView, u64) {
    let deck = s.decks[player].cards;
    (
        s.with_deck_cards(player, shuffled(deck, rng, deck.len())),
        state_after_shuffle(rng, deck.len()),
    )
}

/// The state and the generator after the first copy of `card` went from the
/// deck of `player` to their hand and the rest of the deck was shuffled.
/// Where the deck does not hold the card, it is only shuffled.
pub open spec fn after_fetch(s: StateView, rng: u64, player: int, card: Card) -> (StateView, u64) {
    let deck = s.decks[player].cards;
    if deck.contains(card) {
        after_shuffle(
            s.with_hand(player, s.hands[player].push(card)).with_deck_cards(
                player,
                remove_first(deck, card),
            ),
            rng,
            player,
        )
    } else {
        after_shuffle(s, rng, player)
    }
}

/// The state and the generator after the effect happened for `actor`.
pub open spec fn after_effect(s: StateView, rng: u64, actor: int, effect: Effect) -> (StateView, u64) {
    let opponent = 1 - actor;
    match effect {
        Effect::Nothing => (s, rng),
        Effect::ShuffleDeck => after_shuffle(s, rng, actor),
        Effect::FetchCard(card) => after_fetch(s, rng, actor, card),
        Effect::DrawCards(amount) => (after_draw(s, actor, amount as nat), rng),
        Effect::HealAll(amount) => (after_heal_all(s, actor, amount, 4), rng),
        Effect::PoisonOpponentActive => (after_poison(s, opponent), rng),
        Effect::AttachToActive(energy) => if s.occupied(actor, 0) && s.creature(
            actor,
            0,
        ).card.energy_type() == Some(energy) {
            (after_attach(s, actor, 0, energy, 1), rng)
        } else {
            (s, rng)
        },
        Effect::SwitchWithActive(slot) => if s.occupied(actor, slot as int) {
            (after_swap(s, actor, slot as int), rng)
        } else {
            (s, rng)
        },
        Effect::OfferForcedSwitch => (
            after_offer(
                s,
                actor as usize,
                slot_choices(s.in_play[opponent], SlotChoice::ForcedSwitch, 4),
            ),
            rng,
        ),
        Effect::OfferPromotion => (
            after_offer(
                s,
                opponent as usize,
                slot_choices(s.in_play[opponent], SlotChoice::Promotion, 4),
            ),
            rng,
        ),
        Effect::OfferHeal(amount) => (
            after_offer(s, actor as usize, slot_choices(s.in_play[actor], SlotChoice::Heal(amount), 4)),
            rng,
        ),
        Effect::OfferTool(tool) => (
            after_offer(s, actor as usize, slot_choices(s.in_play[actor], SlotChoice::Tool(tool), 4)),
            rng,
        ),
    }
}

/// Shuffles the deck of the player.
pub(crate) fn shuffle_deck(rng: &mut GameRng, state: &mut State, player: usize)
    requires
        player < 2,
        old(state)@.wf(),
    ensures
        (final(state)@, final(rng).state) == after_shuffle(
            old(state)@,
            old(rng).state,
            player as int,
        ),
        final(state)@.wf(),
{
    proof {
        lemma_view_of(*state, player as int);
    }
    state.decks[player].shuffle(rng);
    proof {
        lemma_view_of(*state, player as int);
        let s = old(state)@;
        let target = after_shuffle(s, old(rng).state, player as int).0;
        lemma_state_view_eq(state@, target, player as int);
        lemma_updates_keep_wf(s, player as int, 0, None, target.decks[player as int].cards);
    }
}

/// Moves the first copy of the card from the deck of the player to their
/// hand, then shuffles the deck.
pub(crate) fn fetch_card(rng: &mut GameRng, state: &mut State, player: usize, card: Card)
    requires
        player < 2,
        old(state)@.wf(),
    ensures
        (final(state)@, final(rng).state) == after_fetch(
            old(state)@,
            old(rng).state,
            player as int,
            card,
        ),
        final(state)@.wf(),
{
    proof {
        lemma_view_of(*state, player as int);
        lemma_position_of(state@.decks[player as int].cards, card);
    }
    let found = take_card(&mut state.decks[player].cards, card);
    if found {
        state.hands[player].push(card);
        proof {
            lemma_view_of(*state, player as int);
            let s = old(state)@;
            let deck = s.decks[player as int].cards;
            let target = s.with_hand(player as int, s.hands[player as int].push(card)).with_deck_cards(
                player as int,
                remove_first(deck, card),
            );
            lemma_state_view_eq(state@, target, player as int);
            lemma_updates_keep_wf(s, player as int, 0, None, s.hands[player as int].push(card));
            lemma_updates_keep_wf(
                s.with_hand(player as int, s.hands[player as int].push(card)),
                player as int,
                0,
                None,
                remove_first(deck, card),
            );
        }
    } else {
        proof {
            lemma_view_of(*state, player as int);
            lemma_state_view_eq(state@, old(state)@, player as int);
        }
    }
    shuffle_deck(rng, state, player);
}

/// Makes the effect happen for `actor`.
pub(crate) fn apply_effect(rng: &mut GameRng, state: &mut State, actor: usize, effect: Effect)
    requires
        actor < 2,
        old(state)@.wf(),
    ensures
        (final(state)@, final(rng).state) == after_effect(
            old(state)@,
            old(rng).state,
            actor as int,
            effect,
        ),
        final(state)@.wf(),
{
    let opponent: usize = 1 - actor;
    proof {
        lemma_view_of(*state, actor as int);
    }
    match effect {
        Effect::Nothing => {},
        Effect::ShuffleDeck => {
            shuffle_deck(rng, state, actor);
        },
        Effect::FetchCard(card) => {
            fetch_card(rng, state, actor, card);
        },
        Effect::DrawCards(amount) => {
            draw_cards(state, actor, amount);
        },
        Effect::HealAll(amount) => {
            heal_all(state, actor, amount);
        },
        Effect::PoisonOpponentActive => {
            poison_active(state, opponent);
        },
        Effect::AttachToActive(energy) => {
            let matches = match &state.in_play_pokemon[actor][0] {
                Some(c) => match c.card.get_type() {
                    Some(e) => e == energy,
                    None => false,
                },
                None => false,
            };
            if matches {
                attach_energy(state, actor, 0, energy, 1);
            }
        },
        Effect::SwitchWithActive(slot) => {
            if slot < 4 && state.in_play_pokemon[actor][slot].is_some() {
                swap_with_active(state, actor, slot);
            }
        },
        Effect::OfferForcedSwitch => {
            offer_slot_choices(state, actor, opponent, SlotChoice::ForcedSwitch);
        },
        Effect::OfferPromotion => {
            offer_slot_choices(state, opponent, opponent, SlotChoice::Promotion);
        },
        Effect::OfferHeal(amount) => {
            offer_slot_choices(state, actor, actor, SlotChoice::Heal(amount));
        },
        Effect::OfferTool(tool) => {
            offer_slot_choices(state, actor, actor, SlotChoice::Tool(tool));
        },
    }
}

} // verus!
