use vstd::prelude::*;
use crate::actions::apply_action::{
    after_checkup, after_mutation, after_primitive, after_trainer_played, after_turn_end,
    marked_used, next_turn_count, operands_valid, POISON_DAMAGE,
};
use crate::actions::apply_action_helpers::{Effect, Mutation};
use crate::actions::board_mutations::{
    after_attach_tool, after_attachments, after_damages, after_evolve, after_place,
    after_retreat, evolved, retreat_cost,
};
use crate::actions::effects::{after_effect, after_fetch, after_shuffle};
use crate::actions::shared_mutations::{
    after_attach, after_damage, after_draw, after_heal, after_heal_all, after_offer,
    after_poison, after_promotion_request, after_swap, healed, refreshed_rows,
};
use crate::actions::types::{ActionView, SimpleActionView};
use crate::deck::lemma_shuffled_is_permutation;
use crate::move_generation::slot_choices::{slot_choices, SlotChoice};
use crate::state::{
    lemma_decision_keeps_wf, lemma_position_of, lemma_updates_keep_wf, remove_first, StateView,
};
use crate::types::{Card, EnergyType, PlayedCardView, TrainerCard};

verus! {

/// Whether the decks fit the machine: no deck holds more cards, and no
/// energy zone more kinds, than a machine word counts.
pub open spec fn decks_fit(s: StateView) -> bool {
    forall|p: int|
        0 <= p < 2 ==> (#[trigger] s.decks[p]).cards.len() <= usize::MAX
            && s.decks[p].energy_types.len() <= usize::MAX
}

/// The invariant of the engine: the state is well-formed and its decks fit
/// the machine.
pub open spec fn shaped(s: StateView) -> bool {
    s.wf() && decks_fit(s)
}

/// Drawing cards keeps the invariant: the deck only loses cards.
pub proof fn lemma_draw_keeps_shape(s: StateView, player: int, amount: nat)
    requires
        shaped(s),
        0 <= player < 2,
    ensures
        shaped(after_draw(s, player, amount)),
{
    let deck = s.decks[player].cards;
    let k = if amount <= deck.len() {
        amount as int
    } else {
        deck.len() as int
    };
    lemma_updates_keep_wf(s, player, 0, None, s.hands[player] + deck.take(k));
    lemma_updates_keep_wf(
        s.with_hand(player, s.hands[player] + deck.take(k)),
        player,
        0,
        None,
        deck.skip(k),
    );
    let t = after_draw(s, player, amount);
    assert forall|p: int| 0 <= p < 2 implies (#[trigger] t.decks[p]).cards.len() <= usize::MAX
        && t.decks[p].energy_types.len() <= usize::MAX by {
        assert(s.decks[p].cards.len() <= usize::MAX);
    }
}

/// Healing keeps the invariant: no creature gets more than its maximum.
pub proof fn lemma_heal_keeps_shape(s: StateView, player: int, slot: int, amount: u32)
    requires
        shaped(s),
        0 <= player < 2,
    ensures
        shaped(after_heal(s, player, slot, amount)),
{
    if s.occupied(player, slot) {
        lemma_updates_keep_wf(
            s,
            player,
            slot,
            Some(healed(s.creature(player, slot), amount)),
            Seq::empty(),
        );
    }
}

/// Healing every creature of a player keeps the invariant.
pub proof fn lemma_heal_all_keeps_shape(s: StateView, player: int, amount: u32, n: nat)
    requires
        shaped(s),
        0 <= player < 2,
    ensures
        shaped(after_heal_all(s, player, amount, n)),
    decreases n,
{
    if n > 0 {
        lemma_heal_all_keeps_shape(s, player, amount, (n - 1) as nat);
        lemma_heal_keeps_shape(
            after_heal_all(s, player, amount, (n - 1) as nat),
            player,
            n - 1,
            amount,
        );
    }
}

/// Damage keeps the invariant: a creature either keeps hit points or leaves
/// play.
pub proof fn lemma_damage_keeps_shape(s: StateView, player: int, slot: int, damage: u32)
    requires
        shaped(s),
        0 <= player < 2,
    ensures
        shaped(after_damage(s, player, slot, damage)),
{
    if s.occupied(player, slot) {
        let c = s.creature(player, slot);
        if damage >= c.remaining_hp {
            lemma_updates_keep_wf(s, player, slot, None, Seq::empty());
            lemma_updates_keep_wf(
                s.with_slot(player, slot, None),
                player,
                slot,
                None,
                s.discard_piles[player] + c.cards_behind.push(c.card),
            );
        } else {
            lemma_updates_keep_wf(
                s,
                player,
                slot,
                Some(PlayedCardView { remaining_hp: (c.remaining_hp - damage) as u32, ..c }),
                Seq::empty(),
            );
        }
    }
}

/// Exchanging two slots keeps the invariant.
pub proof fn lemma_swap_keeps_shape(s: StateView, player: int, slot: int)
    requires
        shaped(s),
        0 <= player < 2,
        0 <= slot < 4,
    ensures
        shaped(after_swap(s, player, slot)),
{
    lemma_updates_keep_wf(s, player, 0, s.in_play[player][slot], Seq::empty());
    lemma_updates_keep_wf(
        s.with_slot(player, 0, s.in_play[player][slot]),
        player,
        slot,
        s.in_play[player][0],
        Seq::empty(),
    );
}

/// Attaching energy keeps the invariant.
pub proof fn lemma_attach_keeps_shape(
    s: StateView,
    player: int,
    slot: int,
    energy: EnergyType,
    amount: nat,
)
    requires
        shaped(s),
        0 <= player < 2,
    ensures
        shaped(after_attach(s, player, slot, energy, amount)),
{
    if s.occupied(player, slot) {
        lemma_updates_keep_wf(
            s,
            player,
            slot,
            after_attach(s, player, slot, energy, amount).in_play[player][slot],
            Seq::empty(),
        );
    }
}

/// Poisoning keeps the invariant.
pub proof fn lemma_poison_keeps_shape(s: StateView, player: int)
    requires
        shaped(s),
        0 <= player < 2,
    ensures
        shaped(after_poison(s, player)),
{
    if s.occupied(player, 0) {
        lemma_updates_keep_wf(s, player, 0, after_poison(s, player).in_play[player][0], Seq::empty());
    }
}

/// Opening a decision for one of the two players keeps the invariant.
pub proof fn lemma_offer_keeps_shape(s: StateView, player: usize, choices: Seq<SimpleActionView>)
    requires
        shaped(s),
        player < 2,
    ensures
        shaped(after_offer(s, player, choices)),
{
    lemma_decision_keeps_wf(s, player, choices);
}

/// Asking for a new active creature keeps the invariant.
pub proof fn lemma_promotion_request_keeps_shape(s: StateView, player: int)
    requires
        shaped(s),
        0 <= player < 2,
    ensures
        shaped(after_promotion_request(s, player)),
{
    lemma_offer_keeps_shape(
        s,
        player as usize,
        slot_choices(s.in_play[player], SlotChoice::Promotion, 4),
    );
}

/// Placing a card into an eligible slot keeps the invariant.
pub proof fn lemma_place_keeps_shape(s: StateView, player: int, card: Card, slot: int)
    requires
        shaped(s),
        0 <= player < 2,
        0 <= slot < 4,
        SlotChoice::Place(card).eligible(slot, s.in_play[player][slot]),
    ensures
        shaped(after_place(s, player, card, slot)),
{
    let hand = remove_first(s.hands[player], card);
    lemma_updates_keep_wf(s, player, slot, None, hand);
    lemma_updates_keep_wf(
        s.with_hand(player, hand),
        player,
        slot,
        after_place(s, player, card, slot).in_play[player][slot],
        Seq::empty(),
    );
}

/// Evolving an eligible creature keeps the invariant.
pub proof fn lemma_evolve_keeps_shape(s: StateView, player: int, card: Card, slot: int)
    requires
        shaped(s),
        0 <= player < 2,
        0 <= slot < 4,
        SlotChoice::Evolve(card).eligible(slot, s.in_play[player][slot]),
    ensures
        shaped(after_evolve(s, player, card, slot)),
{
    let hand = remove_first(s.hands[player], card);
    lemma_updates_keep_wf(s, player, slot, None, hand);
    lemma_updates_keep_wf(
        s.with_hand(player, hand),
        player,
        slot,
        after_evolve(s, player, card, slot).in_play[player][slot],
        Seq::empty(),
    );
}

/// A retreat keeps the invariant.
pub proof fn lemma_retreat_keeps_shape(s: StateView, player: int, slot: int)
    requires
        shaped(s),
        0 <= player < 2,
        0 <= slot < 4,
        s.occupied(player, 0),
    ensures
        shaped(after_retreat(s, player, slot)),
{
    let c = s.creature(player, 0);
    let paid = PlayedCardView {
        attached_energy: c.attached_energy.skip(retreat_cost(c) as int),
        poisoned: false,
        ..c
    };
    lemma_updates_keep_wf(s, player, 0, Some(paid), Seq::empty());
    lemma_swap_keeps_shape(s.with_slot(player, 0, Some(paid)), player, slot);
}

/// Attaching a tool to an eligible creature keeps the invariant.
pub proof fn lemma_attach_tool_keeps_shape(
    s: StateView,
    player: int,
    slot: int,
    tool: crate::tool_ids::ToolId,
)
    requires
        shaped(s),
        0 <= player < 2,
        0 <= slot < 4,
        SlotChoice::Tool(tool).eligible(slot, s.in_play[player][slot]),
    ensures
        shaped(after_attach_tool(s, player, slot, tool)),
{
    lemma_updates_keep_wf(
        s,
        player,
        slot,
        after_attach_tool(s, player, slot, tool).in_play[player][slot],
        Seq::empty(),
    );
}

/// A list of attachments keeps the invariant.
pub proof fn lemma_attachments_keep_shape(
    s: StateView,
    player: int,
    attachments: Seq<(u32, EnergyType, usize)>,
)
    requires
        shaped(s),
        0 <= player < 2,
    ensures
        shaped(after_attachments(s, player, attachments)),
    decreases attachments.len(),
{
    if attachments.len() > 0 {
        let last = attachments.last();
        lemma_attachments_keep_shape(s, player, attachments.drop_last());
        lemma_attach_keeps_shape(
            after_attachments(s, player, attachments.drop_last()),
            player,
            last.2 as int,
            last.1,
            last.0 as nat,
        );
    }
}

/// A list of damages keeps the invariant.
pub proof fn lemma_damages_keep_shape(s: StateView, player: int, targets: Seq<(u32, usize)>)
    requires
        shaped(s),
        0 <= player < 2,
    ensures
        shaped(after_damages(s, player, targets)),
    decreases targets.len(),
{
    if targets.len() > 0 {
        let last = targets.last();
        lemma_damages_keep_shape(s, player, targets.drop_last());
        lemma_damage_keeps_shape(
            after_damages(s, player, targets.drop_last()),
            player,
            last.1 as int,
            last.0,
        );
    }
}

/// A shuffle keeps the invariant: the deck keeps its size.
pub proof fn lemma_shuffle_keeps_shape(s: StateView, rng: u64, player: int)
    requires
        shaped(s),
        0 <= player < 2,
    ensures
        shaped(after_shuffle(s, rng, player).0),
{
    let deck = s.decks[player].cards;
    lemma_shuffled_is_permutation(deck, rng, deck.len());
    let t = after_shuffle(s, rng, player).0;
    lemma_updates_keep_wf(s, player, 0, None, t.decks[player].cards);
    assert forall|p: int| 0 <= p < 2 implies (#[trigger] t.decks[p]).cards.len() <= usize::MAX
        && t.decks[p].energy_types.len() <= usize::MAX by {
        assert(s.decks[p].cards.len() <= usize::MAX);
    }
}

/// Fetching a card keeps the invariant: the deck loses at most one card.
pub proof fn lemma_fetch_keeps_shape(s: StateView, rng: u64, player: int, card: Card)
    requires
        shaped(s),
        0 <= player < 2,
    ensures
        shaped(after_fetch(s, rng, player, card).0),
{
    let deck = s.decks[player].cards;
    if deck.contains(card) {
        lemma_position_of(deck, card);
        let rest = remove_first(deck, card);
        let moved = s.with_hand(player, s.hands[player].push(card)).with_deck_cards(player, rest);
        lemma_updates_keep_wf(s, player, 0, None, s.hands[player].push(card));
        lemma_updates_keep_wf(
            s.with_hand(player, s.hands[player].push(card)),
            player,
            0,
            None,
            rest,
        );
        assert forall|p: int| 0 <= p < 2 implies (#[trigger] moved.decks[p]).cards.len()
            <= usize::MAX && moved.decks[p].energy_types.len() <= usize::MAX by {
            assert(s.decks[p].cards.len() <= usize::MAX);
        }
        lemma_shuffle_keeps_shape(moved, rng, player);
    } else {
        lemma_shuffle_keeps_shape(s, rng, player);
    }
}

/// Every effect keeps the invariant.
pub proof fn lemma_effect_keeps_shape(s: StateView, rng: u64, actor: int, effect: Effect)
    requires
        shaped(s),
        0 <= actor < 2,
    ensures
        shaped(after_effect(s, rng, actor, effect).0),
{
    let opponent = 1 - actor;
    match effect {
        Effect::Nothing => {},
        Effect::ShuffleDeck => {
            lemma_shuffle_keeps_shape(s, rng, actor);
        },
        Effect::FetchCard(card) => {
            lemma_fetch_keeps_shape(s, rng, actor, card);
        },
        Effect::DrawCards(amount) => {
            lemma_draw_keeps_shape(s, actor, amount as nat);
        },
        Effect::HealAll(amount) => {
            lemma_heal_all_keeps_shape(s, actor, amount, 4);
        },
        Effect::PoisonOpponentActive => {
            lemma_poison_keeps_shape(s, opponent);
        },
        Effect::AttachToActive(energy) => {
            lemma_attach_keeps_shape(s, actor, 0, energy, 1);
        },
        Effect::SwitchWithActive(slot) => {
            if s.occupied(actor, slot as int) {
                lemma_swap_keeps_shape(s, actor, slot as int);
            }
        },
        Effect::OfferForcedSwitch => {
            lemma_offer_keeps_shape(
                s,
                actor as usize,
                slot_choices(s.in_play[opponent], SlotChoice::ForcedSwitch, 4),
            );
        },
        Effect::OfferPromotion => {
            lemma_offer_keeps_shape(
                s,
                opponent as usize,
                slot_choices(s.in_play[opponent], SlotChoice::Promotion, 4),
            );
        },
        Effect::OfferHeal(amount) => {
            lemma_offer_keeps_shape(
                s,
                actor as usize,
                slot_choices(s.in_play[actor], SlotChoice::Heal(amount), 4),
            );
        },
        Effect::OfferTool(tool) => {
            lemma_offer_keeps_shape(
                s,
                actor as usize,
                slot_choices(s.in_play[actor], SlotChoice::Tool(tool), 4),
            );
        },
    }
}

/// Marking an ability as used keeps the invariant.
pub proof fn lemma_marked_used_keeps_shape(s: StateView, player: int, slot: int)
    requires
        shaped(s),
        0 <= player < 2,
    ensures
        shaped(marked_used(s, player, slot)),
{
    if s.occupied(player, slot) {
        lemma_updates_keep_wf(
            s,
            player,
            slot,
            marked_used(s, player, slot).in_play[player][slot],
            Seq::empty(),
        );
    }
}

/// Discarding a played trainer card keeps the invariant.
pub proof fn lemma_trainer_played_keeps_shape(s: StateView, player: int, trainer_card: TrainerCard)
    requires
        shaped(s),
        0 <= player < 2,
    ensures
        shaped(after_trainer_played(s, player, trainer_card)),
{
    let card = Card::Trainer(trainer_card);
    let hand = remove_first(s.hands[player], card);
    lemma_updates_keep_wf(s, player, 0, None, hand);
    lemma_updates_keep_wf(
        s.with_hand(player, hand),
        player,
        0,
        None,
        s.discard_piles[player].push(card),
    );
}

/// The check between two turns keeps the invariant.
pub proof fn lemma_checkup_keeps_shape(s: StateView, player: int)
    requires
        shaped(s),
        0 <= player < 2,
    ensures
        shaped(after_checkup(s, player)),
{
    lemma_damage_keeps_shape(s, player, 0, POISON_DAMAGE);
    lemma_promotion_request_keeps_shape(after_damage(s, player, 0, POISON_DAMAGE), player);
}

/// Passing the turn keeps the invariant.
pub proof fn lemma_turn_end_keeps_shape(s: StateView, energy: Option<EnergyType>)
    requires
        shaped(s),
    ensures
        shaped(after_turn_end(s, energy)),
{
    let next = (1 - s.current_player) as usize;
    let turned = StateView {
        in_play: refreshed_rows(s.in_play),
        has_played_support: false,
        has_retreated: false,
        current_player: next,
        turn_count: next_turn_count(s.turn_count),
        current_energy: energy,
        ..s
    };
    assert(turned.wf()) by {
        assert forall|p: int, i: int|
            0 <= p < 2 && 0 <= i < 4 && (#[trigger] turned.in_play[p][i]) is Some implies turned.in_play[p][i]->0.wf() by {
            assert(s.in_play[p][i] is Some);
            assert(s.in_play[p][i]->0.wf());
        }
    }
    let asked = turned.with_decision(next, seq![SimpleActionView::DrawCard { amount: 1 }]);
    lemma_decision_keeps_wf(turned, next, seq![SimpleActionView::DrawCard { amount: 1 }]);
    lemma_checkup_keeps_shape(asked, 0);
    lemma_checkup_keeps_shape(after_checkup(asked, 0), 1);
}

/// A command's own effect keeps the invariant where the operands are valid.
pub proof fn lemma_primitive_keeps_shape(s: StateView, actor: int, action: SimpleActionView)
    requires
        shaped(s),
        0 <= actor < 2,
        operands_valid(s, actor, action),
    ensures
        shaped(after_primitive(s, actor, action)),
{
    let opponent = 1 - actor;
    match action {
        SimpleActionView::DrawCard { amount } => {
            lemma_draw_keeps_shape(s, actor, amount as nat);
        },
        SimpleActionView::Place(card, slot) => {
            lemma_place_keeps_shape(s, actor, card, slot as int);
        },
        SimpleActionView::Evolve(card, slot) => {
            lemma_evolve_keeps_shape(s, actor, card, slot as int);
        },
        SimpleActionView::Retreat(slot) => {
            lemma_retreat_keeps_shape(s, actor, slot as int);
        },
        SimpleActionView::Attach { attachments, is_turn_energy } => {
            lemma_attachments_keep_shape(s, actor, attachments);
        },
        SimpleActionView::AttachTool { in_play_idx, tool_id } => {
            lemma_attach_tool_keeps_shape(s, actor, in_play_idx as int, tool_id);
        },
        SimpleActionView::Heal { in_play_idx, amount } => {
            lemma_heal_keeps_shape(s, actor, in_play_idx as int, amount);
        },
        SimpleActionView::ApplyDamage { targets } => {
            lemma_damages_keep_shape(s, opponent, targets);
            lemma_promotion_request_keeps_shape(after_damages(s, opponent, targets), opponent);
        },
        SimpleActionView::Activate { in_play_idx } => {
            lemma_swap_keeps_shape(s, actor, in_play_idx as int);
        },
        SimpleActionView::ForceSwitchOpponent { in_play_idx } => {
            lemma_swap_keeps_shape(s, opponent, in_play_idx as int);
        },
        _ => {},
    }
}

/// Every transform keeps the invariant, whatever the outcome set it comes
/// from.
pub proof fn lemma_mutation_keeps_shape(s: StateView, rng: u64, action: ActionView, m: Mutation)
    requires
        shaped(s),
        action.actor < 2,
        operands_valid(s, action.actor as int, action.action),
    ensures
        shaped(after_mutation(s, rng, action, m).0),
{
    let actor = action.actor as int;
    let opponent = 1 - actor;
    let start = if action.is_stack {
        s.without_decision()
    } else {
        s
    };
    lemma_updates_keep_wf(s, 0, 0, None, Seq::empty());
    assert(shaped(start));
    assert(operands_valid(start, actor, action.action));
    match m {
        Mutation::Primitive => {
            lemma_primitive_keeps_shape(start, actor, action.action);
        },
        Mutation::AdvanceTurn(energy) => {
            lemma_turn_end_keeps_shape(start, energy);
        },
        Mutation::Attack { damage, effect } => {
            let queued = start.with_decision(action.actor, seq![SimpleActionView::EndTurn]);
            lemma_decision_keeps_wf(start, action.actor, seq![SimpleActionView::EndTurn]);
            lemma_damage_keeps_shape(queued, opponent, 0, damage);
            let damaged = after_damage(queued, opponent, 0, damage);
            lemma_effect_keeps_shape(damaged, rng, actor, effect);
            lemma_promotion_request_keeps_shape(
                after_effect(damaged, rng, actor, effect).0,
                opponent,
            );
        },
        Mutation::Ability { in_play_idx, effect } => {
            lemma_marked_used_keeps_shape(start, actor, in_play_idx as int);
            lemma_effect_keeps_shape(
                marked_used(start, actor, in_play_idx as int),
                rng,
                actor,
                effect,
            );
        },
        Mutation::Trainer { trainer_card, effect } => {
            lemma_trainer_played_keeps_shape(start, actor, trainer_card);
            lemma_effect_keeps_shape(
                after_trainer_played(start, actor, trainer_card),
                rng,
                actor,
                effect,
            );
        },
    }
}

} // verus!
