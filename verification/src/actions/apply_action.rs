use vstd::prelude::*;
use crate::actions::apply_abilities_action::{ability_outcomes, forecast_ability};
use crate::actions::apply_action_helpers::{
    outcome_set_wf, sample_index, sampled, sum_weights, total_weight, Mutation, Mutations,
    Probabilities,
};
use crate::actions::apply_attack_action::{attack_outcomes, forecast_attack};
use crate::actions::apply_trainer_action::{forecast_trainer_action, trainer_outcomes};
use crate::actions::board_mutations::{
    after_attach_tool, after_attachments, after_damages, after_evolve, after_place,
    after_retreat, attach_all, attach_tool, damage_all, evolve_card, place_card, retreat_cost,
    retreat_to,
};
use crate::actions::effects::{after_effect, apply_effect};
use crate::actions::mutations::{
    deterministic_outcome, equal_weights, lemma_uniform_weights, single_outcome, uniform_weights,
};
use crate::actions::shared_mutations::{
    after_damage, after_draw, after_heal, after_promotion_request, after_swap, damage_slot,
    draw_cards, heal_slot, offer_choices, refreshed, refreshed_rows, request_promotion,
    swap_with_active,
};
use crate::actions::types::{Action, ActionView, SimpleAction, SimpleActionView};
use crate::move_generation::move_generation_attacks::{attack_available, can_attack};
use crate::move_generation::slot_choices::SlotChoice;
use crate::rng::{rng_advance, rng_output, GameRng};
use crate::state::{
    actions_view, find_card, lemma_position_of, lemma_state_view_eq, lemma_updates_keep_wf,
    lemma_view_of, remove_first, slot_view, take_card, State, StateView,
};
use crate::types::{Card, EnergyType, PlayedCard, PlayedCardView, TrainerCard, TrainerType};

verus! {

/// How the resolution of a command ended.
#[derive(Clone, Copy, Debug, PartialEq, Eq, Structural)]
pub enum ResolutionStatus {
    /// No decision is open: the turn goes on as usual.
    Complete,
    /// A decision is open: the next command is chosen from its commands.
    AwaitStackedDecision,
}

/// The damage that poison does to an active creature between two turns.
pub const POISON_DAMAGE: u32 = 10;

/// Whether each attachment names a slot of the player that holds a creature.
pub open spec fn attachments_in_play(
    s: StateView,
    player: int,
    attachments: Seq<(u32, EnergyType, usize)>,
) -> bool {
    forall|k: int|
        0 <= k < attachments.len() ==> s.occupied(player, (#[trigger] attachments[k]).2 as int)
}

/// Whether each target names a slot of the player that holds a creature.
pub open spec fn targets_in_play(s: StateView, player: int, targets: Seq<(u32, usize)>) -> bool {
    forall|k: int| 0 <= k < targets.len() ==> s.occupied(player, (#[trigger] targets[k]).1 as int)
}

/// Whether the operands of the command name what the command needs: slots
/// that exist and hold, or do not hold, a creature as the command asks;
/// cards that are in the hand; an ability or an attack that the creature can
/// use.
pub open spec fn operands_valid(s: StateView, actor: int, action: SimpleActionView) -> bool {
    let opponent = 1 - actor;
    match action {
        SimpleActionView::DrawCard { amount } => true,
        SimpleActionView::Play { trainer_card } => s.hands[actor].contains(
            Card::Trainer(trainer_card),
        ),
        SimpleActionView::Place(card, slot) => slot < 4 && s.hands[actor].contains(card)
            && SlotChoice::Place(card).eligible(slot as int, s.in_play[actor][slot as int]),
        SimpleActionView::Evolve(card, slot) => slot < 4 && s.hands[actor].contains(card)
            && SlotChoice::Evolve(card).eligible(slot as int, s.in_play[actor][slot as int]),
        SimpleActionView::UseAbility(slot) => slot < 4 && SlotChoice::UseAbility.eligible(
            slot as int,
            s.in_play[actor][slot as int],
        ),
        SimpleActionView::Attack(index) => s.occupied(actor, 0) && attack_available(
            s.creature(actor, 0),
            index as int,
        ),
        SimpleActionView::Retreat(slot) => 0 < slot && s.occupied(actor, 0) && s.occupied(
            actor,
            slot as int,
        ) && retreat_cost(s.creature(actor, 0)) <= s.creature(actor, 0).attached_energy.len(),
        SimpleActionView::EndTurn => true,
        SimpleActionView::Attach { attachments, is_turn_energy } => attachments_in_play(
            s,
            actor,
            attachments,
        ),
        SimpleActionView::AttachTool { in_play_idx, tool_id } => in_play_idx < 4
            && SlotChoice::Tool(tool_id).eligible(
            in_play_idx as int,
            s.in_play[actor][in_play_idx as int],
        ),
        SimpleActionView::Heal { in_play_idx, amount } => s.occupied(actor, in_play_idx as int),
        SimpleActionView::ApplyDamage { targets } => targets_in_play(s, opponent, targets),
        SimpleActionView::Activate { in_play_idx } => s.occupied(actor, in_play_idx as int),
        SimpleActionView::ForceSwitchOpponent { in_play_idx } => s.occupied(
            opponent,
            in_play_idx as int,
        ),
        SimpleActionView::Noop => true,
    }
}

/// Whether the resolver accepts the command in the state.
pub open spec fn valid_command(s: StateView, action: ActionView) -> bool {
    &&& s.wf()
    &&& action.actor < 2
    &&& operands_valid(s, action.actor as int, action.action)
}

/// The state after the creature in the slot, if there is one, was marked as
/// having used its ability.
pub open spec fn marked_used(s: StateView, player: int, slot: int) -> StateView {
    if s.occupied(player, slot) {
        s.with_slot(
            player,
            slot,
            Some(PlayedCardView { ability_used: true, ..s.creature(player, slot) }),
        )
    } else {
        s
    }
}

/// The state after the trainer card went from the hand of the player to
/// their discard pile. A supporter card uses up the supporter of the turn.
pub open spec fn after_trainer_played(s: StateView, player: int, trainer_card: TrainerCard) -> StateView {
    let card = Card::Trainer(trainer_card);
    let moved = if s.hands[player].contains(card) {
        s.with_hand(player, remove_first(s.hands[player], card)).with_discard(
            player,
            s.discard_piles[player].push(card),
        )
    } else {
        s
    };
    StateView {
        has_played_support: s.has_played_support || trainer_card.trainer_card_type
            == TrainerType::Supporter,
        ..moved
    }
}

/// The state after the check between two turns: a poisoned active creature
/// of the player takes the damage of poison, and the player is asked for a
/// new active creature where that one left play.
pub open spec fn after_checkup(s: StateView, player: int) -> StateView {
    if s.occupied(player, 0) && s.creature(player, 0).poisoned {
        after_promotion_request(after_damage(s, player, 0, POISON_DAMAGE), player)
    } else {
        s
    }
}

/// The turn counter after one more turn; it stops at its maximum.
pub open spec fn next_turn_count(n: u32) -> u32 {
    if n < u32::MAX {
        (n + 1) as u32
    } else {
        n
    }
}

/// The state after the turn passed to the other player, whose energy zone
/// gives `energy`: every creature may evolve and use its ability again, the
/// allowances of the turn are fresh, the new player is asked to draw a card,
/// and the check between turns is made for both players.
pub open spec fn after_turn_end(s: StateView, energy: Option<EnergyType>) -> StateView {
    let next = (1 - s.current_player) as usize;
    let turned = StateView {
        in_play: refreshed_rows(s.in_play),
        has_played_support: false,
        has_retreated: false,
        current_player: next,
        turn_count: next_turn_count(s.turn_count),
        current_energy: energy,
        ..s
    };
    let asked = turned.with_decision(next, seq![SimpleActionView::DrawCard { amount: 1 }]);
    after_checkup(after_checkup(asked, 0), 1)
}

/// The state after the command's own effect, for a command without chance.
/// A command that has transforms of its own has none.
pub open spec fn after_primitive(s: StateView, actor: int, action: SimpleActionView) -> StateView {
    let opponent = 1 - actor;
    match action {
        SimpleActionView::DrawCard { amount } => after_draw(s, actor, amount as nat),
        SimpleActionView::Place(card, slot) => after_place(s, actor, card, slot as int),
        SimpleActionView::Evolve(card, slot) => after_evolve(s, actor, card, slot as int),
        SimpleActionView::Retreat(slot) => after_retreat(s, actor, slot as int),
        SimpleActionView::Attach { attachments, is_turn_energy } => {
            let attached = after_attachments(s, actor, attachments);
            if is_turn_energy {
                StateView { current_energy: None, ..attached }
            } else {
                attached
            }
        },
        SimpleActionView::AttachTool { in_play_idx, tool_id } => after_attach_tool(
            s,
            actor,
            in_play_idx as int,
            tool_id,
        ),
        SimpleActionView::Heal { in_play_idx, amount } => after_heal(
            s,
            actor,
            in_play_idx as int,
            amount,
        ),
        SimpleActionView::ApplyDamage { targets } => after_promotion_request(
            after_damages(s, opponent, targets),
            opponent,
        ),
        SimpleActionView::Activate { in_play_idx } => after_swap(s, actor, in_play_idx as int),
        SimpleActionView::ForceSwitchOpponent { in_play_idx } => after_swap(
            s,
            opponent,
            in_play_idx as int,
        ),
        SimpleActionView::Noop => s,
        SimpleActionView::Play { trainer_card } => s,
        SimpleActionView::UseAbility(slot) => s,
        SimpleActionView::Attack(index) => s,
        SimpleActionView::EndTurn => s,
    }
}

/// The state and the generator after the transform was executed for the
/// command. A command that is a sub-step of a resolution first closes the
/// decision that offered it.
pub open spec fn after_mutation(s: StateView, rng: u64, action: ActionView, m: Mutation) -> (
    StateView,
    u64,
) {
    let actor = action.actor as int;
    let opponent = 1 - actor;
    let start = if action.is_stack {
        s.without_decision()
    } else {
        s
    };
    match m {
        Mutation::Primitive => (after_primitive(start, actor, action.action), rng),
        Mutation::AdvanceTurn(energy) => (after_turn_end(start, energy), rng),
        Mutation::Attack { damage, effect } => {
            let queued = start.with_decision(action.actor, seq![SimpleActionView::EndTurn]);
            let damaged = after_damage(queued, opponent, 0, damage);
            let (done, rng_after) = after_effect(damaged, rng, actor, effect);
            (after_promotion_request(done, opponent), rng_after)
        },
        Mutation::Ability { in_play_idx, effect } => after_effect(
            marked_used(start, actor, in_play_idx as int),
            rng,
            actor,
            effect,
        ),
        Mutation::Trainer { trainer_card, effect } => after_effect(
            after_trainer_played(start, actor, trainer_card),
            rng,
            actor,
            effect,
        ),
    }
}

/// The outcome set of the end of a turn: one transform for each kind of
/// energy that the next player's energy zone can give, all with the same
/// weight; the one transform without energy where it gives none.
pub open spec fn turn_end_outcomes(energy_types: Seq<EnergyType>) -> (Seq<u64>, Seq<Mutation>) {
    if energy_types.len() == 0 {
        single_outcome(Mutation::AdvanceTurn(None))
    } else {
        (
            uniform_weights(energy_types.len()),
            Seq::new(energy_types.len(), |i: int| Mutation::AdvanceTurn(Some(energy_types[i]))),
        )
    }
}

/// The outcome set of a command: that of its effect module where the
/// command has one, else the one transform that is the command's own
/// effect.
pub open spec fn outcomes(s: StateView, action: ActionView) -> (Seq<u64>, Seq<Mutation>) {
    let actor = action.actor as int;
    match action.action {
        SimpleActionView::EndTurn => turn_end_outcomes(
            s.decks[1 - s.current_player].energy_types,
        ),
        SimpleActionView::UseAbility(slot) => ability_outcomes(s, actor, slot),
        SimpleActionView::Attack(index) => attack_outcomes(s, actor, index as int),
        SimpleActionView::Play { trainer_card } => trainer_outcomes(s, actor, trainer_card),
        _ => single_outcome(Mutation::Primitive),
    }
}

/// The transform of an outcome set that the generator selects, and the
/// generator after the selection. A set of one outcome takes no number from
/// the generator; a larger set takes one, reduced to the range below the
/// total weight.
pub open spec fn selected(weights: Seq<u64>, rng: u64) -> (int, u64) {
    if weights.len() == 1 {
        (0, rng)
    } else {
        (
            sampled(weights, (rng_output(rng) % (total_weight(weights) as u64)) as nat) as int,
            rng_advance(rng),
        )
    }
}

/// The state and the generator after the command was resolved: one
/// transform of the command's outcome set is selected and executed.
#[verifier::opaque]
pub open spec fn step(s: StateView, rng: u64, action: ActionView) -> (StateView, u64) {
    let (weights, mutations) = outcomes(s, action);
    let (index, rng_after) = selected(weights, rng);
    after_mutation(s, rng_after, action, mutations[index])
}

/// How a resolution that leaves the state `s` ended.
pub open spec fn status_of(s: StateView) -> ResolutionStatus {
    if s.stack.len() > 0 {
        ResolutionStatus::AwaitStackedDecision
    } else {
        ResolutionStatus::Complete
    }
}

fn attachments_are_in_play(state: &State, player: usize, attachments: &Vec<(u32, EnergyType, usize)>) -> (r: bool)
    requires
        player < 2,
    ensures
        r == attachments_in_play(state@, player as int, attachments@),
{
    proof {
        lemma_view_of(*state, player as int);
    }
    let mut k: usize = 0;
    while k < attachments.len()
        invariant
            player < 2,
            k <= attachments.len(),
            forall|j: int|
                0 <= j < k ==> state@.occupied(player as int, (#[trigger] attachments@[j]).2 as int),
        decreases attachments.len() - k,
    {
        let slot = attachments[k].2;
        if slot >= 4 || state.in_play_pokemon[player][slot].is_none() {
            assert(!state@.occupied(player as int, attachments@[k as int].2 as int));
            return false;
        }
        k += 1;
    }
    true
}

fn targets_are_in_play(state: &State, player: usize, targets: &Vec<(u32, usize)>) -> (r: bool)
    requires
        player < 2,
    ensures
        r == targets_in_play(state@, player as int, targets@),
{
    proof {
        lemma_view_of(*state, player as int);
    }
    let mut k: usize = 0;
    while k < targets.len()
        invariant
            player < 2,
            k <= targets.len(),
            forall|j: int|
                0 <= j < k ==> state@.occupied(player as int, (#[trigger] targets@[j]).1 as int),
        decreases targets.len() - k,
    {
        let slot = targets[k].1;
        if slot >= 4 || state.in_play_pokemon[player][slot].is_none() {
            assert(!state@.occupied(player as int, targets@[k as int].1 as int));
            return false;
        }
        k += 1;
    }
    true
}

fn slot_is_occupied(state: &State, player: usize, slot: usize) -> (r: bool)
    requires
        player < 2,
    ensures
        r == state@.occupied(player as int, slot as int),
{
    proof {
        lemma_view_of(*state, player as int);
    }
    slot < 4 && state.in_play_pokemon[player][slot].is_some()
}

fn slot_is_eligible(state: &State, player: usize, slot: usize, choice: SlotChoice) -> (r: bool)
    requires
        player < 2,
    ensures
        r == (slot < 4 && choice.eligible(slot as int, state@.in_play[player as int][slot as int])),
{
    proof {
        lemma_view_of(*state, player as int);
    }
    if slot < 4 {
        choice.is_eligible(slot, &state.in_play_pokemon[player][slot])
    } else {
        false
    }
}

fn hand_holds(state: &State, player: usize, card: Card) -> (r: bool)
    requires
        player < 2,
    ensures
        r == state@.hands[player as int].contains(card),
{
    proof {
        lemma_view_of(*state, player as int);
        lemma_position_of(state@.hands[player as int], card);
    }
    find_card(&state.hands[player], card) < state.hands[player].len()
}

/// Whether the resolver accepts the command in the state.
pub fn is_valid_command(state: &State, action: &Action) -> (r: bool)
    ensures
        r == valid_command(state@, action@),
{
    if action.actor >= 2 || !state.is_well_formed() {
        return false;
    }
    operands_are_valid(state, action.actor, &action.action)
}

fn operands_are_valid(state: &State, actor: usize, action: &SimpleAction) -> (r: bool)
    requires
        actor < 2,
    ensures
        r == operands_valid(state@, actor as int, action@),
{
    let opponent: usize = 1 - actor;
    proof {
        lemma_view_of(*state, actor as int);
        assert(state@.in_play[actor as int][0] == slot_view(state.in_play_pokemon[actor as int][0]));
    }
    let r = match action {
        SimpleAction::DrawCard { amount } => true,
        SimpleAction::Play { trainer_card } => hand_holds(
            state,
            actor,
            Card::Trainer(*trainer_card),
        ),
        SimpleAction::Place(card, slot) => {
            let held = hand_holds(state, actor, *card);
            let eligible = slot_is_eligible(state, actor, *slot, SlotChoice::Place(*card));
            held && eligible
        },
        SimpleAction::Evolve(card, slot) => {
            let held = hand_holds(state, actor, *card);
            let eligible = slot_is_eligible(state, actor, *slot, SlotChoice::Evolve(*card));
            held && eligible
        },
        SimpleAction::UseAbility(slot) => slot_is_eligible(
            state,
            actor,
            *slot,
            SlotChoice::UseAbility,
        ),
        SimpleAction::Attack(index) => match &state.in_play_pokemon[actor][0] {
            Some(c) => can_attack(c, *index),
            None => false,
        },
        SimpleAction::Retreat(slot) => {
            if *slot == 0 || !slot_is_occupied(state, actor, *slot) {
                false
            } else {
                match &state.in_play_pokemon[actor][0] {
                    Some(c) => {
                        let cost: usize = match c.card {
                            Card::Pokemon(p) => p.retreat_cost as usize,
                            Card::Trainer(_) => 0,
                        };
                        cost <= c.attached_energy.len()
                    },
                    None => false,
                }
            }
        },
        SimpleAction::EndTurn => true,
        SimpleAction::Attach { attachments, is_turn_energy } => attachments_are_in_play(
            state,
            actor,
            attachments,
        ),
        SimpleAction::AttachTool { in_play_idx, tool_id } => slot_is_eligible(
            state,
            actor,
            *in_play_idx,
            SlotChoice::Tool(*tool_id),
        ),
        SimpleAction::Heal { in_play_idx, amount } => slot_is_occupied(state, actor, *in_play_idx),
        SimpleAction::ApplyDamage { targets } => targets_are_in_play(state, opponent, targets),
        SimpleAction::Activate { in_play_idx } => slot_is_occupied(state, actor, *in_play_idx),
        SimpleAction::ForceSwitchOpponent { in_play_idx } => slot_is_occupied(
            state,
            opponent,
            *in_play_idx,
        ),
        SimpleAction::Noop => true,
    };
    r
}

fn mark_ability_used(state: &mut State, player: usize, slot: usize)
    requires
        player < 2,
        old(state)@.wf(),
    ensures
        final(state)@ == marked_used(old(state)@, player as int, slot as int),
        final(state)@.wf(),
{
    proof {
        lemma_view_of(*state, player as int);
    }
    if slot < 4 {
        match &mut state.in_play_pokemon[player][slot] {
            Some(c) => {
                c.ability_used = true;
            },
            None => {},
        }
        proof {
            lemma_view_of(*state, player as int);
            let s = old(state)@;
            let target = marked_used(s, player as int, slot as int);
            lemma_state_view_eq(state@, target, player as int);
            if s.occupied(player as int, slot as int) {
                lemma_updates_keep_wf(
                    s,
                    player as int,
                    slot as int,
                    target.in_play[player as int][slot as int],
                    Seq::empty(),
                );
            }
        }
    }
}

fn discard_trainer(state: &mut State, player: usize, trainer_card: TrainerCard)
    requires
        player < 2,
        old(state)@.wf(),
    ensures
        final(state)@ == after_trainer_played(old(state)@, player as int, trainer_card),
        final(state)@.wf(),
{
    proof {
        lemma_view_of(*state, player as int);
    }
    let card = Card::Trainer(trainer_card);
    let found = take_card(&mut state.hands[player], card);
    if found {
        state.discard_piles[player].push(card);
    }
    match trainer_card.trainer_card_type {
        TrainerType::Supporter => {
            state.has_played_support = true;
        },
        _ => {},
    }
    proof {
        lemma_view_of(*state, player as int);
        let s = old(state)@;
        let target = after_trainer_played(s, player as int, trainer_card);
        lemma_position_of(s.hands[player as int], card);
        lemma_state_view_eq(state@, target, player as int);
        lemma_updates_keep_wf(
            s,
            player as int,
            0,
            None,
            remove_first(s.hands[player as int], card),
        );
        lemma_updates_keep_wf(
            s.with_hand(player as int, remove_first(s.hands[player as int], card)),
            player as int,
            0,
            None,
            s.discard_piles[player as int].push(card),
        );
    }
}

fn poison_checkup(state: &mut State, player: usize)
    requires
        player < 2,
        old(state)@.wf(),
    ensures
        final(state)@ == after_checkup(old(state)@, player as int),
        final(state)@.wf(),
{
    proof {
        lemma_view_of(*state, player as int);
        assert(state@.in_play[player as int][0] == slot_view(state.in_play_pokemon[player as int][0]));
    }
    let poisoned = match &state.in_play_pokemon[player][0] {
        Some(c) => c.poisoned,
        None => false,
    };
    if poisoned {
        damage_slot(state, player, 0, POISON_DAMAGE);
        request_promotion(state, player);
    }
}

fn refresh_slot(slot: &mut Option<PlayedCard>)
    ensures
        slot_view(*final(slot)) == match slot_view(*old(slot)) {
            Some(c) => Some(refreshed(c)),
            None => None,
        },
{
    match slot {
        Some(c) => {
            c.played_this_turn = false;
            c.ability_used = false;
        },
        None => {},
    }
}

fn refresh_row(row: &mut [Option<PlayedCard>; 4])
    ensures
        forall|i: int|
            0 <= i < 4 ==> slot_view(#[trigger] final(row)[i]) == match slot_view(old(row)[i]) {
                Some(c) => Some(refreshed(c)),
                None => None,
            },
{
    refresh_slot(&mut row[0]);
    refresh_slot(&mut row[1]);
    refresh_slot(&mut row[2]);
    refresh_slot(&mut row[3]);
}

fn end_turn(state: &mut State, energy: Option<EnergyType>)
    requires
        old(state)@.wf(),
    ensures
        final(state)@ == after_turn_end(old(state)@, energy),
        final(state)@.wf(),
{
    proof {
        lemma_view_of(*state, 0);
    }
    let next: usize = 1 - state.current_player;
    refresh_row(&mut state.in_play_pokemon[0]);
    refresh_row(&mut state.in_play_pokemon[1]);
    state.has_played_support = false;
    state.has_retreated = false;
    state.current_player = next;
    if state.turn_count < u32::MAX {
        state.turn_count = state.turn_count + 1;
    }
    state.current_energy = energy;
    proof {
        lemma_view_of(*state, 0);
        let s = old(state)@;
        let turned = StateView {
            in_play: refreshed_rows(s.in_play),
            has_played_support: false,
            has_retreated: false,
            current_player: next,
            turn_count: next_turn_count(s.turn_count),
            current_energy: energy,
            ..s
        };
        lemma_state_view_eq(state@, turned, 0);
        assert(turned.wf()) by {
            assert forall|p: int, i: int|
                0 <= p < 2 && 0 <= i < 4 && (#[trigger] turned.in_play[p][i]) is Some implies turned.in_play[p][i]->0.wf() by {
                assert(s.in_play[p][i] is Some);
                assert(s.in_play[p][i]->0.wf());
            }
        }
    }
    let mut choices: Vec<SimpleAction> = Vec::new();
    choices.push(SimpleAction::DrawCard { amount: 1 });
    proof {
        assert(actions_view(choices@) =~= seq![SimpleActionView::DrawCard { amount: 1 }]);
    }
    offer_choices(state, next, choices);
    poison_checkup(state, 0);
    poison_checkup(state, 1);
}

fn apply_primitive(state: &mut State, actor: usize, action: &SimpleAction)
    requires
        actor < 2,
        old(state)@.wf(),
        operands_valid(old(state)@, actor as int, action@),
    ensures
        final(state)@ == after_primitive(old(state)@, actor as int, action@),
        final(state)@.wf(),
{
    let opponent: usize = 1 - actor;
    proof {
        lemma_view_of(*state, actor as int);
    }
    match action {
        SimpleAction::DrawCard { amount } => {
            draw_cards(state, actor, *amount);
        },
        SimpleAction::Place(card, slot) => {
            place_card(state, actor, *card, *slot);
        },
        SimpleAction::Evolve(card, slot) => {
            evolve_card(state, actor, *card, *slot);
        },
        SimpleAction::Retreat(slot) => {
            retreat_to(state, actor, *slot);
        },
        SimpleAction::Attach { attachments, is_turn_energy } => {
            attach_all(state, actor, attachments);
            if *is_turn_energy {
                state.current_energy = None;
                proof {
                    lemma_view_of(*state, actor as int);
                    lemma_state_view_eq(
                        state@,
                        after_primitive(old(state)@, actor as int, action@),
                        actor as int,
                    );
                }
            }
        },
        SimpleAction::AttachTool { in_play_idx, tool_id } => {
            attach_tool(state, actor, *in_play_idx, *tool_id);
        },
        SimpleAction::Heal { in_play_idx, amount } => {
            heal_slot(state, actor, *in_play_idx, *amount);
        },
        SimpleAction::ApplyDamage { targets } => {
            damage_all(state, opponent, targets);
            request_promotion(state, opponent);
        },
        SimpleAction::Activate { in_play_idx } => {
            swap_with_active(state, actor, *in_play_idx);
        },
        SimpleAction::ForceSwitchOpponent { in_play_idx } => {
            swap_with_active(state, opponent, *in_play_idx);
        },
        SimpleAction::Noop => {},
        SimpleAction::Play { trainer_card } => {},
        SimpleAction::UseAbility(slot) => {},
        SimpleAction::Attack(index) => {},
        SimpleAction::EndTurn => {},
    }
}

fn close_decision(state: &mut State)
    requires
        old(state)@.wf(),
    ensures
        final(state)@ == old(state)@.without_decision(),
        final(state)@.wf(),
{
    proof {
        lemma_view_of(*state, 0);
    }
    if state.move_generation_stack.len() > 0 {
        state.move_generation_stack.pop();
    }
    proof {
        lemma_view_of(*state, 0);
        assert(state@.stack =~= old(state)@.without_decision().stack);
        lemma_state_view_eq(state@, old(state)@.without_decision(), 0);
        lemma_updates_keep_wf(old(state)@, 0, 0, None, Seq::empty());
    }
}

/// Executes one transform of the outcome set of a command.
pub fn apply_mutation(rng: &mut GameRng, state: &mut State, action: &Action, mutation: Mutation)
    requires
        valid_command(old(state)@, action@),
    ensures
        (final(state)@, final(rng).state) == after_mutation(
            old(state)@,
            old(rng).state,
            action@,
            mutation,
        ),
        final(state)@.wf(),
{
    let actor = action.actor;
    let opponent: usize = 1 - actor;
    if action.is_stack {
        close_decision(state);
    }
    match mutation {
        Mutation::Primitive => {
            apply_primitive(state, actor, &action.action);
        },
        Mutation::AdvanceTurn(energy) => {
            end_turn(state, energy);
        },
        Mutation::Attack { damage, effect } => {
            let mut choices: Vec<SimpleAction> = Vec::new();
            choices.push(SimpleAction::EndTurn);
            proof {
                assert(actions_view(choices@) =~= seq![SimpleActionView::EndTurn]);
            }
            offer_choices(state, actor, choices);
            damage_slot(state, opponent, 0, damage);
            apply_effect(rng, state, actor, effect);
            request_promotion(state, opponent);
        },
        Mutation::Ability { in_play_idx, effect } => {
            mark_ability_used(state, actor, in_play_idx);
            apply_effect(rng, state, actor, effect);
        },
        Mutation::Trainer { trainer_card, effect } => {
            discard_trainer(state, actor, trainer_card);
            apply_effect(rng, state, actor, effect);
        },
    }
}

fn forecast_end_turn(state: &State) -> (r: (Probabilities, Mutations))
    requires
        state@.wf(),
    ensures
        (r.0@, r.1@) == turn_end_outcomes(
            state@.decks[1 - state@.current_player].energy_types,
        ),
        outcome_set_wf(r.0@, r.1@),
{
    let next: usize = 1 - state.current_player;
    proof {
        lemma_view_of(*state, next as int);
    }
    let energy_types = &state.decks[next].energy_types;
    if energy_types.len() == 0 {
        return deterministic_outcome(Mutation::AdvanceTurn(None));
    }
    let weights = equal_weights(energy_types.len());
    let mut mutations: Vec<Mutation> = Vec::new();
    let mut i: usize = 0;
    while i < energy_types.len()
        invariant
            i <= energy_types.len(),
            mutations.len() == i,
            forall|k: int|
                0 <= k < i ==> mutations[k] == Mutation::AdvanceTurn(Some(energy_types[k])),
        decreases energy_types.len() - i,
    {
        mutations.push(Mutation::AdvanceTurn(Some(energy_types[i])));
        i += 1;
    }
    proof {
        lemma_uniform_weights(energy_types.len() as nat);
        assert(mutations@ =~= turn_end_outcomes(energy_types@).1);
    }
    (weights, mutations)
}

/// Computes the outcome set of a command: the weights and the transforms,
/// one of which the resolver will select and execute.
pub fn forecast_action(state: &State, action: &Action) -> (r: (Probabilities, Mutations))
    requires
        valid_command(state@, action@),
    ensures
        (r.0@, r.1@) == outcomes(state@, action@),
        outcome_set_wf(r.0@, r.1@),
{
    match &action.action {
        SimpleAction::EndTurn => forecast_end_turn(state),
        SimpleAction::UseAbility(slot) => forecast_ability(action.actor, state, *slot),
        SimpleAction::Attack(index) => forecast_attack(action.actor, state, *index),
        SimpleAction::Play { trainer_card } => forecast_trainer_action(
            action.actor,
            state,
            trainer_card,
        ),
        _ => deterministic_outcome(Mutation::Primitive),
    }
}

/// Selects one transform of an outcome set with the generator.
pub(crate) fn select_outcome(rng: &mut GameRng, weights: &Vec<u64>) -> (r: usize)
    requires
        weights.len() > 0,
        0 < total_weight(weights@) <= u64::MAX,
    ensures
        (r as int, final(rng).state) == selected(weights@, old(rng).state),
        r < weights.len(),
{
    if weights.len() == 1 {
        0
    } else {
        let total = sum_weights(weights);
        let draw = rng.gen_below(total);
        sample_index(weights, draw)
    }
}

/// Resolves one command: computes its outcome set, selects one transform
/// with the generator, executes it, and says whether a decision is open
/// after it.
pub fn apply_action(rng: &mut GameRng, state: &mut State, action: &Action) -> (status:
    ResolutionStatus)
    requires
        valid_command(old(state)@, action@),
    ensures
        (final(state)@, final(rng).state) == step(old(state)@, old(rng).state, action@),
        final(state)@.wf(),
        status == status_of(final(state)@),
{
    proof {
        reveal(step);
    }
    let (probabilities, mutations) = forecast_action(state, action);
    let index = select_outcome(rng, &probabilities);
    apply_mutation(rng, state, action, mutations[index]);
    proof {
        lemma_view_of(*state, 0);
    }
    if state.move_generation_stack.len() > 0 {
        ResolutionStatus::AwaitStackedDecision
    } else {
        ResolutionStatus::Complete
    }
}

} // verus!
