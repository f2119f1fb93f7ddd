use vstd::prelude::*;
use crate::ability_ids::AbilityId;
use crate::actions::apply_abilities_action::ability_outcomes;
use crate::actions::apply_action::{
    after_mutation, attachments_in_play, marked_used, operands_valid, outcomes, selected, step,
    valid_command,
};
use crate::actions::apply_action_helpers::{
    lemma_sampled_in_range, outcome_set_wf, total_weight, Effect, Mutation,
};
use crate::actions::apply_attack_action::attack_outcomes;
use crate::actions::apply_trainer_action::trainer_outcomes;
use crate::actions::board_mutations::retreat_cost;
use crate::actions::effects::after_effect;
use crate::actions::invariants::{decks_fit, lemma_mutation_keeps_shape, shaped};
use crate::actions::mutations::{
    lemma_matching_cards, lemma_search_outcomes, lemma_uniform_weights, matching_cards,
    search_effects, single_outcome, uniform_weights, CardFilter,
};
use crate::actions::shared_mutations::{after_damage, after_heal_all, after_swap, healed};
use crate::actions::types::{ActionView, SimpleActionView};
use crate::attacks::caterpie::{find_a_mutations, find_a_weights, grass_cards};
use crate::card_ids::CardId;
use crate::deck::lemma_shuffled_is_permutation;
use crate::game::{all_accepted, run, GameView};
use crate::move_generation::move_generation_abilities::{
    ability_actions, lemma_used_ability_not_offered,
};
use crate::move_generation::possible_actions::{
    attack_commands, card_commands, energy_commands, hand_commands, main_commands,
    possible_actions, retreat_commands,
};
use crate::move_generation::slot_choices::{lemma_slot_choices, slot_choices, SlotChoice};
use crate::rng::rng_output;
use crate::state::{
    lemma_decision_keeps_wf, lemma_position_of, lemma_updates_keep_wf, lemma_view_of,
    position_of, remove_first, State, StateView,
};
use crate::types::{Card, EnergyType};

verus! {

/// The decks of every state that a program holds fit the machine.
pub proof fn lemma_decks_fit(state: State)
    ensures
        decks_fit(state@),
{
    lemma_view_of(state, 0);
    assert forall|p: int| 0 <= p < 2 implies (#[trigger] state@.decks[p]).cards.len()
        <= usize::MAX && state@.decks[p].energy_types.len() <= usize::MAX by {
        assert(state@.decks[p] == state.decks[p]@);
        assert(state.decks[p].cards.len() == state.decks[p].cards@.len());
        assert(state.decks[p].energy_types.len() == state.decks[p].energy_types@.len());
    }
}

/// A shuffle of the deck of `actor` reorders that deck and changes nothing
/// else: the hands, the other deck, the creatures in play, the discard
/// piles and the open decisions stay as they are.
pub proof fn lemma_shuffle_only_reorders(s: StateView, rng: u64, actor: int)
    requires
        s.wf(),
        decks_fit(s),
        0 <= actor < 2,
    ensures
        ({
            let after = after_effect(s, rng, actor, Effect::ShuffleDeck).0;
            &&& after.hands == s.hands
            &&& after.decks[actor].cards.len() == s.decks[actor].cards.len()
            &&& after.decks[actor].cards.to_multiset() == s.decks[actor].cards.to_multiset()
            &&& after.decks[1 - actor] == s.decks[1 - actor]
            &&& after.in_play == s.in_play
            &&& after.discard_piles == s.discard_piles
            &&& after.stack == s.stack
        }),
{
    let deck = s.decks[actor].cards;
    lemma_shuffled_is_permutation(deck, rng, deck.len());
}

/// Taking the first copy of an item out of a sequence takes one copy of it
/// out of the items and leaves the others.
pub proof fn lemma_remove_first<T>(s: Seq<T>, x: T)
    requires
        s.contains(x),
    ensures
        remove_first(s, x).len() == s.len() - 1,
        remove_first(s, x).to_multiset() == s.to_multiset().remove(x),
{
    broadcast use vstd::seq_lib::group_to_multiset_ensures;

    lemma_position_of(s, x);
    let p = position_of(s, x);
    assert(s.remove(p).to_multiset() =~= s.to_multiset().remove(s[p]));
}

/// Fetching a card that the deck of `actor` holds adds that card to the
/// hand of `actor`, takes one copy of it out of the deck, and reorders the
/// rest of the deck. Nothing else changes.
pub proof fn lemma_fetch_moves_one_card(s: StateView, rng: u64, actor: int, card: Card)
    requires
        s.wf(),
        decks_fit(s),
        0 <= actor < 2,
        s.decks[actor].cards.contains(card),
    ensures
        ({
            let after = after_effect(s, rng, actor, Effect::FetchCard(card)).0;
            &&& after.hands[actor] == s.hands[actor].push(card)
            &&& after.hands[1 - actor] == s.hands[1 - actor]
            &&& after.decks[actor].cards.len() == s.decks[actor].cards.len() - 1
            &&& after.decks[actor].cards.to_multiset() == s.decks[actor].cards.to_multiset().remove(
                card,
            )
            &&& after.decks[1 - actor] == s.decks[1 - actor]
            &&& after.in_play == s.in_play
            &&& after.discard_piles == s.discard_piles
            &&& after.stack == s.stack
        }),
{
    let deck = s.decks[actor].cards;
    let rest = remove_first(deck, card);
    lemma_remove_first(deck, card);
    lemma_shuffled_is_permutation(rest, rng, rest.len());
}

/// The effects of a search: where the deck holds no card that the search
/// accepts, the one effect is the shuffle; where it holds such cards, each
/// effect fetches a card that the search accepts and the deck holds, so that
/// no other card is ever drawn.
pub proof fn lemma_search_effects(cards: Seq<Card>, filter: CardFilter)
    ensures
        matching_cards(cards, filter).len() == 0 ==> search_effects(cards, filter)
            =~= seq![Effect::ShuffleDeck],
        matching_cards(cards, filter).len() > 0 ==> search_effects(cards, filter).len()
            == matching_cards(cards, filter).len(),
        forall|i: int|
            0 <= i < matching_cards(cards, filter).len() ==> {
                &&& #[trigger] search_effects(cards, filter)[i] == Effect::FetchCard(
                    matching_cards(cards, filter)[i],
                )
                &&& filter.admits(matching_cards(cards, filter)[i])
                &&& cards.contains(matching_cards(cards, filter)[i])
            },
{
    lemma_matching_cards(cards, filter);
}

/// An attack whose effect is a shuffle or a fetch changes the hands and the
/// decks as the effect alone does: the damage and the decisions that the
/// attack opens touch neither.
pub proof fn lemma_attack_search_cards(
    s: StateView,
    rng: u64,
    action: ActionView,
    damage: u32,
    effect: Effect,
)
    requires
        s.wf(),
        action.actor < 2,
        effect is ShuffleDeck || effect is FetchCard,
    ensures
        ({
            let after = after_mutation(s, rng, action, Mutation::Attack { damage, effect });
            let alone = after_effect(s, rng, action.actor as int, effect);
            &&& after.0.hands == alone.0.hands
            &&& after.0.decks == alone.0.decks
            &&& after.1 == alone.1
        }),
{
    let actor = action.actor as int;
    let opponent = 1 - actor;
    let start = if action.is_stack {
        s.without_decision()
    } else {
        s
    };
    let queued = start.with_decision(action.actor, seq![SimpleActionView::EndTurn]);
    let damaged = after_damage(queued, opponent, 0, damage);
    assert(damaged.hands == s.hands);
    assert(damaged.decks == s.decks);
    let done = after_effect(damaged, rng, actor, effect);
    let alone = after_effect(s, rng, actor, effect);
    assert(done.0.hands == alone.0.hands);
    assert(done.0.decks == alone.0.decks);
    assert(done.1 == alone.1);
}

/// The command `Attack(0)` of a player whose active creature is Caterpie.
pub open spec fn is_find_a_friend(s: StateView, action: ActionView) -> bool {
    &&& action.actor < 2
    &&& action.action == SimpleActionView::Attack(0)
    &&& s.occupied(action.actor as int, 0)
    &&& s.creature(action.actor as int, 0).card.id() == CardId::A1005Caterpie
}

/// "Find a Friend" with no grass creature in the deck: resolving it leaves
/// both hands as they are and only reorders the deck of the acting player.
pub proof fn lemma_find_a_friend_without_match(s: StateView, rng: u64, action: ActionView)
    requires
        s.wf(),
        decks_fit(s),
        is_find_a_friend(s, action),
        grass_cards(s.decks[action.actor as int].cards).len() == 0,
    ensures
        ({
            let actor = action.actor as int;
            let after = step(s, rng, action).0;
            &&& after.hands == s.hands
            &&& after.decks[actor].cards.len() == s.decks[actor].cards.len()
            &&& after.decks[actor].cards.to_multiset() == s.decks[actor].cards.to_multiset()
            &&& after.decks[1 - actor] == s.decks[1 - actor]
        }),
{
    reveal(step);
    let actor = action.actor as int;
    let deck = s.decks[actor].cards;
    assert(outcomes(s, action) == (find_a_weights(deck), find_a_mutations(deck)));
    assert(find_a_weights(deck).len() == 1);
    assert(find_a_mutations(deck)[0] == (Mutation::Attack {
        damage: 0,
        effect: Effect::ShuffleDeck,
    }));
    lemma_attack_search_cards(s, rng, action, 0, Effect::ShuffleDeck);
    lemma_shuffle_only_reorders(s, rng, actor);
}

/// "Find a Friend" with grass creatures in the deck: the generator selects
/// one of them, each with the same weight; resolving the attack adds that
/// card to the hand of the acting player, takes one copy of it out of their
/// deck and reorders the rest. The card is a grass creature that the deck
/// held: no other card is ever drawn.
pub proof fn lemma_find_a_friend_with_match(s: StateView, rng: u64, action: ActionView)
    requires
        s.wf(),
        decks_fit(s),
        is_find_a_friend(s, action),
        grass_cards(s.decks[action.actor as int].cards).len() > 0,
    ensures
        ({
            let actor = action.actor as int;
            let deck = s.decks[actor].cards;
            let grass = grass_cards(deck);
            let chosen = selected(find_a_weights(deck), rng).0;
            let after = step(s, rng, action).0;
            &&& 0 <= chosen < grass.len()
            &&& grass[chosen].energy_type() == Some(EnergyType::Grass)
            &&& deck.contains(grass[chosen])
            &&& forall|i: int| 0 <= i < grass.len() ==> find_a_weights(deck)[i] == 1
            &&& after.hands[actor] == s.hands[actor].push(grass[chosen])
            &&& after.hands[1 - actor] == s.hands[1 - actor]
            &&& after.decks[actor].cards.len() == deck.len() - 1
            &&& after.decks[actor].cards.to_multiset() == deck.to_multiset().remove(grass[chosen])
            &&& after.decks[1 - actor] == s.decks[1 - actor]
        }),
{
    reveal(step);
    let actor = action.actor as int;
    let deck = s.decks[actor].cards;
    let grass = grass_cards(deck);
    let weights = find_a_weights(deck);
    let chosen = selected(weights, rng).0;
    lemma_matching_cards(deck, CardFilter::PokemonOfType(EnergyType::Grass));
    lemma_uniform_weights(grass.len());
    assert(outcomes(s, action) == (weights, find_a_mutations(deck)));
    if weights.len() > 1 {
        let draw = (rng_output(rng) % (total_weight(weights) as u64)) as nat;
        lemma_sampled_in_range(weights, draw);
    }
    assert(0 <= chosen < grass.len());
    let card = grass[chosen];
    assert(find_a_mutations(deck)[chosen] == (Mutation::Attack {
        damage: 0,
        effect: Effect::FetchCard(card),
    }));
    let rng_after = selected(weights, rng).1;
    lemma_attack_search_cards(s, rng_after, action, 0, Effect::FetchCard(card));
    lemma_fetch_moves_one_card(s, rng_after, actor, card);
}

/// The follow-up command of a forced switch: the actor of the ability
/// names the slot of the opponent's bench.
pub open spec fn forced_switch_of(actor: usize, target: usize) -> ActionView {
    ActionView {
        actor,
        action: SimpleActionView::ForceSwitchOpponent { in_play_idx: target },
        is_stack: true,
    }
}

/// An ability that forces an opponent switch, used while exactly one slot
/// of the opponent's bench holds a creature that can be switched in (a
/// basic one): after its resolution the actor has exactly one command to
/// choose from, which names that slot. Resolving that command puts the
/// creature of that slot into the active position and the creature that was
/// active into that slot. No other slot of the opponent changes, the
/// actor's creatures change in nothing but the mark on the one that used its
/// ability, and the decision is closed again: the open decisions are those
/// from before the ability.
pub proof fn lemma_forced_switch(s: StateView, rng: u64, action: ActionView, slot: usize, target: usize)
    requires
        s.wf(),
        action.actor < 2,
        action.action == SimpleActionView::UseAbility(slot),
        s.occupied(action.actor as int, slot as int),
        s.creature(action.actor as int, slot as int).card.ability() == Some(
            AbilityId::A1020VictreebelFragranceTrap,
        ),
        0 < target < 4,
        forall|j: int|
            0 < j < 4 ==> (SlotChoice::ForcedSwitch.eligible(
                j,
                #[trigger] s.in_play[1 - action.actor as int][j],
            ) <==> j == target),
    ensures
        ({
            let actor = action.actor as int;
            let opponent = 1 - actor;
            let first = step(s, rng, action);
            let follow = forced_switch_of(action.actor, target);
            let second = step(first.0, first.1, follow);
            &&& possible_actions(first.0) == (action.actor, seq![follow])
            &&& valid_command(first.0, follow)
            &&& second.0.in_play[opponent][0] == s.in_play[opponent][target as int]
            &&& second.0.in_play[opponent][target as int] == s.in_play[opponent][0]
            &&& forall|j: int|
                0 < j < 4 && j != target ==> second.0.in_play[opponent][j]
                    == s.in_play[opponent][j]
            &&& second.0.in_play[actor] == marked_used(s, actor, slot as int).in_play[actor]
            &&& second.0.stack == if action.is_stack {
                s.without_decision().stack
            } else {
                s.stack
            }
            &&& second.0.hands == s.hands
            &&& second.0.decks == s.decks
            &&& second.1 == rng
        }),
{
    reveal(step);
    reveal_with_fuel(slot_choices, 5);
    let actor = action.actor as int;
    let opponent = 1 - actor;
    let follow = forced_switch_of(action.actor, target);
    let start = if action.is_stack {
        s.without_decision()
    } else {
        s
    };
    lemma_updates_keep_wf(s, actor, slot as int, None, Seq::empty());
    let marked = marked_used(start, actor, slot as int);
    let row = s.in_play[opponent];
    assert(marked.in_play[opponent] == row);
    assert(!SlotChoice::ForcedSwitch.eligible(0, row[0]));
    assert(SlotChoice::ForcedSwitch.eligible(1, row[1]) <==> 1 == target);
    assert(SlotChoice::ForcedSwitch.eligible(2, row[2]) <==> 2 == target);
    assert(SlotChoice::ForcedSwitch.eligible(3, row[3]) <==> 3 == target);
    let choices = slot_choices(row, SlotChoice::ForcedSwitch, 4);
    assert(choices =~= seq![follow.action]);
    let first = step(s, rng, action);
    assert(first.0 == marked.with_decision(action.actor, choices));
    assert(first.1 == rng);
    assert(first.0.stack.last() == (action.actor, choices));
    assert(possible_actions(first.0).1 =~= seq![follow]);
    lemma_updates_keep_wf(
        start,
        actor,
        slot as int,
        marked.in_play[actor][slot as int],
        Seq::empty(),
    );
    lemma_decision_keeps_wf(marked, action.actor, choices);
    assert(first.0.in_play[opponent] == row);
    assert(first.0.occupied(opponent, target as int));
    let second = step(first.0, first.1, follow);
    let closed = first.0.without_decision();
    assert(closed.stack =~= start.stack);
    assert(second.0 == after_swap(closed, opponent, target as int));
}

/// The outcome set of one transform is well-formed.
pub proof fn lemma_single_outcome(m: Mutation)
    ensures
        outcome_set_wf(single_outcome(m).0, single_outcome(m).1),
        total_weight(single_outcome(m).0) == 1,
{
    assert(single_outcome(m).0 =~= uniform_weights(1));
    lemma_uniform_weights(1);
}

/// Every command that the resolver accepts has a well-formed outcome set:
/// as many weights as transforms, at least one, and weights that sum to a
/// positive total, so that each weight divided by the total is a
/// probability and the probabilities sum to one.
pub proof fn lemma_outcomes_well_formed(s: StateView, action: ActionView)
    requires
        valid_command(s, action),
        decks_fit(s),
    ensures
        outcome_set_wf(outcomes(s, action).0, outcomes(s, action).1),
{
    let actor = action.actor as int;
    assert(s.decks[actor].cards.len() <= usize::MAX);
    assert(s.decks[1 - s.current_player].energy_types.len() <= usize::MAX);
    match action.action {
        SimpleActionView::EndTurn => {
            let energy_types = s.decks[1 - s.current_player].energy_types;
            if energy_types.len() == 0 {
                lemma_single_outcome(Mutation::AdvanceTurn(None));
            } else {
                lemma_uniform_weights(energy_types.len());
            }
        },
        SimpleActionView::UseAbility(slot) => {
            let template = Mutation::Ability { in_play_idx: slot, effect: Effect::Nothing };
            lemma_search_outcomes(s.decks[actor].cards, CardFilter::AnyPokemon, template);
            lemma_single_outcome(ability_outcomes(s, actor, slot).1[0]);
            assert(ability_outcomes(s, actor, slot).0.len() == 1 ==> ability_outcomes(
                s,
                actor,
                slot,
            ).1 =~= seq![ability_outcomes(s, actor, slot).1[0]]);
        },
        SimpleActionView::Attack(index) => {
            let deck = s.decks[actor].cards;
            lemma_matching_cards(deck, CardFilter::PokemonOfType(EnergyType::Grass));
            lemma_uniform_weights(grass_cards(deck).len());
            lemma_single_outcome(attack_outcomes(s, actor, index as int).1[0]);
            assert(find_a_weights(deck).len() == 1 ==> find_a_weights(deck) =~= seq![1u64]);
            assert(attack_outcomes(s, actor, index as int).0.len() == 1 ==> attack_outcomes(
                s,
                actor,
                index as int,
            ).1 =~= seq![attack_outcomes(s, actor, index as int).1[0]]);
        },
        SimpleActionView::Play { trainer_card } => {
            let template = Mutation::Trainer { trainer_card, effect: Effect::Nothing };
            lemma_search_outcomes(s.decks[actor].cards, CardFilter::BasicPokemon, template);
            lemma_single_outcome(trainer_outcomes(s, actor, trainer_card).1[0]);
            assert(trainer_outcomes(s, actor, trainer_card).0.len() == 1 ==> trainer_outcomes(
                s,
                actor,
                trainer_card,
            ).1 =~= seq![trainer_outcomes(s, actor, trainer_card).1[0]]);
        },
        _ => {
            lemma_single_outcome(Mutation::Primitive);
        },
    }
}

/// A game is a function of its first state, its seed and the commands that
/// were chosen: two runs that agree in these agree in the state and in the
/// generator that they end with.
pub proof fn lemma_replay_deterministic(
    first_state: StateView,
    first_seed: u64,
    first_commands: Seq<ActionView>,
    second_state: StateView,
    second_seed: u64,
    second_commands: Seq<ActionView>,
)
    requires
        first_state == second_state,
        first_seed == second_seed,
        first_commands =~= second_commands,
    ensures
        run(first_state, first_seed, first_commands) == run(
            second_state,
            second_seed,
            second_commands,
        ),
{
}

/// Resolving the commands of a run one more at a time gives the same as the
/// run: the game after `n + 1` commands is the game after `n` commands with
/// the next command resolved.
pub proof fn lemma_run_unfolds(s: StateView, rng: u64, commands: Seq<ActionView>, n: int)
    requires
        0 <= n < commands.len(),
    ensures
        run(s, rng, commands.take(n + 1)) == step(
            run(s, rng, commands.take(n)).0,
            run(s, rng, commands.take(n)).1,
            commands[n],
        ),
{
    assert(commands.take(n + 1).drop_last() =~= commands.take(n));
}

/// Reading the state changes nothing: two snapshots of a game that are
/// taken with no command resolved between them are equal.
pub proof fn lemma_snapshots_agree(game: GameView, first: StateView, second: StateView)
    requires
        first == game.state,
        second == game.state,
    ensures
        first == second,
        run(game.state, game.rng, Seq::empty()) == (game.state, game.rng),
{
}

/// Whether the creature in the slot carries the mark of a used ability.
pub open spec fn marked(s: StateView, player: int, slot: int) -> bool {
    s.occupied(player, slot) && s.creature(player, slot).ability_used
}

/// Healing the creatures of a player takes no mark away and changes neither
/// the shape of the state nor whose turn it is.
pub proof fn lemma_heal_all_keeps_mark(s: StateView, player: int, amount: u32, n: nat, slot: int)
    requires
        s.wf(),
        0 <= player < 2,
        n <= 4,
        marked(s, player, slot),
    ensures
        after_heal_all(s, player, amount, n).wf(),
        marked(after_heal_all(s, player, amount, n), player, slot),
        after_heal_all(s, player, amount, n).current_player == s.current_player,
    decreases n,
{
    if n > 0 {
        let before = after_heal_all(s, player, amount, (n - 1) as nat);
        lemma_heal_all_keeps_mark(s, player, amount, (n - 1) as nat, slot);
        if before.occupied(player, n - 1) {
            lemma_updates_keep_wf(
                before,
                player,
                n - 1,
                Some(healed(before.creature(player, n - 1), amount)),
                Seq::empty(),
            );
        }
    }
}

/// An effect other than a switch leaves a marked creature of the actor in
/// its slot, with its mark.
pub proof fn lemma_effect_keeps_mark(s: StateView, rng: u64, actor: int, effect: Effect, slot: int)
    requires
        s.wf(),
        0 <= actor < 2,
        marked(s, actor, slot),
        !(effect is SwitchWithActive),
    ensures
        marked(after_effect(s, rng, actor, effect).0, actor, slot),
        after_effect(s, rng, actor, effect).0.current_player == s.current_player,
{
    match effect {
        Effect::HealAll(amount) => {
            lemma_heal_all_keeps_mark(s, actor, amount, 4, slot);
        },
        _ => {},
    }
}

/// An ability is used once a turn. After a command `UseAbility` of the
/// current player that the resolver accepts was resolved, the creature that
/// used the ability carries the mark, and the move generator does not offer
/// the ability for it again: not in the slot where the creature stood, and
/// not in the active slot where its own ability moved it there. The card
/// and the position alone do not bring the command back.
pub proof fn lemma_ability_used_once(s: StateView, rng: u64, action: ActionView, slot: usize)
    requires
        valid_command(s, action),
        decks_fit(s),
        action.actor == s.current_player,
        action.action == SimpleActionView::UseAbility(slot),
    ensures
        ({
            let after = step(s, rng, action).0;
            let stands: usize = if s.creature(action.actor as int, slot as int).card.ability()
                == Some(AbilityId::A3122SolgaleoExRisingRoad) {
                0
            } else {
                slot
            };
            &&& after.current_player == s.current_player
            &&& marked(after, action.actor as int, stands as int)
            &&& !ability_actions(after).contains(SimpleActionView::UseAbility(stands))
        }),
{
    reveal(step);
    let actor = action.actor as int;
    let start = if action.is_stack {
        s.without_decision()
    } else {
        s
    };
    lemma_updates_keep_wf(s, actor, slot as int, None, Seq::empty());
    let used = marked_used(start, actor, slot as int);
    lemma_updates_keep_wf(
        start,
        actor,
        slot as int,
        used.in_play[actor][slot as int],
        Seq::empty(),
    );
    assert(marked(used, actor, slot as int));
    lemma_outcomes_well_formed(s, action);
    let (weights, mutations) = outcomes(s, action);
    let (index, rng_after) = selected(weights, rng);
    if weights.len() > 1 {
        let draw = (rng_output(rng) % (total_weight(weights) as u64)) as nat;
        lemma_sampled_in_range(weights, draw);
    }
    assert(0 <= index < mutations.len());
    let m = mutations[index];
    let stands: usize = if s.creature(actor, slot as int).card.ability() == Some(
        AbilityId::A3122SolgaleoExRisingRoad,
    ) {
        0
    } else {
        slot
    };
    assert(m is Ability && m->Ability_in_play_idx == slot);
    let effect = m->Ability_effect;
    let after = after_effect(used, rng_after, actor, effect).0;
    assert(step(s, rng, action).0 == after);
    if effect is SwitchWithActive {
        assert(effect == Effect::SwitchWithActive(slot));
        assert(marked(after, actor, 0));
    } else {
        lemma_effect_keeps_mark(used, rng_after, actor, effect, slot as int);
    }
    lemma_used_ability_not_offered(after, stands);
}

/// Whether the resolver accepts the operands of each of the commands of
/// `actor`.
pub open spec fn all_operands_valid(s: StateView, actor: int, commands: Seq<SimpleActionView>) -> bool {
    forall|k: int| 0 <= k < commands.len() ==> operands_valid(s, actor, #[trigger] commands[k])
}

/// What a slot choice asks of the state beyond the slot itself: a card to
/// place or to evolve into is in the hand; a retreat can be paid for.
pub open spec fn choice_grounded(s: StateView, actor: int, choice: SlotChoice) -> bool {
    match choice {
        SlotChoice::Place(card) => s.hands[actor].contains(card),
        SlotChoice::Evolve(card) => s.hands[actor].contains(card),
        SlotChoice::Retreat => s.occupied(actor, 0) && retreat_cost(s.creature(actor, 0))
            <= s.creature(actor, 0).attached_energy.len(),
        SlotChoice::ForcedSwitch => false,
        _ => true,
    }
}

/// The commands that the slot choices of a player's own row give are
/// commands whose operands the resolver accepts from that player.
pub proof fn lemma_slot_choices_valid(s: StateView, actor: int, choice: SlotChoice)
    requires
        s.wf(),
        0 <= actor < 2,
        choice_grounded(s, actor, choice),
    ensures
        all_operands_valid(s, actor, slot_choices(s.in_play[actor], choice, 4)),
{
    let row = s.in_play[actor];
    let commands = slot_choices(row, choice, 4);
    lemma_slot_choices(row, choice, 4);
    assert forall|k: int| 0 <= k < commands.len() implies operands_valid(
        s,
        actor,
        #[trigger] commands[k],
    ) by {
        let i = choose|i: int|
            0 <= i < 4 && choice.eligible(i, row[i]) && commands[k] == choice.command(i as usize);
        match choice {
            SlotChoice::TurnEnergy(e) => {
                let attachments = seq![(1u32, e, i as usize)];
                assert(attachments_in_play(s, actor, attachments));
            },
            _ => {},
        }
    }
}

/// Commands whose operands are valid, put one after the other.
pub proof fn lemma_all_operands_valid_concat(
    s: StateView,
    actor: int,
    a: Seq<SimpleActionView>,
    b: Seq<SimpleActionView>,
)
    requires
        all_operands_valid(s, actor, a),
        all_operands_valid(s, actor, b),
    ensures
        all_operands_valid(s, actor, a + b),
{
    assert forall|k: int| 0 <= k < (a + b).len() implies operands_valid(
        s,
        actor,
        #[trigger] (a + b)[k],
    ) by {
        if k < a.len() {
            assert((a + b)[k] == a[k]);
        } else {
            assert((a + b)[k] == b[k - a.len()]);
        }
    }
}

proof fn lemma_hand_commands_valid(s: StateView, n: nat)
    requires
        s.wf(),
        n <= s.hands[s.current_player as int].len(),
    ensures
        all_operands_valid(s, s.current_player as int, hand_commands(s, n)),
    decreases n,
{
    let actor = s.current_player as int;
    if n > 0 {
        let hand = s.hands[actor];
        let card = hand[n - 1];
        lemma_hand_commands_valid(s, (n - 1) as nat);
        assert(hand.contains(card));
        match card {
            Card::Pokemon(_) => {
                lemma_slot_choices_valid(s, actor, SlotChoice::Place(card));
                lemma_slot_choices_valid(s, actor, SlotChoice::Evolve(card));
                lemma_all_operands_valid_concat(
                    s,
                    actor,
                    slot_choices(s.in_play[actor], SlotChoice::Place(card), 4),
                    slot_choices(s.in_play[actor], SlotChoice::Evolve(card), 4),
                );
            },
            Card::Trainer(t) => {},
        }
        assert(all_operands_valid(s, actor, card_commands(s, card)));
        lemma_all_operands_valid_concat(
            s,
            actor,
            hand_commands(s, (n - 1) as nat),
            card_commands(s, card),
        );
    }
}

proof fn lemma_attack_commands_valid(s: StateView, n: nat)
    requires
        s.wf(),
    ensures
        all_operands_valid(s, s.current_player as int, attack_commands(s, n)),
    decreases n,
{
    if n > 0 && s.occupied(s.current_player as int, 0) {
        lemma_attack_commands_valid(s, (n - 1) as nat);
    }
}

/// The move generator never offers the current player a command of a fresh
/// decision that the resolver does not accept.
pub proof fn lemma_offered_commands_valid(s: StateView, k: int)
    requires
        s.wf(),
        s.stack.len() == 0,
        0 <= k < possible_actions(s).1.len(),
    ensures
        possible_actions(s).0 == s.current_player,
        valid_command(s, possible_actions(s).1[k]),
{
    let actor = s.current_player as int;
    let first = seq![SimpleActionView::EndTurn];
    let hand = hand_commands(s, s.hands[actor].len());
    lemma_hand_commands_valid(s, s.hands[actor].len());
    match s.current_energy {
        Some(e) => {
            lemma_slot_choices_valid(s, actor, SlotChoice::TurnEnergy(e));
        },
        None => {},
    }
    if retreat_commands(s).len() > 0 {
        lemma_slot_choices_valid(s, actor, SlotChoice::Retreat);
    }
    lemma_slot_choices_valid(s, actor, SlotChoice::UseAbility);
    lemma_attack_commands_valid(s, 2);
    assert(all_operands_valid(s, actor, first));
    lemma_all_operands_valid_concat(s, actor, first, hand);
    lemma_all_operands_valid_concat(s, actor, first + hand, energy_commands(s));
    lemma_all_operands_valid_concat(
        s,
        actor,
        first + hand + energy_commands(s),
        retreat_commands(s),
    );
    lemma_all_operands_valid_concat(
        s,
        actor,
        first + hand + energy_commands(s) + retreat_commands(s),
        ability_actions(s),
    );
    lemma_all_operands_valid_concat(
        s,
        actor,
        first + hand + energy_commands(s) + retreat_commands(s) + ability_actions(s),
        attack_commands(s, 2),
    );
    assert(possible_actions(s).1[k].action == main_commands(s)[k]);
}

/// The invariant of the engine holds after every command that the resolver
/// accepts: the state stays well-formed and its decks keep fitting the
/// machine.
pub proof fn lemma_step_keeps_shape(s: StateView, rng: u64, action: ActionView)
    requires
        valid_command(s, action),
        decks_fit(s),
    ensures
        shaped(step(s, rng, action).0),
{
    reveal(step);
    lemma_outcomes_well_formed(s, action);
    let (weights, mutations) = outcomes(s, action);
    let (index, rng_after) = selected(weights, rng);
    if weights.len() > 1 {
        let draw = (rng_output(rng) % (total_weight(weights) as u64)) as nat;
        lemma_sampled_in_range(weights, draw);
    }
    assert(0 <= index < mutations.len());
    lemma_mutation_keeps_shape(s, rng_after, action, mutations[index]);
}

/// The invariant of the engine holds along every run of commands that the
/// resolver accepts.
pub proof fn lemma_run_keeps_shape(s: StateView, rng: u64, commands: Seq<ActionView>)
    requires
        shaped(s),
        all_accepted(s, rng, commands),
    ensures
        shaped(run(s, rng, commands).0),
    decreases commands.len(),
{
    if commands.len() > 0 {
        lemma_run_keeps_shape(s, rng, commands.drop_last());
        let before = run(s, rng, commands.drop_last());
        lemma_step_keeps_shape(before.0, before.1, commands.last());
    }
}

} // verus!
