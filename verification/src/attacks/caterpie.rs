use vstd::prelude::*;
use crate::actions::apply_action_helpers::{
    outcome_set_wf, Effect, Mutation, Mutations, Probabilities,
};
use crate::actions::mutations::{
    active_damage_effect_doutcome, active_damage_effect_mutation, equal_weights,
    find_matching_cards, lemma_matching_cards, lemma_uniform_weights, matching_cards,
    uniform_weights, CardFilter,
};
use crate::state::State;
use crate::types::{Card, EnergyType};

verus! {

/// The grass creatures of a deck, in the deck's order.
pub open spec fn grass_cards(cards: Seq<Card>) -> Seq<Card> {
    matching_cards(cards, CardFilter::PokemonOfType(EnergyType::Grass))
}

/// The weights of "Find a Friend": one share for each grass creature of the
/// deck, or the one share of the single outcome where there is none.
pub open spec fn find_a_weights(cards: Seq<Card>) -> Seq<u64> {
    if grass_cards(cards).len() == 0 {
        seq![1u64]
    } else {
        uniform_weights(grass_cards(cards).len())
    }
}

/// The transforms of "Find a Friend": no damage, and for each grass creature
/// of the deck the move of that card to the hand, followed by a shuffle; or
/// the shuffle alone where there is none.
pub open spec fn find_a_mutations(cards: Seq<Card>) -> Seq<Mutation> {
    let grass = grass_cards(cards);
    if grass.len() == 0 {
        seq![Mutation::Attack { damage: 0, effect: Effect::ShuffleDeck }]
    } else {
        Seq::new(
            grass.len(),
            |i: int| Mutation::Attack { damage: 0, effect: Effect::FetchCard(grass[i]) },
        )
    }
}

/// Caterpie's attack "Find a Friend": a random grass creature goes from the
/// deck to the player's hand, each with the same probability, and the deck is
/// shuffled. With no grass creature in the deck, the deck is only shuffled.
pub fn caterpie_find_a(acting_player: usize, state: &State) -> (r: (Probabilities, Mutations))
    requires
        acting_player < 2,
    ensures
        r.0@ == find_a_weights(state@.decks[acting_player as int].cards),
        r.1@ == find_a_mutations(state@.decks[acting_player as int].cards),
        outcome_set_wf(r.0@, r.1@),
{
    let grass: Vec<Card> = find_matching_cards(
        &state.decks[acting_player].cards,
        CardFilter::PokemonOfType(EnergyType::Grass),
    );
    if grass.len() == 0 {
        return active_damage_effect_doutcome(0, Effect::ShuffleDeck);
    }
    let probabilities = equal_weights(grass.len());
    let mut mutations: Vec<Mutation> = Vec::new();
    let mut i: usize = 0;
    while i < grass.len()
        invariant
            i <= grass.len(),
            mutations.len() == i,
            forall|k: int|
                0 <= k < i ==> mutations[k] == (Mutation::Attack {
                    damage: 0,
                    effect: Effect::FetchCard(grass[k]),
                }),
        decreases grass.len() - i,
    {
        mutations.push(active_damage_effect_mutation(0, Effect::FetchCard(grass[i])));
        i += 1;
    }
    proof {
        lemma_uniform_weights(grass.len() as nat);
        assert(mutations@ =~= find_a_mutations(state@.decks[acting_player as int].cards));
    }
    (probabilities, mutations)
}

/// Every outcome of "Find a Friend" has the same weight, and where the deck
/// holds a grass creature, every outcome moves a grass creature of the deck.
pub proof fn lemma_find_a_outcomes(cards: Seq<Card>)
    ensures
        find_a_weights(cards).len() == find_a_mutations(cards).len(),
        forall|i: int| 0 <= i < find_a_weights(cards).len() ==> find_a_weights(cards)[i] == 1,
        grass_cards(cards).len() > 0 ==> find_a_mutations(cards).len() == grass_cards(cards).len(),
        forall|i: int|
            0 <= i < grass_cards(cards).len() ==> {
                &&& #[trigger] find_a_mutations(cards)[i] == (Mutation::Attack {
                    damage: 0,
                    effect: Effect::FetchCard(grass_cards(cards)[i]),
                })
                &&& grass_cards(cards)[i].energy_type() == Some(EnergyType::Grass)
                &&& cards.contains(grass_cards(cards)[i])
            },
{
    lemma_matching_cards(cards, CardFilter::PokemonOfType(EnergyType::Grass));
}

} // verus!
