use vstd::prelude::*;
use crate::ability_ids::AbilityId;
use crate::actions::apply_action_helpers::{
    outcome_set_wf, Effect, Mutation, Mutations, Probabilities,
};
use crate::actions::mutations::{
    deterministic_outcome, forecast_search, search_outcomes, single_outcome, CardFilter,
};
use crate::state::{lemma_view_of, State, StateView};
use crate::types::EnergyType;

verus! {

/// The outcome set of the ability of the creature of `actor` in the slot.
/// An ability that is no command has the one transform without an effect.
pub open spec fn ability_outcomes(s: StateView, actor: int, slot: usize) -> (Seq<u64>, Seq<Mutation>) {
    let template = Mutation::Ability { in_play_idx: slot, effect: Effect::Nothing };
    match s.creature(actor, slot as int).card.ability() {
        Some(AbilityId::A1007Butterfree) => single_outcome(
            template.with_effect(Effect::HealAll(20)),
        ),
        Some(AbilityId::A1177Weezing) => single_outcome(
            template.with_effect(Effect::PoisonOpponentActive),
        ),
        Some(AbilityId::A1132Gardevoir) => single_outcome(
            template.with_effect(Effect::AttachToActive(EnergyType::Psychic)),
        ),
        Some(AbilityId::A3122SolgaleoExRisingRoad) => single_outcome(
            template.with_effect(Effect::SwitchWithActive(slot)),
        ),
        Some(AbilityId::A3a027ShiinoticIlluminate) => search_outcomes(
            s.decks[actor].cards,
            CardFilter::AnyPokemon,
            template,
        ),
        Some(AbilityId::A1020VictreebelFragranceTrap) => single_outcome(
            template.with_effect(Effect::OfferForcedSwitch),
        ),
        Some(AbilityId::A2a071Arceus) => single_outcome(template),
        Some(AbilityId::A3b034SylveonExHappyRibbon) => single_outcome(template),
        None => single_outcome(template),
    }
}

/// Computes the outcome set of the ability of the creature in the slot.
pub(crate) fn forecast_ability(acting_player: usize, state: &State, in_play_idx: usize) -> (r: (
    Probabilities,
    Mutations,
))
    requires
        acting_player < 2,
        state@.wf(),
        state@.occupied(acting_player as int, in_play_idx as int),
    ensures
        (r.0@, r.1@) == ability_outcomes(state@, acting_player as int, in_play_idx),
        outcome_set_wf(r.0@, r.1@),
{
    proof {
        lemma_view_of(*state, acting_player as int);
    }
    let template = Mutation::Ability { in_play_idx, effect: Effect::Nothing };
    let ability = match &state.in_play_pokemon[acting_player][in_play_idx] {
        Some(c) => c.card.get_ability(),
        None => None,
    };
    match ability {
        Some(AbilityId::A1007Butterfree) => deterministic_outcome(
            template.replace_effect(Effect::HealAll(20)),
        ),
        Some(AbilityId::A1177Weezing) => deterministic_outcome(
            template.replace_effect(Effect::PoisonOpponentActive),
        ),
        Some(AbilityId::A1132Gardevoir) => deterministic_outcome(
            template.replace_effect(Effect::AttachToActive(EnergyType::Psychic)),
        ),
        Some(AbilityId::A3122SolgaleoExRisingRoad) => deterministic_outcome(
            template.replace_effect(Effect::SwitchWithActive(in_play_idx)),
        ),
        Some(AbilityId::A3a027ShiinoticIlluminate) => forecast_search(
            &state.decks[acting_player].cards,
            CardFilter::AnyPokemon,
            template,
        ),
        Some(AbilityId::A1020VictreebelFragranceTrap) => deterministic_outcome(
            template.replace_effect(Effect::OfferForcedSwitch),
        ),
        Some(AbilityId::A2a071Arceus) => deterministic_outcome(template),
        Some(AbilityId::A3b034SylveonExHappyRibbon) => deterministic_outcome(template),
        None => deterministic_outcome(template),
    }
}

} // verus!
