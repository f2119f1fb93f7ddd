use vstd::prelude::*;
use crate::actions::apply_action_helpers::{
    outcome_set_wf, Effect, Mutation, Mutations, Probabilities,
};
use crate::actions::mutations::{
    deterministic_outcome, forecast_search, search_outcomes, single_outcome, CardFilter,
};
use crate::card_ids::CardId;
use crate::state::{lemma_view_of, State, StateView};
use crate::tool_ids::ToolId;
use crate::types::TrainerCard;

verus! {

/// The outcome set of a trainer card that `actor` plays. A card without an
/// implemented effect has the one transform that only discards it.
pub open spec fn trainer_outcomes(s: StateView, actor: int, trainer_card: TrainerCard) -> (
    Seq<u64>,
    Seq<Mutation>,
) {
    let template = Mutation::Trainer { trainer_card, effect: Effect::Nothing };
    match trainer_card.id {
        CardId::PA001Potion => single_outcome(template.with_effect(Effect::OfferHeal(20))),
        CardId::PA005PokeBall => search_outcomes(
            s.decks[actor].cards,
            CardFilter::BasicPokemon,
            template,
        ),
        CardId::PA007ProfessorsResearch => single_outcome(
            template.with_effect(Effect::DrawCards(2)),
        ),
        CardId::A1225Sabrina => single_outcome(template.with_effect(Effect::OfferPromotion)),
        CardId::A2147GiantCape => single_outcome(
            template.with_effect(Effect::OfferTool(ToolId::A2147GiantCape)),
        ),
        _ => single_outcome(template),
    }
}

/// Computes the outcome set of a trainer card.
pub(crate) fn forecast_trainer_action(acting_player: usize, state: &State, trainer_card: &TrainerCard) -> (r: (
    Probabilities,
    Mutations,
))
    requires
        acting_player < 2,
        state@.wf(),
    ensures
        (r.0@, r.1@) == trainer_outcomes(state@, acting_player as int, *trainer_card),
        outcome_set_wf(r.0@, r.1@),
{
    proof {
        lemma_view_of(*state, acting_player as int);
    }
    let template = Mutation::Trainer { trainer_card: *trainer_card, effect: Effect::Nothing };
    match trainer_card.id {
        CardId::PA001Potion => deterministic_outcome(template.replace_effect(Effect::OfferHeal(20))),
        CardId::PA005PokeBall => forecast_search(
            &state.decks[acting_player].cards,
            CardFilter::BasicPokemon,
            template,
        ),
        CardId::PA007ProfessorsResearch => deterministic_outcome(
            template.replace_effect(Effect::DrawCards(2)),
        ),
        CardId::A1225Sabrina => deterministic_outcome(
            template.replace_effect(Effect::OfferPromotion),
        ),
        CardId::A2147GiantCape => deterministic_outcome(
            template.replace_effect(Effect::OfferTool(ToolId::A2147GiantCape)),
        ),
        _ => deterministic_outcome(template),
    }
}

} // verus!
