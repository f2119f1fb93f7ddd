use vstd::prelude::*;
use crate::actions::apply_action_helpers::{
    outcome_set_wf, Effect, Mutation, Mutations, Probabilities,
};
use crate::actions::mutations::{active_damage_effect_doutcome, deterministic_outcome, single_outcome};
use crate::attack_ids::{attack_effect_of, AttackId};
use crate::attacks::caterpie::{caterpie_find_a, find_a_mutations, find_a_weights};
use crate::state::{lemma_view_of, State, StateView};
use crate::types::Card;

verus! {

/// The outcome set of the attack at `index` of the active creature of
/// `actor`: that of the attack's own effect module where it has one, else
/// the one transform that does the attack's damage.
pub open spec fn attack_outcomes(s: StateView, actor: int, index: int) -> (Seq<u64>, Seq<Mutation>) {
    match s.creature(actor, 0).card {
        Card::Pokemon(p) => match attack_effect_of(p.id, index) {
            Some(AttackId::A1005CaterpieFindAFriend) => (
                find_a_weights(s.decks[actor].cards),
                find_a_mutations(s.decks[actor].cards),
            ),
            None => single_outcome(
                Mutation::Attack {
                    damage: p.attack_at(index).fixed_damage,
                    effect: Effect::Nothing,
                },
            ),
        },
        Card::Trainer(_) => single_outcome(Mutation::Primitive),
    }
}

/// Computes the outcome set of an attack of the active creature.
pub(crate) fn forecast_attack(acting_player: usize, state: &State, index: usize) -> (r: (
    Probabilities,
    Mutations,
))
    requires
        acting_player < 2,
        state@.wf(),
        state@.occupied(acting_player as int, 0),
        match state@.creature(acting_player as int, 0).card {
            Card::Pokemon(p) => index < p.attack_count(),
            Card::Trainer(_) => false,
        },
    ensures
        (r.0@, r.1@) == attack_outcomes(state@, acting_player as int, index as int),
        outcome_set_wf(r.0@, r.1@),
{
    proof {
        lemma_view_of(*state, acting_player as int);
    }
    match &state.in_play_pokemon[acting_player][0] {
        Some(c) => match c.card {
            Card::Pokemon(p) => match AttackId::from_pokemon_index(p.id, index) {
                Some(AttackId::A1005CaterpieFindAFriend) => caterpie_find_a(acting_player, state),
                None => match p.get_attack(index) {
                    Some(attack) => {
                        let r = active_damage_effect_doutcome(attack.fixed_damage, Effect::Nothing);
                        r
                    },
                    None => deterministic_outcome(Mutation::Primitive),
                },
            },
            Card::Trainer(_) => deterministic_outcome(Mutation::Primitive),
        },
        None => deterministic_outcome(Mutation::Primitive),
    }
}

} // verus!
