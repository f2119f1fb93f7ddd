use vstd::prelude::*;
use crate::actions::apply_action_helpers::{
    lemma_total_weight_uniform, outcome_set_wf, total_weight, Effect, Mutation, Mutations,
    Probabilities,
};
use crate::types::{Card, EnergyType};

verus! {

/// What a search of the deck looks for.
#[derive(Clone, Copy, Debug, PartialEq, Eq, Structural)]
pub enum CardFilter {
    /// A creature of the given kind of energy.
    PokemonOfType(EnergyType),
    /// Any creature.
    AnyPokemon,
    /// A creature that does not evolve from another.
    BasicPokemon,
}

impl CardFilter {
    /// Whether the search accepts the card.
    pub open spec fn admits(self, card: Card) -> bool {
        match self {
            CardFilter::PokemonOfType(e) => card.energy_type() == Some(e),
            CardFilter::AnyPokemon => card is Pokemon,
            CardFilter::BasicPokemon => card.is_basic_pokemon(),
        }
    }

    /// Whether the search accepts the card.
    pub fn accepts(&self, card: &Card) -> (r: bool)
        ensures
            r == self.admits(*card),
    {
        match self {
            CardFilter::PokemonOfType(e) => match card {
                Card::Pokemon(p) => p.energy_type == *e,
                Card::Trainer(_) => false,
            },
            CardFilter::AnyPokemon => match card {
                Card::Pokemon(_) => true,
                Card::Trainer(_) => false,
            },
            CardFilter::BasicPokemon => card.is_basic(),
        }
    }
}

/// The cards that the search accepts, in the order of the deck, each as
/// often as it occurs.
pub open spec fn matching_cards(cards: Seq<Card>, filter: CardFilter) -> Seq<Card>
    decreases cards.len(),
{
    if cards.len() == 0 {
        Seq::empty()
    } else {
        let before = matching_cards(cards.drop_last(), filter);
        if filter.admits(cards.last()) {
            before.push(cards.last())
        } else {
            before
        }
    }
}

/// Every card found by a search is accepted by it and is in the deck.
pub proof fn lemma_matching_cards(cards: Seq<Card>, filter: CardFilter)
    ensures
        matching_cards(cards, filter).len() <= cards.len(),
        forall|i: int|
            0 <= i < matching_cards(cards, filter).len() ==> filter.admits(
                #[trigger] matching_cards(cards, filter)[i],
            ) && cards.contains(matching_cards(cards, filter)[i]),
        forall|j: int|
            0 <= j < cards.len() && filter.admits(cards[j]) ==> matching_cards(
                cards,
                filter,
            ).contains(#[trigger] cards[j]),
    decreases cards.len(),
{
    if cards.len() > 0 {
        let front = cards.drop_last();
        let found = matching_cards(cards, filter);
        lemma_matching_cards(front, filter);
        let before = matching_cards(front, filter);
        assert forall|i: int| 0 <= i < found.len() implies filter.admits(#[trigger] found[i])
            && cards.contains(found[i]) by {
            if i < before.len() {
                assert(front.contains(before[i]));
                let k = choose|k: int| 0 <= k < front.len() && front[k] == before[i];
                assert(cards[k] == found[i]);
            } else {
                assert(cards[cards.len() - 1] == found[i]);
            }
        }
        assert forall|j: int| 0 <= j < cards.len() && filter.admits(cards[j]) implies found.contains(
            #[trigger] cards[j],
        ) by {
            if j < front.len() {
                assert(front[j] == cards[j]);
                assert(before.contains(front[j]));
                let k = choose|k: int| 0 <= k < before.len() && before[k] == front[j];
                assert(found[k] == cards[j]);
            } else {
                assert(found[found.len() - 1] == cards[j]);
            }
        }
    }
}

/// Collects the cards of the deck that the search accepts.
pub fn find_matching_cards(cards: &Vec<Card>, filter: CardFilter) -> (r: Vec<Card>)
    ensures
        r@ == matching_cards(cards@, filter),
{
    let mut r: Vec<Card> = Vec::new();
    let mut i: usize = 0;
    while i < cards.len()
        invariant
            i <= cards.len(),
            r@ == matching_cards(cards@.take(i as int), filter),
        decreases cards.len() - i,
    {
        assert(cards@.take(i + 1).drop_last() =~= cards@.take(i as int));
        if filter.accepts(&cards[i]) {
            r.push(cards[i]);
        }
        i += 1;
    }
    assert(cards@.take(i as int) =~= cards@);
    r
}

/// The effects of a search: one for each card found, which fetches that
/// card; or, where nothing is found, the one effect that only shuffles.
pub open spec fn search_effects(cards: Seq<Card>, filter: CardFilter) -> Seq<Effect> {
    let found = matching_cards(cards, filter);
    if found.len() == 0 {
        seq![Effect::ShuffleDeck]
    } else {
        Seq::new(found.len(), |i: int| Effect::FetchCard(found[i]))
    }
}

/// As many equal weights as there are outcomes.
pub open spec fn uniform_weights(n: nat) -> Seq<u64> {
    Seq::new(n, |i: int| 1u64)
}

/// Equal weights sum to their number.
pub proof fn lemma_uniform_weights(n: nat)
    ensures
        total_weight(uniform_weights(n)) == n,
{
    lemma_total_weight_uniform(uniform_weights(n), 1);
}

/// As many equal weights as there are outcomes.
pub fn equal_weights(n: usize) -> (r: Probabilities)
    ensures
        r@ == uniform_weights(n as nat),
{
    let mut r: Vec<u64> = Vec::new();
    let mut i: usize = 0;
    while i < n
        invariant
            i <= n,
            r@ == uniform_weights(i as nat),
        decreases n - i,
    {
        r.push(1);
        assert(r@ =~= uniform_weights((i + 1) as nat));
        i += 1;
    }
    r
}

/// The transform of an attack that does `damage` to the opponent's active
/// creature and then has `effect`.
pub fn active_damage_effect_mutation(damage: u32, effect: Effect) -> (r: Mutation)
    ensures
        r == (Mutation::Attack { damage, effect }),
{
    Mutation::Attack { damage, effect }
}

/// The outcome set of an attack without chance: the one transform, with all
/// the weight.
pub fn active_damage_effect_doutcome(damage: u32, effect: Effect) -> (r: (Probabilities, Mutations))
    ensures
        r.0@ == seq![1u64],
        r.1@ == seq![Mutation::Attack { damage, effect }],
        outcome_set_wf(r.0@, r.1@),
{
    let mut weights: Vec<u64> = Vec::new();
    weights.push(1);
    let mut mutations: Vec<Mutation> = Vec::new();
    mutations.push(active_damage_effect_mutation(damage, effect));
    proof {
        assert(weights@ =~= seq![1u64]);
        assert(mutations@ =~= seq![Mutation::Attack { damage, effect }]);
        assert(weights@ =~= uniform_weights(1));
        lemma_uniform_weights(1);
    }
    (weights, mutations)
}

impl Mutation {
    /// The transform with another effect. A transform that has no effect of
    /// its own stays as it is.
    pub open spec fn with_effect(self, effect: Effect) -> Mutation {
        match self {
            Mutation::Attack { damage, effect: _ } => Mutation::Attack { damage, effect },
            Mutation::Ability { in_play_idx, effect: _ } => Mutation::Ability {
                in_play_idx,
                effect,
            },
            Mutation::Trainer { trainer_card, effect: _ } => Mutation::Trainer {
                trainer_card,
                effect,
            },
            other => other,
        }
    }

    /// The transform with another effect.
    pub fn replace_effect(self, effect: Effect) -> (r: Mutation)
        ensures
            r == self.with_effect(effect),
    {
        match self {
            Mutation::Attack { damage, effect: _ } => Mutation::Attack { damage, effect },
            Mutation::Ability { in_play_idx, effect: _ } => Mutation::Ability {
                in_play_idx,
                effect,
            },
            Mutation::Trainer { trainer_card, effect: _ } => Mutation::Trainer {
                trainer_card,
                effect,
            },
            other => other,
        }
    }
}

/// The outcome set of a command without chance: the one transform, with all
/// the weight.
pub open spec fn single_outcome(m: Mutation) -> (Seq<u64>, Seq<Mutation>) {
    (seq![1u64], seq![m])
}

/// The outcome set of a search: the transform `template` once for each
/// effect of the search, all with the same weight.
pub open spec fn search_outcomes(cards: Seq<Card>, filter: CardFilter, template: Mutation) -> (
    Seq<u64>,
    Seq<Mutation>,
) {
    let effects = search_effects(cards, filter);
    (
        uniform_weights(effects.len()),
        Seq::new(effects.len(), |i: int| template.with_effect(effects[i])),
    )
}

/// Builds the outcome set of a command without chance.
pub fn deterministic_outcome(m: Mutation) -> (r: (Probabilities, Mutations))
    ensures
        (r.0@, r.1@) == single_outcome(m),
        outcome_set_wf(r.0@, r.1@),
{
    let mut weights: Vec<u64> = Vec::new();
    weights.push(1);
    let mut mutations: Vec<Mutation> = Vec::new();
    mutations.push(m);
    proof {
        assert(weights@ =~= seq![1u64]);
        assert(mutations@ =~= seq![m]);
        assert(weights@ =~= uniform_weights(1));
        lemma_uniform_weights(1);
    }
    (weights, mutations)
}

/// Builds the outcome set of a search of the deck.
pub fn forecast_search(cards: &Vec<Card>, filter: CardFilter, template: Mutation) -> (r: (
    Probabilities,
    Mutations,
))
    ensures
        (r.0@, r.1@) == search_outcomes(cards@, filter, template),
        outcome_set_wf(r.0@, r.1@),
{
    let found = find_matching_cards(cards, filter);
    if found.len() == 0 {
        let r = deterministic_outcome(template.replace_effect(Effect::ShuffleDeck));
        proof {
            assert(r.0@ =~= uniform_weights(1));
            assert(r.1@ =~= search_outcomes(cards@, filter, template).1);
        }
        return r;
    }
    let weights = equal_weights(found.len());
    let mut mutations: Vec<Mutation> = Vec::new();
    let mut i: usize = 0;
    while i < found.len()
        invariant
            i <= found.len(),
            mutations.len() == i,
            forall|k: int|
                0 <= k < i ==> mutations[k] == template.with_effect(Effect::FetchCard(found[k])),
        decreases found.len() - i,
    {
        mutations.push(template.replace_effect(Effect::FetchCard(found[i])));
        i += 1;
    }
    proof {
        lemma_uniform_weights(found.len() as nat);
        assert(mutations@ =~= search_outcomes(cards@, filter, template).1);
    }
    (weights, mutations)
}

/// The outcome set of a search of a deck that fits the machine is
/// well-formed: as many weights as transforms, at least one, and a total
/// weight that is the number of outcomes.
pub proof fn lemma_search_outcomes(cards: Seq<Card>, filter: CardFilter, template: Mutation)
    requires
        cards.len() <= u64::MAX,
    ensures
        outcome_set_wf(
            search_outcomes(cards, filter, template).0,
            search_outcomes(cards, filter, template).1,
        ),
        total_weight(search_outcomes(cards, filter, template).0) == search_effects(
            cards,
            filter,
        ).len(),
{
    lemma_uniform_weights(search_effects(cards, filter).len());
    lemma_matching_cards(cards, filter);
}

} // verus!
