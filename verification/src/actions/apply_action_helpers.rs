use vstd::prelude::*;
use crate::tool_ids::ToolId;
use crate::types::{Card, EnergyType, TrainerCard};

verus! {

/// The weights of an outcome set, as whole shares: outcome `i` has the
/// probability `weights[i] / total_weight(weights)`.
pub type Probabilities = Vec<u64>;

/// The transforms of an outcome set, one for each weight.
pub type Mutations = Vec<Mutation>;

/// What a behaviour does beyond damage. Every effect is deterministic but
/// for the order in which a shuffle leaves the deck.
#[derive(Clone, Copy, Debug, PartialEq, Eq, Structural)]
pub enum Effect {
    Nothing,
    /// Shuffles the actor's deck.
    ShuffleDeck,
    /// Moves the first copy of the card from the actor's deck to the actor's
    /// hand, then shuffles the deck.
    FetchCard(Card),
    /// The actor draws this many cards.
    DrawCards(u8),
    /// Heals this much damage from each creature of the actor.
    HealAll(u32),
    /// Poisons the opponent's active creature.
    PoisonOpponentActive,
    /// Attaches one energy of this kind to the actor's active creature, if
    /// the creature is of this kind.
    AttachToActive(EnergyType),
    /// Switches the actor's creature in this slot with the actor's active
    /// creature.
    SwitchWithActive(usize),
    /// Lets the actor choose a basic creature of the opponent's bench that
    /// the opponent must make active.
    OfferForcedSwitch,
    /// Lets the opponent choose which creature of their bench becomes
    /// active.
    OfferPromotion,
    /// Lets the actor choose a damaged creature of theirs to heal by this
    /// much.
    OfferHeal(u32),
    /// Lets the actor choose a creature of theirs without a tool to attach
    /// this tool to.
    OfferTool(ToolId),
}

/// A transform: one deterministic outcome of a command.
#[derive(Clone, Copy, Debug, PartialEq, Eq, Structural)]
pub enum Mutation {
    /// The command's own effect on the state, for a command without chance.
    Primitive,
    /// The turn passes to the other player, whose energy zone gives this
    /// energy.
    AdvanceTurn(Option<EnergyType>),
    /// An attack: the damage to the opponent's active creature, then the
    /// effect. The attacker's turn ends after it.
    Attack { damage: u32, effect: Effect },
    /// The ability of the creature in the slot is marked as used, then the
    /// effect happens.
    Ability { in_play_idx: usize, effect: Effect },
    /// The trainer card goes from the hand to the discard pile, then the
    /// effect happens.
    Trainer { trainer_card: TrainerCard, effect: Effect },
}

/// The sum of the weights.
pub open spec fn total_weight(w: Seq<u64>) -> nat
    decreases w.len(),
{
    if w.len() == 0 {
        0
    } else {
        total_weight(w.drop_last()) + w.last() as nat
    }
}

/// An outcome set is a weight for each transform, at least one transform,
/// and a total weight that is positive and fits the machine word.
pub open spec fn outcome_set_wf(weights: Seq<u64>, mutations: Seq<Mutation>) -> bool {
    &&& weights.len() == mutations.len()
    &&& weights.len() > 0
    &&& 0 < total_weight(weights) <= u64::MAX
}

/// The outcome that a draw selects: the first whose cumulative weight
/// exceeds the draw, and the last one where none does.
pub open spec fn sampled(w: Seq<u64>, draw: nat) -> nat
    decreases w.len(),
{
    if w.len() <= 1 || draw < w[0] {
        0
    } else {
        1 + sampled(w.drop_first(), (draw - w[0]) as nat)
    }
}

/// The total of a sequence of equal weights.
pub proof fn lemma_total_weight_uniform(w: Seq<u64>, share: u64)
    requires
        forall|i: int| 0 <= i < w.len() ==> w[i] == share,
    ensures
        total_weight(w) == w.len() * share,
    decreases w.len(),
{
    if w.len() > 0 {
        lemma_total_weight_uniform(w.drop_last(), share);
        assert(w.len() * share == (w.len() - 1) * share + share) by (nonlinear_arith);
    }
}

/// The total weight splits at the first weight.
pub proof fn lemma_total_weight_front(w: Seq<u64>)
    requires
        w.len() > 0,
    ensures
        total_weight(w) == w[0] + total_weight(w.drop_first()),
    decreases w.len(),
{
    if w.len() == 1 {
        assert(w.drop_last() =~= w.drop_first());
        assert(total_weight(w.drop_first()) == 0);
    } else {
        lemma_total_weight_front(w.drop_last());
        assert(w.drop_last().drop_first() =~= w.drop_first().drop_last());
        assert(w.drop_first().last() == w.last());
    }
}

/// A draw below the total selects an outcome of positive weight, and the
/// weights before it sum to no more than the draw, those up to it to more.
pub proof fn lemma_sampled_in_range(w: Seq<u64>, draw: nat)
    requires
        w.len() > 0,
        draw < total_weight(w),
    ensures
        sampled(w, draw) < w.len(),
        w[sampled(w, draw) as int] > 0,
        total_weight(w.take(sampled(w, draw) as int)) <= draw,
        draw < total_weight(w.take(sampled(w, draw) as int + 1)),
    decreases w.len(),
{
    lemma_total_weight_front(w);
    if draw < w[0] {
        assert(w.take(0) =~= Seq::<u64>::empty());
        assert(w.take(1).drop_last() =~= Seq::<u64>::empty());
        assert(total_weight(w.take(1).drop_last()) == 0);
        assert(w.take(1).last() == w[0]);
        assert(total_weight(w.take(1)) == w[0]);
    } else {
        let rest = w.drop_first();
        let d = (draw - w[0]) as nat;
        assert(rest.len() > 0) by {
            if rest.len() == 0 {
                assert(total_weight(rest) == 0);
            }
        }
        lemma_sampled_in_range(rest, d);
        let k = sampled(rest, d) as int;
        assert(sampled(w, draw) == k + 1);
        lemma_total_weight_front(w.take(k + 1));
        assert(w.take(k + 1).drop_first() =~= rest.take(k as int));
        lemma_total_weight_front(w.take(k + 2));
        assert(w.take(k + 2).drop_first() =~= rest.take(k + 1));
    }
}

/// Selects an outcome by cumulative weight.
pub fn sample_index(weights: &Vec<u64>, draw: u64) -> (r: usize)
    requires
        weights.len() > 0,
    ensures
        r == sampled(weights@, draw as nat),
        r < weights.len(),
{
    let mut i: usize = 0;
    let mut rest: u64 = draw;
    assert(weights@.skip(0) =~= weights@);
    while i + 1 < weights.len() && rest >= weights[i]
        invariant
            i < weights.len(),
            sampled(weights@, draw as nat) == i + sampled(weights@.skip(i as int), rest as nat),
        decreases weights.len() - i,
    {
        assert(weights@.skip(i as int).drop_first() =~= weights@.skip(i + 1));
        rest -= weights[i];
        i += 1;
    }
    i
}

/// The weights up to a position sum to no more than all the weights.
pub proof fn lemma_total_weight_prefix(w: Seq<u64>, n: int)
    requires
        0 <= n <= w.len(),
    ensures
        total_weight(w.take(n)) <= total_weight(w),
    decreases w.len() - n,
{
    if n < w.len() {
        lemma_total_weight_prefix(w, n + 1);
        assert(w.take(n + 1).drop_last() =~= w.take(n));
    } else {
        assert(w.take(n) =~= w);
    }
}

/// Adds the weights up.
pub fn sum_weights(weights: &Vec<u64>) -> (r: u64)
    requires
        total_weight(weights@) <= u64::MAX,
    ensures
        r == total_weight(weights@),
{
    let mut r: u64 = 0;
    let mut i: usize = 0;
    assert(weights@.take(0) =~= Seq::empty());
    while i < weights.len()
        invariant
            i <= weights.len(),
            total_weight(weights@) <= u64::MAX,
            r == total_weight(weights@.take(i as int)),
        decreases weights.len() - i,
    {
        proof {
            lemma_total_weight_prefix(weights@, i + 1);
            assert(weights@.take(i + 1).drop_last() =~= weights@.take(i as int));
        }
        r = r + weights[i];
        i += 1;
    }
    assert(weights@.take(i as int) =~= weights@);
    r
}

} // verus!
