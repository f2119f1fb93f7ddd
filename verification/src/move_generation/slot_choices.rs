use vstd::prelude::*;
use crate::actions::types::{SimpleAction, SimpleActionView};
use crate::move_generation::move_generation_abilities::{ability_usable, can_use_ability};
use crate::state::actions_view;
use crate::tool_ids::{tool_hp_bonus, ToolId};
use crate::types::{Card, EnergyType, PlayedCard, PlayedCardView};

verus! {

/// A question that is asked of each slot of a row in turn: whether the slot
/// is eligible, and which command chooses it.
#[derive(Clone, Copy, Debug, PartialEq, Eq, Structural)]
pub enum SlotChoice {
    /// Use the ability of the creature in the slot.
    UseAbility,
    /// Make a basic creature of the bench the active one, by force.
    ForcedSwitch,
    /// Make a creature of the bench the active one.
    Promotion,
    /// Retreat into a slot of the bench.
    Retreat,
    /// Heal a damaged creature by this much.
    Heal(u32),
    /// Attach the tool to a creature that has none.
    Tool(ToolId),
    /// Attach the energy of the turn.
    TurnEnergy(EnergyType),
    /// Put the card into an empty slot.
    Place(Card),
    /// Evolve the creature in the slot into the card.
    Evolve(Card),
}

/// Whether a card can enter play as a creature of its own.
pub open spec fn placeable(card: Card) -> bool {
    match card {
        Card::Pokemon(p) => p.stage == 0 && p.hp > 0,
        Card::Trainer(_) => false,
    }
}

/// Whether the creature can evolve into the card: the card names the
/// creature's card as the one it evolves from, the creature did not enter
/// play or evolve this turn, and the damage on it is less than the hit
/// points it will have.
pub open spec fn evolvable(card: Card, creature: PlayedCardView) -> bool {
    match card {
        Card::Pokemon(p) => {
            &&& p.evolves_from == Some(creature.card.id())
            &&& !creature.played_this_turn
            &&& evolved_total_hp(p.hp, creature) <= u32::MAX
            &&& creature.total_hp - creature.remaining_hp < evolved_total_hp(p.hp, creature)
        },
        Card::Trainer(_) => false,
    }
}

/// The maximum hit points after an evolution: those of the new card and the
/// bonus of the attached tool.
pub open spec fn evolved_total_hp(hp: u32, creature: PlayedCardView) -> int {
    match creature.attached_tool {
        Some(tool) => hp + tool_hp_bonus(tool),
        None => hp as int,
    }
}

impl SlotChoice {
    /// Whether the slot at `index` with this content is eligible.
    pub open spec fn eligible(self, index: int, content: Option<PlayedCardView>) -> bool {
        match self {
            SlotChoice::UseAbility => content is Some && ability_usable(index, content->0),
            SlotChoice::ForcedSwitch => index > 0 && content is Some
                && content->0.card.is_basic_pokemon(),
            SlotChoice::Promotion => index > 0 && content is Some,
            SlotChoice::Retreat => index > 0 && content is Some,
            SlotChoice::Heal(_) => content is Some && content->0.remaining_hp
                < content->0.total_hp,
            SlotChoice::Tool(tool) => content is Some && content->0.attached_tool is None
                && content->0.total_hp + tool_hp_bonus(tool) <= u32::MAX,
            SlotChoice::TurnEnergy(_) => content is Some,
            SlotChoice::Place(card) => content is None && placeable(card),
            SlotChoice::Evolve(card) => content is Some && evolvable(card, content->0),
        }
    }

    /// The command that chooses the slot at `index`.
    pub open spec fn command(self, index: usize) -> SimpleActionView {
        match self {
            SlotChoice::UseAbility => SimpleActionView::UseAbility(index),
            SlotChoice::ForcedSwitch => SimpleActionView::ForceSwitchOpponent { in_play_idx: index },
            SlotChoice::Promotion => SimpleActionView::Activate { in_play_idx: index },
            SlotChoice::Retreat => SimpleActionView::Retreat(index),
            SlotChoice::Heal(amount) => SimpleActionView::Heal { in_play_idx: index, amount },
            SlotChoice::Tool(tool_id) => SimpleActionView::AttachTool {
                in_play_idx: index,
                tool_id,
            },
            SlotChoice::TurnEnergy(e) => SimpleActionView::Attach {
                attachments: seq![(1u32, e, index)],
                is_turn_energy: true,
            },
            SlotChoice::Place(card) => SimpleActionView::Place(card, index),
            SlotChoice::Evolve(card) => SimpleActionView::Evolve(card, index),
        }
    }

    /// Whether the slot at `index` with this content is eligible.
    pub fn is_eligible(&self, index: usize, content: &Option<PlayedCard>) -> (r: bool)
        ensures
            r == self.eligible(index as int, crate::state::slot_view(*content)),
    {
        match content {
            None => match self {
                SlotChoice::Place(card) => match card {
                    Card::Pokemon(p) => p.stage == 0 && p.hp > 0,
                    Card::Trainer(_) => false,
                },
                _ => false,
            },
            Some(creature) => match self {
                SlotChoice::UseAbility => can_use_ability(&(index, creature)),
                SlotChoice::ForcedSwitch => index > 0 && creature.card.is_basic(),
                SlotChoice::Promotion => index > 0,
                SlotChoice::Retreat => index > 0,
                SlotChoice::Heal(_) => creature.remaining_hp < creature.total_hp,
                SlotChoice::Tool(tool) => creature.attached_tool.is_none() && creature.total_hp
                    <= u32::MAX - tool.hp_bonus(),
                SlotChoice::TurnEnergy(_) => true,
                SlotChoice::Place(_) => false,
                SlotChoice::Evolve(card) => match card {
                    Card::Pokemon(p) => {
                        let bonus: u32 = match creature.attached_tool {
                            Some(tool) => tool.hp_bonus(),
                            None => 0,
                        };
                        p.evolves_from == Some(creature.card.get_id()) && !creature.played_this_turn
                            && p.hp <= u32::MAX - bonus && (creature.total_hp as u64) < (
                        p.hp as u64) + (bonus as u64) + (creature.remaining_hp as u64)
                    },
                    Card::Trainer(_) => false,
                },
            },
        }
    }

    /// The command that chooses the slot at `index`.
    pub fn make_command(&self, index: usize) -> (r: SimpleAction)
        ensures
            r@ == self.command(index),
    {
        match self {
            SlotChoice::UseAbility => SimpleAction::UseAbility(index),
            SlotChoice::ForcedSwitch => SimpleAction::ForceSwitchOpponent { in_play_idx: index },
            SlotChoice::Promotion => SimpleAction::Activate { in_play_idx: index },
            SlotChoice::Retreat => SimpleAction::Retreat(index),
            SlotChoice::Heal(amount) => SimpleAction::Heal { in_play_idx: index, amount: *amount },
            SlotChoice::Tool(tool_id) => SimpleAction::AttachTool {
                in_play_idx: index,
                tool_id: *tool_id,
            },
            SlotChoice::TurnEnergy(e) => {
                let mut attachments: Vec<(u32, EnergyType, usize)> = Vec::new();
                attachments.push((1, *e, index));
                assert(attachments@ =~= seq![(1u32, *e, index)]);
                SimpleAction::Attach { attachments, is_turn_energy: true }
            },
            SlotChoice::Place(card) => SimpleAction::Place(*card, index),
            SlotChoice::Evolve(card) => SimpleAction::Evolve(*card, index),
        }
    }
}

/// The commands for the eligible slots among the first `n` of a row, in the
/// order of the slots.
pub open spec fn slot_choices(row: Seq<Option<PlayedCardView>>, choice: SlotChoice, n: nat) -> Seq<
    SimpleActionView,
>
    decreases n,
{
    if n == 0 {
        Seq::empty()
    } else {
        let before = slot_choices(row, choice, (n - 1) as nat);
        if choice.eligible(n - 1, row[n - 1]) {
            before.push(choice.command((n - 1) as usize))
        } else {
            before
        }
    }
}

/// Each command of `slot_choices` chooses an eligible slot, and each
/// eligible slot has its command.
pub proof fn lemma_slot_choices(row: Seq<Option<PlayedCardView>>, choice: SlotChoice, n: nat)
    requires
        n <= usize::MAX,
    ensures
        slot_choices(row, choice, n).len() <= n,
        forall|k: int|
            0 <= k < slot_choices(row, choice, n).len() ==> exists|i: int|
                0 <= i < n && choice.eligible(i, row[i]) && #[trigger] slot_choices(
                    row,
                    choice,
                    n,
                )[k] == choice.command(i as usize),
        forall|i: int|
            0 <= i < n && choice.eligible(i, row[i]) ==> slot_choices(row, choice, n).contains(
                #[trigger] choice.command(i as usize),
            ),
    decreases n,
{
    if n > 0 {
        let m = (n - 1) as nat;
        lemma_slot_choices(row, choice, m);
        let before = slot_choices(row, choice, m);
        let all = slot_choices(row, choice, n);
        assert forall|k: int| 0 <= k < all.len() implies exists|i: int|
            0 <= i < n && choice.eligible(i, row[i]) && #[trigger] all[k] == choice.command(
                i as usize,
            ) by {
            if k < before.len() {
                let i = choose|i: int|
                    0 <= i < m && choice.eligible(i, row[i]) && before[k] == choice.command(
                        i as usize,
                    );
                assert(0 <= i < n && choice.eligible(i, row[i]) && all[k] == choice.command(
                    i as usize,
                ));
            } else {
                assert(choice.eligible(m as int, row[m as int]) && all[k] == choice.command(
                    m as usize,
                ));
            }
        }
        assert forall|i: int| 0 <= i < n && choice.eligible(i, row[i]) implies all.contains(
            #[trigger] choice.command(i as usize),
        ) by {
            if i < m {
                assert(before.contains(choice.command(i as usize)));
                let k = choose|k: int|
                    0 <= k < before.len() && before[k] == choice.command(i as usize);
                assert(all[k] == choice.command(i as usize));
            } else {
                assert(all[all.len() - 1] == choice.command(i as usize));
            }
        }
    }
}

/// The value of a row of slots.
pub open spec fn row_view(row: [Option<PlayedCard>; 4]) -> Seq<Option<PlayedCardView>> {
    Seq::new(4, |i: int| crate::state::slot_view(row[i]))
}

/// Collects the commands for the eligible slots of a row.
pub fn collect_slot_choices(row: &[Option<PlayedCard>; 4], choice: SlotChoice) -> (r: Vec<
    SimpleAction,
>)
    ensures
        actions_view(r@) == slot_choices(row_view(*row), choice, 4),
{
    let mut r: Vec<SimpleAction> = Vec::new();
    let mut i: usize = 0;
    while i < 4
        invariant
            i <= 4,
            actions_view(r@) == slot_choices(row_view(*row), choice, i as nat),
        decreases 4 - i,
    {
        let ghost before = actions_view(r@);
        if choice.is_eligible(i, &row[i]) {
            r.push(choice.make_command(i));
            assert(actions_view(r@) =~= before.push(choice.command(i)));
        }
        i += 1;
    }
    r
}

} // verus!
