use vstd::prelude::*;
use crate::ability_ids::AbilityId;
use crate::actions::types::{SimpleAction, SimpleActionView};
use crate::move_generation::slot_choices::{
    collect_slot_choices, lemma_slot_choices, row_view, slot_choices, SlotChoice,
};
use crate::state::{actions_view, State, StateView};
use crate::types::{PlayedCard, PlayedCardView};

verus! {

/// Whether the player may use the ability of a creature in the slot
/// `in_play_index`: the creature has an ability that is a command, it did
/// not use it this turn, and it stands where the ability asks it to stand.
pub open spec fn ability_usable(in_play_index: int, card: PlayedCardView) -> bool {
    let is_active = in_play_index == 0;
    match card.card.ability() {
        None => false,
        Some(AbilityId::A1007Butterfree) => !card.ability_used,
        Some(AbilityId::A1177Weezing) => is_active && !card.ability_used,
        Some(AbilityId::A1132Gardevoir) => !card.ability_used,
        Some(AbilityId::A3122SolgaleoExRisingRoad) => !is_active && !card.ability_used,
        Some(AbilityId::A3a027ShiinoticIlluminate) => !card.ability_used,
        Some(AbilityId::A2a071Arceus) => false,
        Some(AbilityId::A3b034SylveonExHappyRibbon) => false,
        Some(AbilityId::A1020VictreebelFragranceTrap) => is_active && !card.ability_used,
    }
}

/// The ability commands of the current player: one for each slot whose
/// creature may use its ability, in the order of the slots.
pub open spec fn ability_actions(s: StateView) -> Seq<SimpleActionView> {
    slot_choices(s.in_play[s.current_player as int], SlotChoice::UseAbility, 4)
}

/// Lists the ability commands of the current player.
pub fn generate_ability_actions(state: &State) -> (r: Vec<SimpleAction>)
    requires
        state.current_player < 2,
    ensures
        actions_view(r@) == ability_actions(state@),
{
    let current_player = state.current_player;
    proof {
        assert(row_view(state.in_play_pokemon[current_player as int]) =~= state@.in_play[current_player as int]);
    }
    collect_slot_choices(&state.in_play_pokemon[current_player], SlotChoice::UseAbility)
}

/// Whether the player may use the ability of the creature in the slot.
pub fn can_use_ability(entry: &(usize, &PlayedCard)) -> (r: bool)
    ensures
        r == ability_usable(entry.0 as int, entry.1@),
{
    let in_play_index = entry.0;
    let card = entry.1;
    let is_active = in_play_index == 0;
    match card.card.get_ability() {
        None => false,
        Some(ability) => match ability {
            AbilityId::A1007Butterfree => !card.ability_used,
            AbilityId::A1177Weezing => is_active && !card.ability_used,
            AbilityId::A1132Gardevoir => !card.ability_used,
            AbilityId::A3122SolgaleoExRisingRoad => !is_active && !card.ability_used,
            AbilityId::A3a027ShiinoticIlluminate => !card.ability_used,
            AbilityId::A2a071Arceus => false,
            AbilityId::A3b034SylveonExHappyRibbon => false,
            AbilityId::A1020VictreebelFragranceTrap => is_active && !card.ability_used,
        },
    }
}

/// An ability command is offered for a slot exactly when the slot holds a
/// creature that may use its ability.
pub proof fn lemma_ability_offered(s: StateView, slot: usize)
    ensures
        ability_actions(s).contains(SimpleActionView::UseAbility(slot)) <==> slot < 4
            && s.in_play[s.current_player as int][slot as int] is Some && ability_usable(
            slot as int,
            s.in_play[s.current_player as int][slot as int]->0,
        ),
{
    let row = s.in_play[s.current_player as int];
    let offered = ability_actions(s);
    let command = SimpleActionView::UseAbility(slot);
    lemma_slot_choices(row, SlotChoice::UseAbility, 4);
    if offered.contains(command) {
        let k = choose|k: int| 0 <= k < offered.len() && offered[k] == command;
        let j = choose|j: int|
            0 <= j < 4 && SlotChoice::UseAbility.eligible(j, row[j]) && offered[k]
                == SlotChoice::UseAbility.command(j as usize);
        assert(j == slot);
    }
    if slot < 4 && row[slot as int] is Some && ability_usable(slot as int, row[slot as int]->0) {
        let i = slot as int;
        assert(SlotChoice::UseAbility.eligible(i, row[i]));
        assert(offered.contains(SlotChoice::UseAbility.command(i as usize)));
        assert(SlotChoice::UseAbility.command(i as usize) == command);
    }
}

/// A creature that used its ability this turn is not offered the ability
/// again in that turn: while its flag stands, no command names its slot,
/// whatever its card and its position.
pub proof fn lemma_used_ability_not_offered(s: StateView, slot: usize)
    requires
        slot < 4,
        s.in_play[s.current_player as int][slot as int] is Some,
        s.in_play[s.current_player as int][slot as int]->0.ability_used,
    ensures
        !ability_actions(s).contains(SimpleActionView::UseAbility(slot)),
{
    lemma_ability_offered(s, slot);
}

} // verus!
