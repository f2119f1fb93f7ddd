use vstd::prelude::*;
use crate::actions::shared_mutations::{
    after_attach, after_damage, after_swap, attach_energy, damage_slot, swap_with_active,
};
use crate::move_generation::slot_choices::{evolved_total_hp, SlotChoice};
use crate::state::{
    lemma_state_view_eq, lemma_updates_keep_wf, lemma_view_of, remove_first,
    take_card, State, StateView,
};
use crate::tool_ids::{tool_hp_bonus, ToolId};
use crate::types::{Card, EnergyType, PlayedCard, PlayedCardView};

verus! {

/// The state after the player put a creature card from their hand into an
/// empty slot: the creature enters play undamaged, with nothing attached.
pub open spec fn after_place(s: StateView, player: int, card: Card, slot: int) -> StateView {
    match card {
        Card::Pokemon(p) => s.with_hand(player, remove_first(s.hands[player], card)).with_slot(
            player,
            slot,
            Some(PlayedCardView::fresh(card, p.hp, p.hp, Seq::empty(), true, Seq::empty())),
        ),
        Card::Trainer(_) => s,
    }
}

/// The creature after it evolved into `card`, which has `hp` hit points: it
/// keeps its damage, its energies and its tool, is cured of poison, and may
/// not evolve again this turn.
pub open spec fn evolved(c: PlayedCardView, card: Card, hp: u32) -> PlayedCardView {
    PlayedCardView {
        card,
        total_hp: evolved_total_hp(hp, c) as u32,
        remaining_hp: (evolved_total_hp(hp, c) - (c.total_hp - c.remaining_hp)) as u32,
        played_this_turn: true,
        ability_used: false,
        poisoned: false,
        cards_behind: c.cards_behind.push(c.card),
        ..c
    }
}

/// The state after the player evolved the creature in the slot into a card
/// from their hand.
pub open spec fn after_evolve(s: StateView, player: int, card: Card, slot: int) -> StateView {
    match card {
        Card::Pokemon(p) => s.with_hand(player, remove_first(s.hands[player], card)).with_slot(
            player,
            slot,
            Some(evolved(s.creature(player, slot), card, p.hp)),
        ),
        Card::Trainer(_) => s,
    }
}

/// What a retreat of the creature costs: as many energies as its card says.
pub open spec fn retreat_cost(c: PlayedCardView) -> nat {
    match c.card {
        Card::Pokemon(p) => p.retreat_cost as nat,
        Card::Trainer(_) => 0,
    }
}

/// The state after the active creature of the player retreated into the
/// slot: it gives up the energies attached first, as many as the retreat
/// costs, it is cured of poison, and the creature in the slot becomes
/// active.
pub open spec fn after_retreat(s: StateView, player: int, slot: int) -> StateView {
    let c = s.creature(player, 0);
    let paid = PlayedCardView {
        attached_energy: c.attached_energy.skip(retreat_cost(c) as int),
        poisoned: false,
        ..c
    };
    StateView { has_retreated: true, ..after_swap(s.with_slot(player, 0, Some(paid)), player, slot) }
}

/// The state after the tool was attached to the creature in the slot: the
/// creature gains the tool's hit points.
pub open spec fn after_attach_tool(s: StateView, player: int, slot: int, tool: ToolId) -> StateView {
    let c = s.creature(player, slot);
    s.with_slot(
        player,
        slot,
        Some(
            PlayedCardView {
                attached_tool: Some(tool),
                total_hp: (c.total_hp + tool_hp_bonus(tool)) as u32,
                remaining_hp: (c.remaining_hp + tool_hp_bonus(tool)) as u32,
                ..c
            },
        ),
    )
}

/// The state after the attachments were made, one after the other.
pub open spec fn after_attachments(
    s: StateView,
    player: int,
    attachments: Seq<(u32, EnergyType, usize)>,
) -> StateView
    decreases attachments.len(),
{
    if attachments.len() == 0 {
        s
    } else {
        let last = attachments.last();
        after_attach(
            after_attachments(s, player, attachments.drop_last()),
            player,
            last.2 as int,
            last.1,
            last.0 as nat,
        )
    }
}

/// The state after the creatures of `player` took the damages, one after
/// the other.
pub open spec fn after_damages(s: StateView, player: int, targets: Seq<(u32, usize)>) -> StateView
    decreases targets.len(),
{
    if targets.len() == 0 {
        s
    } else {
        let last = targets.last();
        after_damage(after_damages(s, player, targets.drop_last()), player, last.1 as int, last.0)
    }
}

/// Puts a creature card from the hand into an empty slot.
pub(crate) fn place_card(state: &mut State, player: usize, card: Card, slot: usize)
    requires
        player < 2,
        slot < 4,
        old(state)@.wf(),
        SlotChoice::Place(card).eligible(slot as int, old(state)@.in_play[player as int][slot as int]),
    ensures
        final(state)@ == after_place(old(state)@, player as int, card, slot as int),
        final(state)@.wf(),
{
    proof {
        lemma_view_of(*state, player as int);
    }
    match card {
        Card::Pokemon(p) => {
            take_card(&mut state.hands[player], card);
            state.in_play_pokemon[player][slot] = Some(
                PlayedCard::new(card, p.hp, p.hp, Vec::new(), true, Vec::new()),
            );
            proof {
                lemma_view_of(*state, player as int);
                let s = old(state)@;
                let target = after_place(s, player as int, card, slot as int);
                lemma_state_view_eq(state@, target, player as int);
                lemma_updates_keep_wf(
                    s,
                    player as int,
                    slot as int,
                    None,
                    remove_first(s.hands[player as int], card),
                );
                lemma_updates_keep_wf(
                    s.with_hand(player as int, remove_first(s.hands[player as int], card)),
                    player as int,
                    slot as int,
                    target.in_play[player as int][slot as int],
                    Seq::empty(),
                );
            }
        },
        Card::Trainer(_) => {},
    }
}

/// Evolves the creature in the slot into a card from the hand.
pub(crate) fn evolve_card(state: &mut State, player: usize, card: Card, slot: usize)
    requires
        player < 2,
        slot < 4,
        old(state)@.wf(),
        SlotChoice::Evolve(card).eligible(slot as int, old(state)@.in_play[player as int][slot as int]),
    ensures
        final(state)@ == after_evolve(old(state)@, player as int, card, slot as int),
        final(state)@.wf(),
{
    proof {
        lemma_view_of(*state, player as int);
    }
    match card {
        Card::Pokemon(p) => {
            take_card(&mut state.hands[player], card);
            match &mut state.in_play_pokemon[player][slot] {
                Some(c) => {
                    let bonus: u32 = match c.attached_tool {
                        Some(tool) => tool.hp_bonus(),
                        None => 0,
                    };
                    let damage: u32 = c.total_hp - c.remaining_hp;
                    c.cards_behind.push(c.card);
                    c.card = card;
                    c.total_hp = p.hp + bonus;
                    c.remaining_hp = p.hp + bonus - damage;
                    c.played_this_turn = true;
                    c.ability_used = false;
                    c.poisoned = false;
                },
                None => {},
            }
            proof {
                lemma_view_of(*state, player as int);
                let s = old(state)@;
                let target = after_evolve(s, player as int, card, slot as int);
                lemma_state_view_eq(state@, target, player as int);
                lemma_updates_keep_wf(
                    s,
                    player as int,
                    slot as int,
                    None,
                    remove_first(s.hands[player as int], card),
                );
                lemma_updates_keep_wf(
                    s.with_hand(player as int, remove_first(s.hands[player as int], card)),
                    player as int,
                    slot as int,
                    target.in_play[player as int][slot as int],
                    Seq::empty(),
                );
            }
        },
        Card::Trainer(_) => {},
    }
}

fn pay_retreat(c: &mut PlayedCard)
    requires
        retreat_cost(old(c)@) <= old(c)@.attached_energy.len(),
    ensures
        final(c)@ == (PlayedCardView {
            attached_energy: old(c)@.attached_energy.skip(retreat_cost(old(c)@) as int),
            poisoned: false,
            ..old(c)@
        }),
{
    let cost: usize = match c.card {
        Card::Pokemon(p) => p.retreat_cost as usize,
        Card::Trainer(_) => 0,
    };
    let mut k: usize = 0;
    assert(c.attached_energy@.skip(0) =~= c.attached_energy@);
    while k < cost
        invariant
            k <= cost <= old(c)@.attached_energy.len(),
            c@ == (PlayedCardView {
                attached_energy: old(c)@.attached_energy.skip(k as int),
                ..old(c)@
            }),
        decreases cost - k,
    {
        c.attached_energy.remove(0);
        assert(c.attached_energy@ =~= old(c)@.attached_energy.skip(k + 1));
        k += 1;
    }
    c.poisoned = false;
}

/// The active creature retreats into the slot.
pub(crate) fn retreat_to(state: &mut State, player: usize, slot: usize)
    requires
        player < 2,
        slot < 4,
        old(state)@.wf(),
        old(state)@.occupied(player as int, 0),
        retreat_cost(old(state)@.creature(player as int, 0)) <= old(state)@.creature(
            player as int,
            0,
        ).attached_energy.len(),
    ensures
        final(state)@ == after_retreat(old(state)@, player as int, slot as int),
        final(state)@.wf(),
{
    proof {
        lemma_view_of(*state, player as int);
    }
    match &mut state.in_play_pokemon[player][0] {
        Some(c) => {
            pay_retreat(c);
        },
        None => {},
    }
    proof {
        lemma_view_of(*state, player as int);
        let s = old(state)@;
        let c = s.creature(player as int, 0);
        let paid = PlayedCardView {
            attached_energy: c.attached_energy.skip(retreat_cost(c) as int),
            poisoned: false,
            ..c
        };
        lemma_state_view_eq(state@, s.with_slot(player as int, 0, Some(paid)), player as int);
        lemma_updates_keep_wf(s, player as int, 0, Some(paid), Seq::empty());
    }
    swap_with_active(state, player, slot);
    state.has_retreated = true;
    proof {
        lemma_view_of(*state, player as int);
        lemma_state_view_eq(
            state@,
            after_retreat(old(state)@, player as int, slot as int),
            player as int,
        );
    }
}

/// Attaches the tool to the creature in the slot.
pub(crate) fn attach_tool(state: &mut State, player: usize, slot: usize, tool: ToolId)
    requires
        player < 2,
        slot < 4,
        old(state)@.wf(),
        SlotChoice::Tool(tool).eligible(slot as int, old(state)@.in_play[player as int][slot as int]),
    ensures
        final(state)@ == after_attach_tool(old(state)@, player as int, slot as int, tool),
        final(state)@.wf(),
{
    proof {
        lemma_view_of(*state, player as int);
    }
    match &mut state.in_play_pokemon[player][slot] {
        Some(c) => {
            let bonus: u32 = tool.hp_bonus();
            c.attached_tool = Some(tool);
            c.total_hp = c.total_hp + bonus;
            c.remaining_hp = c.remaining_hp + bonus;
        },
        None => {},
    }
    proof {
        lemma_view_of(*state, player as int);
        let s = old(state)@;
        let target = after_attach_tool(s, player as int, slot as int, tool);
        lemma_state_view_eq(state@, target, player as int);
        lemma_updates_keep_wf(
            s,
            player as int,
            slot as int,
            target.in_play[player as int][slot as int],
            Seq::empty(),
        );
    }
}

/// Makes the attachments, one after the other.
pub(crate) fn attach_all(state: &mut State, player: usize, attachments: &Vec<(u32, EnergyType, usize)>)
    requires
        player < 2,
        old(state)@.wf(),
        forall|k: int| 0 <= k < attachments.len() ==> (#[trigger] attachments[k]).2 < 4,
    ensures
        final(state)@ == after_attachments(old(state)@, player as int, attachments@),
        final(state)@.wf(),
{
    let mut k: usize = 0;
    assert(attachments@.take(0) =~= Seq::empty());
    while k < attachments.len()
        invariant
            player < 2,
            k <= attachments.len(),
            forall|k: int| 0 <= k < attachments.len() ==> (#[trigger] attachments[k]).2 < 4,
            state@.wf(),
            state@ == after_attachments(old(state)@, player as int, attachments@.take(k as int)),
        decreases attachments.len() - k,
    {
        let entry = attachments[k];
        attach_energy(state, player, entry.2, entry.1, entry.0);
        assert(attachments@.take(k + 1).drop_last() =~= attachments@.take(k as int));
        k += 1;
    }
    assert(attachments@.take(k as int) =~= attachments@);
}

/// The creatures of the player take the damages, one after the other.
pub(crate) fn damage_all(state: &mut State, player: usize, targets: &Vec<(u32, usize)>)
    requires
        player < 2,
        old(state)@.wf(),
        forall|k: int| 0 <= k < targets.len() ==> (#[trigger] targets[k]).1 < 4,
    ensures
        final(state)@ == after_damages(old(state)@, player as int, targets@),
        final(state)@.wf(),
{
    let mut k: usize = 0;
    assert(targets@.take(0) =~= Seq::empty());
    while k < targets.len()
        invariant
            player < 2,
            k <= targets.len(),
            forall|k: int| 0 <= k < targets.len() ==> (#[trigger] targets[k]).1 < 4,
            state@.wf(),
            state@ == after_damages(old(state)@, player as int, targets@.take(k as int)),
        decreases targets.len() - k,
    {
        let entry = targets[k];
        damage_slot(state, player, entry.1, entry.0);
        assert(targets@.take(k + 1).drop_last() =~= targets@.take(k as int));
        k += 1;
    }
    assert(targets@.take(k as int) =~= targets@);
}

} // verus!
