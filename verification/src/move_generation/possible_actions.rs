use vstd::prelude::*;
use crate::actions::board_mutations::retreat_cost;
use crate::actions::types::{Action, ActionView, SimpleAction, SimpleActionView};
use crate::move_generation::move_generation_abilities::{ability_actions, generate_ability_actions};
use crate::move_generation::move_generation_attacks::{attack_available, can_attack};
use crate::move_generation::slot_choices::{
    collect_slot_choices, row_view, slot_choices, SlotChoice,
};
use crate::state::{
    actions_view, find_card, lemma_view_of, position_of, slot_view, State, StateView,
};
use crate::types::{Card, TrainerType};

verus! {

/// The commands as commands of `actor`.
pub open spec fn issued_by(actor: usize, is_stack: bool, commands: Seq<SimpleActionView>) -> Seq<
    ActionView,
> {
    Seq::new(commands.len(), |i: int| ActionView { actor, action: commands[i], is_stack })
}

/// What the current player can do with one card of their hand: put a basic
/// creature into each empty slot, evolve each creature that evolves into
/// the card, or play a trainer card. A supporter card can be played once a
/// turn.
pub open spec fn card_commands(s: StateView, card: Card) -> Seq<SimpleActionView> {
    let row = s.in_play[s.current_player as int];
    match card {
        Card::Pokemon(_) => slot_choices(row, SlotChoice::Place(card), 4) + slot_choices(
            row,
            SlotChoice::Evolve(card),
            4,
        ),
        Card::Trainer(t) => if t.trainer_card_type == TrainerType::Supporter
            && s.has_played_support {
            Seq::empty()
        } else {
            seq![SimpleActionView::Play { trainer_card: t }]
        },
    }
}

/// What the current player can do with the first `n` cards of their hand.
/// A card that occurs several times in the hand is considered once, where it
/// occurs first.
pub open spec fn hand_commands(s: StateView, n: nat) -> Seq<SimpleActionView>
    decreases n,
{
    if n == 0 {
        Seq::empty()
    } else {
        let hand = s.hands[s.current_player as int];
        let before = hand_commands(s, (n - 1) as nat);
        if position_of(hand, hand[n - 1]) == n - 1 {
            before + card_commands(s, hand[n - 1])
        } else {
            before
        }
    }
}

/// The commands that attach the energy of the turn, one for each creature
/// of the current player, while the energy is not used.
pub open spec fn energy_commands(s: StateView) -> Seq<SimpleActionView> {
    match s.current_energy {
        Some(e) => slot_choices(s.in_play[s.current_player as int], SlotChoice::TurnEnergy(e), 4),
        None => Seq::empty(),
    }
}

/// The retreats of the current player: one into each occupied slot of the
/// bench, where the active creature did not retreat this turn and can pay
/// for the retreat.
pub open spec fn retreat_commands(s: StateView) -> Seq<SimpleActionView> {
    let p = s.current_player as int;
    if !s.has_retreated && s.occupied(p, 0) && retreat_cost(s.creature(p, 0)) <= s.creature(
        p,
        0,
    ).attached_energy.len() {
        slot_choices(s.in_play[p], SlotChoice::Retreat, 4)
    } else {
        Seq::empty()
    }
}

/// The attacks among the first `n` of the active creature of the current
/// player that the creature can pay for.
pub open spec fn attack_commands(s: StateView, n: nat) -> Seq<SimpleActionView>
    decreases n,
{
    let p = s.current_player as int;
    if n == 0 || !s.occupied(p, 0) {
        Seq::empty()
    } else {
        let before = attack_commands(s, (n - 1) as nat);
        if attack_available(s.creature(p, 0), n - 1) {
            before.push(SimpleActionView::Attack((n - 1) as usize))
        } else {
            before
        }
    }
}

/// The commands of a fresh decision of the current player: to end the turn,
/// to use a card of the hand, to attach the energy of the turn, to retreat,
/// to use an ability, to attack.
pub open spec fn main_commands(s: StateView) -> Seq<SimpleActionView> {
    seq![SimpleActionView::EndTurn] + hand_commands(s, s.hands[s.current_player as int].len())
        + energy_commands(s) + retreat_commands(s) + ability_actions(s) + attack_commands(s, 2)
}

/// The player who decides next and the commands they may choose from: those
/// of the latest open decision where there is one, else those of a fresh
/// decision of the current player.
pub open spec fn possible_actions(s: StateView) -> (usize, Seq<ActionView>) {
    if s.stack.len() > 0 {
        (s.stack.last().0, issued_by(s.stack.last().0, true, s.stack.last().1))
    } else {
        (s.current_player, issued_by(s.current_player, false, main_commands(s)))
    }
}

/// The values of a sequence of commands with their actors.
pub open spec fn issued_view(v: Seq<Action>) -> Seq<ActionView> {
    Seq::new(v.len(), |i: int| v[i]@)
}

fn extend_commands(commands: &mut Vec<SimpleAction>, more: Vec<SimpleAction>)
    ensures
        actions_view(final(commands)@) == actions_view(old(commands)@) + actions_view(more@),
{
    let ghost added = more@;
    let mut rest = more;
    commands.append(&mut rest);
    assert(actions_view(commands@) =~= actions_view(old(commands)@) + actions_view(added));
}

fn issue(actor: usize, is_stack: bool, commands: &Vec<SimpleAction>) -> (r: Vec<Action>)
    ensures
        issued_view(r@) == issued_by(actor, is_stack, actions_view(commands@)),
{
    let mut r: Vec<Action> = Vec::new();
    let mut i: usize = 0;
    while i < commands.len()
        invariant
            i <= commands.len(),
            r.len() == i,
            forall|k: int|
                0 <= k < i ==> r[k]@ == (ActionView { actor, action: commands[k]@, is_stack }),
        decreases commands.len() - i,
    {
        r.push(Action { actor, action: commands[i].clone(), is_stack });
        i += 1;
    }
    assert(issued_view(r@) =~= issued_by(actor, is_stack, actions_view(commands@)));
    r
}

fn generate_card_actions(state: &State, card: Card) -> (r: Vec<SimpleAction>)
    requires
        state.current_player < 2,
    ensures
        actions_view(r@) == card_commands(state@, card),
{
    let p = state.current_player;
    proof {
        lemma_view_of(*state, p as int);
        lemma_row(state, p);
    }
    match card {
        Card::Pokemon(_) => {
            let mut r = collect_slot_choices(&state.in_play_pokemon[p], SlotChoice::Place(card));
            let more = collect_slot_choices(&state.in_play_pokemon[p], SlotChoice::Evolve(card));
            extend_commands(&mut r, more);
            r
        },
        Card::Trainer(t) => {
            let mut r: Vec<SimpleAction> = Vec::new();
            let spent = match t.trainer_card_type {
                TrainerType::Supporter => state.has_played_support,
                _ => false,
            };
            if !spent {
                r.push(SimpleAction::Play { trainer_card: t });
            }
            assert(actions_view(r@) =~= card_commands(state@, card));
            r
        },
    }
}

/// The row of a player, as the slot choices read it, is the row of the
/// state's value.
proof fn lemma_row(state: &State, p: usize)
    requires
        p < 2,
    ensures
        row_view(state.in_play_pokemon[p as int]) == state@.in_play[p as int],
{
    lemma_view_of(*state, p as int);
    assert(row_view(state.in_play_pokemon[p as int]) =~= state@.in_play[p as int]);
}

fn generate_hand_actions(state: &State) -> (r: Vec<SimpleAction>)
    requires
        state.current_player < 2,
    ensures
        actions_view(r@) == hand_commands(
            state@,
            state@.hands[state@.current_player as int].len(),
        ),
{
    let p = state.current_player;
    proof {
        lemma_view_of(*state, p as int);
    }
    let mut r: Vec<SimpleAction> = Vec::new();
    let mut i: usize = 0;
    assert(actions_view(r@) =~= hand_commands(state@, 0));
    while i < state.hands[p].len()
        invariant
            p == state.current_player,
            p < 2,
            state@.hands[p as int] == state.hands[p as int]@,
            i <= state.hands[p as int].len(),
            actions_view(r@) == hand_commands(state@, i as nat),
        decreases state.hands[p as int].len() - i,
    {
        let card = state.hands[p][i];
        if find_card(&state.hands[p], card) == i {
            let more = generate_card_actions(state, card);
            extend_commands(&mut r, more);
        }
        i += 1;
    }
    r
}

fn generate_energy_actions(state: &State) -> (r: Vec<SimpleAction>)
    requires
        state.current_player < 2,
    ensures
        actions_view(r@) == energy_commands(state@),
{
    let p = state.current_player;
    proof {
        lemma_row(state, p);
    }
    match state.current_energy {
        Some(e) => collect_slot_choices(&state.in_play_pokemon[p], SlotChoice::TurnEnergy(e)),
        None => {
            let r: Vec<SimpleAction> = Vec::new();
            assert(actions_view(r@) =~= Seq::empty());
            r
        },
    }
}

fn generate_retreat_actions(state: &State) -> (r: Vec<SimpleAction>)
    requires
        state.current_player < 2,
    ensures
        actions_view(r@) == retreat_commands(state@),
{
    let p = state.current_player;
    proof {
        lemma_row(state, p);
        lemma_view_of(*state, p as int);
        assert(state@.in_play[p as int][0] == slot_view(state.in_play_pokemon[p as int][0]));
    }
    let able = !state.has_retreated && match &state.in_play_pokemon[p][0] {
        Some(c) => {
            let cost: usize = match c.card {
                Card::Pokemon(card) => card.retreat_cost as usize,
                Card::Trainer(_) => 0,
            };
            cost <= c.attached_energy.len()
        },
        None => false,
    };
    if able {
        collect_slot_choices(&state.in_play_pokemon[p], SlotChoice::Retreat)
    } else {
        let r: Vec<SimpleAction> = Vec::new();
        assert(actions_view(r@) =~= Seq::empty());
        r
    }
}

fn generate_attack_actions(state: &State) -> (r: Vec<SimpleAction>)
    requires
        state.current_player < 2,
    ensures
        actions_view(r@) == attack_commands(state@, 2),
{
    let p = state.current_player;
    proof {
        lemma_view_of(*state, p as int);
        assert(state@.in_play[p as int][0] == slot_view(state.in_play_pokemon[p as int][0]));
    }
    let mut r: Vec<SimpleAction> = Vec::new();
    assert(actions_view(r@) =~= Seq::empty());
    match &state.in_play_pokemon[p][0] {
        Some(c) => {
            let mut k: usize = 0;
            while k < 2
                invariant
                    k <= 2,
                    state@.occupied(p as int, 0),
                    p == state.current_player,
                    state@.creature(p as int, 0) == c@,
                    actions_view(r@) == attack_commands(state@, k as nat),
                decreases 2 - k,
            {
                let ghost before = actions_view(r@);
                if can_attack(c, k) {
                    r.push(SimpleAction::Attack(k));
                    assert(actions_view(r@) =~= before.push(SimpleActionView::Attack(k)));
                }
                k += 1;
            }
        },
        None => {},
    }
    r
}

/// Says who decides next and lists the commands they may choose from.
pub fn generate_possible_actions(state: &State) -> (r: (usize, Vec<Action>))
    requires
        state.current_player < 2,
    ensures
        (r.0, issued_view(r.1@)) == possible_actions(state@),
{
    proof {
        lemma_view_of(*state, 0);
    }
    let depth = state.move_generation_stack.len();
    if depth > 0 {
        let top = &state.move_generation_stack[depth - 1];
        let actions = issue(top.0, true, &top.1);
        return (top.0, actions);
    }
    let mut commands: Vec<SimpleAction> = Vec::new();
    commands.push(SimpleAction::EndTurn);
    assert(actions_view(commands@) =~= seq![SimpleActionView::EndTurn]);
    extend_commands(&mut commands, generate_hand_actions(state));
    extend_commands(&mut commands, generate_energy_actions(state));
    extend_commands(&mut commands, generate_retreat_actions(state));
    extend_commands(&mut commands, generate_ability_actions(state));
    extend_commands(&mut commands, generate_attack_actions(state));
    let actions = issue(state.current_player, false, &commands);
    (state.current_player, actions)
}

} // verus!
