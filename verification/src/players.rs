use vstd::prelude::*;
use crate::actions::types::{Action, ActionView, SimpleAction};
use crate::deck::Deck;
use crate::move_generation::possible_actions::issued_view;
use crate::state::State;

verus! {

/// The policy of a seat: it is shown the state and the commands it may
/// choose from, and returns the one it chooses. The engine holds no policy
/// to anything: it checks what comes back.
pub trait Player {
    fn decision_fn(&mut self, state: &State, possible_actions: &Vec<Action>) -> (r: Action)
        requires
            possible_actions.len() > 0,
    ;

    fn get_deck(&self) -> Deck;
}

/// The policy that ends the turn whenever it may, and else takes the first
/// command.
pub struct EndTurnPlayer {
    pub deck: Deck,
}

/// The position of the first command that ends the turn among the first `n`
/// commands, and `n` where none of them does.
pub open spec fn first_end_turn(actions: Seq<ActionView>, n: nat) -> nat
    decreases n,
{
    if n == 0 {
        0
    } else {
        let before = first_end_turn(actions, (n - 1) as nat);
        if before < n - 1 {
            before
        } else if actions[n - 1].action is EndTurn {
            (n - 1) as nat
        } else {
            n
        }
    }
}

/// The command that ends the turn where there is one, else the first
/// command.
pub open spec fn end_turn_choice(actions: Seq<ActionView>) -> ActionView {
    if first_end_turn(actions, actions.len()) < actions.len() {
        actions[first_end_turn(actions, actions.len()) as int]
    } else {
        actions[0]
    }
}

impl Player for EndTurnPlayer {
    fn decision_fn(&mut self, state: &State, possible_actions: &Vec<Action>) -> (r: Action)
        ensures
            r@ == end_turn_choice(issued_view(possible_actions@)),
            final(self).deck@ == old(self).deck@,
    {
        let mut i: usize = 0;
        while i < possible_actions.len()
            invariant
                i <= possible_actions.len(),
                first_end_turn(issued_view(possible_actions@), i as nat) == i,
            decreases possible_actions.len() - i,
        {
            let ends = match possible_actions[i].action {
                SimpleAction::EndTurn => true,
                _ => false,
            };
            if ends {
                proof {
                    lemma_first_end_turn_found(
                        issued_view(possible_actions@),
                        i as nat,
                        possible_actions.len() as nat,
                    );
                }
                return possible_actions[i].clone();
            }
            i += 1;
        }
        possible_actions[0].clone()
    }

    fn get_deck(&self) -> (r: Deck)
        ensures
            r@ == self.deck@,
    {
        self.deck.clone()
    }
}

/// Where the command at `i` is the first that ends the turn, it is the first
/// among any longer prefix too.
proof fn lemma_first_end_turn_found(actions: Seq<ActionView>, i: nat, n: nat)
    requires
        i < n <= actions.len(),
        first_end_turn(actions, i) == i,
        actions[i as int].action is EndTurn,
    ensures
        first_end_turn(actions, n) == i,
    decreases n,
{
    if n > i + 1 {
        lemma_first_end_turn_found(actions, i, (n - 1) as nat);
    }
}

} // verus!
