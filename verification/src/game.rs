use vstd::prelude::*;
use crate::actions::apply_action::{
    apply_action, is_valid_command, status_of, step, valid_command, ResolutionStatus,
};
use crate::actions::types::{Action, ActionView};
use crate::move_generation::possible_actions::{generate_possible_actions, issued_view, possible_actions};
use crate::players::Player;
use crate::rng::GameRng;
use crate::state::{State, StateView};

verus! {

/// One game: the state, the random source that was seeded when the game was
/// made, and the policies of the two seats.
pub struct Game {
    state: State,
    rng: GameRng,
    players: Vec<Box<dyn Player>>,
    /// The choice that the latest tick refused, if it refused one.
    refused: Option<Action>,
}

/// The value of a [`Game`]: the state and the state of the random source.
/// The policies are no part of it.
pub struct GameView {
    pub state: StateView,
    pub rng: u64,
}

impl View for Game {
    type V = GameView;

    closed spec fn view(&self) -> GameView {
        GameView { state: self.state@, rng: self.rng.state }
    }
}

/// What became of a tick of the game.
#[derive(Debug, PartialEq)]
pub enum Tick {
    /// There is no command to choose from, or the seat that decides has no
    /// policy. The game is as it was.
    Idle,
    /// The policy chose a command that was not offered or that the resolver
    /// does not accept. The game is as it was.
    Refused(Action),
    /// The command was chosen and resolved.
    Played(Action, ResolutionStatus),
}

impl Game {
    /// Makes a game from a state, the policies of the seats and a seed.
    pub fn from_state(state: State, players: Vec<Box<dyn Player>>, seed: u64) -> (r: Game)
        ensures
            r@ == (GameView { state: state@, rng: seed }),
            r.seats() == players.len(),
            r.refused() is None,
    {
        Game { state, rng: GameRng::seed_from_u64(seed), players, refused: None }
    }

    /// A copy of the current state.
    pub fn get_state_clone(&self) -> (r: State)
        ensures
            r@ == self@.state,
    {
        self.state.clone()
    }

    /// Whether the state of the game has the shape that the engine works on.
    pub fn is_well_formed(&self) -> (r: bool)
        ensures
            r == self@.state.wf(),
    {
        self.state.is_well_formed()
    }

    /// Whether the resolver accepts the command in the current state.
    pub fn accepts(&self, action: &Action) -> (r: bool)
        ensures
            r == valid_command(self@.state, action@),
    {
        is_valid_command(&self.state, action)
    }

    /// Resolves one command.
    pub fn apply_action(&mut self, action: &Action) -> (status: ResolutionStatus)
        requires
            valid_command(old(self)@.state, action@),
        ensures
            (final(self)@.state, final(self)@.rng) == step(
                old(self)@.state,
                old(self)@.rng,
                action@,
            ),
            final(self)@.state.wf(),
            status == status_of(final(self)@.state),
    {
        apply_action(&mut self.rng, &mut self.state, action)
    }

    /// Resolves one command where the resolver accepts it, and leaves the
    /// game as it is where it does not.
    pub fn try_apply_action(&mut self, action: &Action) -> (r: Option<ResolutionStatus>)
        ensures
            r is Some <==> valid_command(old(self)@.state, action@),
            r is Some ==> (final(self)@.state, final(self)@.rng) == step(
                old(self)@.state,
                old(self)@.rng,
                action@,
            ) && r->0 == status_of(final(self)@.state) && final(self)@.state.wf(),
            r is None ==> final(self)@ == old(self)@,
    {
        if self.accepts(action) {
            Some(apply_action(&mut self.rng, &mut self.state, action))
        } else {
            None
        }
    }

    /// Says who decides next and lists the commands they may choose from.
    pub fn possible_actions(&self) -> (r: (usize, Vec<Action>))
        requires
            self@.state.current_player < 2,
        ensures
            (r.0, issued_view(r.1@)) == possible_actions(self@.state),
    {
        generate_possible_actions(&self.state)
    }
}

/// The state and the generator after the commands were resolved one after
/// the other.
pub open spec fn run(s: StateView, rng: u64, commands: Seq<ActionView>) -> (StateView, u64)
    decreases commands.len(),
{
    if commands.len() == 0 {
        (s, rng)
    } else {
        let before = run(s, rng, commands.drop_last());
        step(before.0, before.1, commands.last())
    }
}

/// Whether the resolver accepts each of the commands in the state that the
/// command meets.
pub open spec fn all_accepted(s: StateView, rng: u64, commands: Seq<ActionView>) -> bool
    decreases commands.len(),
{
    if commands.len() == 0 {
        true
    } else {
        &&& all_accepted(s, rng, commands.drop_last())
        &&& valid_command(run(s, rng, commands.drop_last()).0, commands.last())
    }
}

/// Whether a tick has nothing to do in the state: the state is not
/// well-formed, nobody has a command to choose from, or the seat that
/// decides has no policy.
pub open spec fn idle(s: StateView, seats: nat) -> bool {
    ||| !s.wf()
    ||| possible_actions(s).1.len() == 0
    ||| possible_actions(s).0 >= seats
}

/// Whether a tick plays the command in the state: the state is not idle,
/// the command is one of those offered, and the resolver accepts it.
pub open spec fn playable(s: StateView, seats: nat, action: ActionView) -> bool {
    &&& !idle(s, seats)
    &&& possible_actions(s).1.contains(action)
    &&& valid_command(s, action)
}

/// Whether the commands are a game that ticks play: each of them is playable
/// in the state that it meets.
pub open spec fn all_played(s: StateView, rng: u64, seats: nat, commands: Seq<ActionView>) -> bool
    decreases commands.len(),
{
    if commands.len() == 0 {
        true
    } else {
        &&& all_played(s, rng, seats, commands.drop_last())
        &&& playable(run(s, rng, commands.drop_last()).0, seats, commands.last())
    }
}

/// Whether play has come to a halt: the state is idle, or the policy that
/// was asked last made a choice that is not playable, which was refused.
pub open spec fn halted(s: StateView, seats: nat, refused: Option<ActionView>) -> bool {
    idle(s, seats) || (refused is Some && !playable(s, seats, refused->0))
}

/// A game that ticks play is a run of commands that the resolver accepts.
pub proof fn lemma_played_is_accepted(s: StateView, rng: u64, seats: nat, commands: Seq<ActionView>)
    requires
        all_played(s, rng, seats, commands),
    ensures
        all_accepted(s, rng, commands),
    decreases commands.len(),
{
    if commands.len() > 0 {
        lemma_played_is_accepted(s, rng, seats, commands.drop_last());
    }
}

fn is_offered(offered: &Vec<Action>, action: &Action) -> (r: bool)
    ensures
        r == issued_view(offered@).contains(action@),
{
    let mut i: usize = 0;
    while i < offered.len()
        invariant
            i <= offered.len(),
            forall|k: int| 0 <= k < i ==> issued_view(offered@)[k] != action@,
        decreases offered.len() - i,
    {
        if offered[i].same_as(action) {
            assert(issued_view(offered@)[i as int] == action@);
            return true;
        }
        i += 1;
    }
    false
}

impl Game {
    /// How many seats have a policy.
    pub closed spec fn seats(&self) -> nat {
        self.players.len() as nat
    }

    /// The choice that the latest tick refused, if it refused one.
    pub closed spec fn refused(&self) -> Option<ActionView> {
        match self.refused {
            Some(action) => Some(action@),
            None => None,
        }
    }

    /// The choice that the latest tick refused, if it refused one.
    pub fn last_refused(&self) -> (r: Option<Action>)
        ensures
            r is Some <==> self.refused() is Some,
            r is Some ==> r->0@ == self.refused()->0,
    {
        match &self.refused {
            Some(action) => Some(action.clone()),
            None => None,
        }
    }

    /// What a tick does with the choice of a policy: the command is resolved
    /// where it is one of those offered and the resolver accepts it, and is
    /// refused, with the game as it was, where not.
    pub fn resolve_choice(&mut self, offered: &Vec<Action>, chosen: Action) -> (r: Tick)
        ensures
            final(self).seats() == old(self).seats(),
            old(self)@.state.wf() ==> final(self)@.state.wf(),
            match r {
                Tick::Played(action, status) => {
                    &&& issued_view(offered@).contains(chosen@)
                    &&& valid_command(old(self)@.state, chosen@)
                    &&& action@ == chosen@
                    &&& (final(self)@.state, final(self)@.rng) == step(
                        old(self)@.state,
                        old(self)@.rng,
                        chosen@,
                    )
                    &&& status == status_of(final(self)@.state)
                    &&& final(self).refused() is None
                },
                Tick::Refused(action) => {
                    &&& !(issued_view(offered@).contains(chosen@) && valid_command(
                        old(self)@.state,
                        chosen@,
                    ))
                    &&& action@ == chosen@
                    &&& final(self)@ == old(self)@
                    &&& final(self).refused() == Some(chosen@)
                },
                Tick::Idle => false,
            },
    {
        let known = is_offered(offered, &chosen);
        if known && is_valid_command(&self.state, &chosen) {
            let status = apply_action(&mut self.rng, &mut self.state, &chosen);
            self.refused = None;
            Tick::Played(chosen, status)
        } else {
            self.refused = Some(chosen.clone());
            Tick::Refused(chosen)
        }
    }

    /// One tick of the game: the seat that decides next is shown the
    /// commands it may choose from, its policy chooses one, and the command
    /// is resolved. A choice that was not offered, or that the resolver does
    /// not accept, is handed back and changes nothing. Nothing happens in a
    /// state that is not well-formed.
    pub fn play_tick(&mut self) -> (r: Tick)
        ensures
            old(self)@.state.wf() ==> final(self)@.state.wf(),
            final(self).seats() == old(self).seats(),
            r is Idle <==> idle(old(self)@.state, old(self).seats()),
            match r {
                Tick::Idle => final(self)@ == old(self)@ && final(self).refused() is None,
                Tick::Refused(action) => final(self)@ == old(self)@ && !playable(
                    old(self)@.state,
                    old(self).seats(),
                    action@,
                ) && final(self).refused() == Some(action@),
                Tick::Played(action, status) => {
                    &&& playable(old(self)@.state, old(self).seats(), action@)
                    &&& final(self).refused() is None
                    &&& (final(self)@.state, final(self)@.rng) == step(
                        old(self)@.state,
                        old(self)@.rng,
                        action@,
                    )
                    &&& status == status_of(final(self)@.state)
                },
            },
    {
        if !self.state.is_well_formed() {
            self.refused = None;
            return Tick::Idle;
        }
        let (actor, offered) = generate_possible_actions(&self.state);
        if offered.len() == 0 || actor >= self.players.len() {
            self.refused = None;
            return Tick::Idle;
        }
        let chosen = self.players[actor].decision_fn(&self.state, &offered);
        self.resolve_choice(&offered, chosen)
    }

    /// Plays ticks until one resolves no command, and at most `max_ticks`
    /// of them. Returns the commands that were resolved, in their order: each
    /// was offered to the seat that chose it and accepted by the resolver,
    /// and the game after the call is the game before it with these commands
    /// resolved. Play goes on to the limit unless it comes to a halt: the
    /// log is shorter than `max_ticks` only where the game ends idle, or
    /// with a choice that was refused.
    pub fn play(&mut self, max_ticks: usize) -> (log: Vec<Action>)
        ensures
            old(self)@.state.wf() ==> final(self)@.state.wf(),
            final(self).seats() == old(self).seats(),
            log.len() <= max_ticks,
            all_played(old(self)@.state, old(self)@.rng, old(self).seats(), issued_view(log@)),
            all_accepted(old(self)@.state, old(self)@.rng, issued_view(log@)),
            (final(self)@.state, final(self)@.rng) == run(
                old(self)@.state,
                old(self)@.rng,
                issued_view(log@),
            ),
            log.len() < max_ticks ==> halted(
                final(self)@.state,
                final(self).seats(),
                final(self).refused(),
            ),
    {
        let mut log: Vec<Action> = Vec::new();
        let mut going = true;
        assert(issued_view(log@) =~= Seq::empty());
        while going && log.len() < max_ticks
            invariant
                old(self)@.state.wf() ==> self@.state.wf(),
                self.seats() == old(self).seats(),
                log.len() <= max_ticks,
                all_played(
                    old(self)@.state,
                    old(self)@.rng,
                    old(self).seats(),
                    issued_view(log@),
                ),
                (self@.state, self@.rng) == run(
                    old(self)@.state,
                    old(self)@.rng,
                    issued_view(log@),
                ),
                !going ==> halted(self@.state, self.seats(), self.refused()),
            decreases max_ticks - log.len() + if going { 1int } else { 0int },
        {
            let ghost before = issued_view(log@);
            match self.play_tick() {
                Tick::Played(action, _) => {
                    log.push(action);
                    assert(issued_view(log@).drop_last() =~= before);
                    assert(issued_view(log@).last() == action@);
                },
                _ => {
                    going = false;
                },
            }
        }
        proof {
            lemma_played_is_accepted(
                old(self)@.state,
                old(self)@.rng,
                old(self).seats(),
                issued_view(log@),
            );
        }
        log
    }

    /// Resolves the commands one after the other, up to the first that the
    /// resolver does not accept. Returns how many were resolved.
    pub fn replay(&mut self, commands: &Vec<Action>) -> (done: usize)
        ensures
            old(self)@.state.wf() ==> final(self)@.state.wf(),
            done <= commands.len(),
            all_accepted(old(self)@.state, old(self)@.rng, issued_view(commands@).take(done as int)),
            (final(self)@.state, final(self)@.rng) == run(
                old(self)@.state,
                old(self)@.rng,
                issued_view(commands@).take(done as int),
            ),
            done < commands.len() ==> !valid_command(final(self)@.state, commands[done as int]@),
    {
        let mut done: usize = 0;
        assert(issued_view(commands@).take(0) =~= Seq::empty());
        while done < commands.len()
            invariant
                old(self)@.state.wf() ==> self@.state.wf(),
                done <= commands.len(),
                all_accepted(
                    old(self)@.state,
                    old(self)@.rng,
                    issued_view(commands@).take(done as int),
                ),
                (self@.state, self@.rng) == run(
                    old(self)@.state,
                    old(self)@.rng,
                    issued_view(commands@).take(done as int),
                ),
            decreases commands.len() - done,
        {
            if !is_valid_command(&self.state, &commands[done]) {
                return done;
            }
            apply_action(&mut self.rng, &mut self.state, &commands[done]);
            proof {
                let all = issued_view(commands@);
                assert(all.take(done + 1).drop_last() =~= all.take(done as int));
                assert(all.take(done + 1).last() == commands[done as int]@);
            }
            done += 1;
        }
        done
    }
}

} // verus!
