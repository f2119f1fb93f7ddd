use deckgym::actions::apply_action_helpers::{sample_index, sum_weights, Effect, Mutation};
use deckgym::actions::apply_action::{forecast_action, is_valid_command};
use deckgym::actions::{Action, ResolutionStatus, SimpleAction};
use deckgym::attacks::caterpie::caterpie_find_a;
use deckgym::card_ids::CardId;
use deckgym::database::get_card_by_enum;
use deckgym::game::Tick;
use deckgym::move_generation::move_generation_abilities::{can_use_ability, generate_ability_actions};
use deckgym::players::{EndTurnPlayer, Player};
use deckgym::rng::GameRng;
use deckgym::tool_ids::ToolId;
use deckgym::types::{Card, EnergyType, PlayedCard, TrainerCard};
use deckgym::{generate_possible_actions, Deck, Game, State};

fn card(id: CardId) -> Card {
    get_card_by_enum(id)
}

fn trainer(id: CardId) -> TrainerCard {
    match get_card_by_enum(id) {
        Card::Trainer(t) => t,
        Card::Pokemon(_) => panic!("a trainer card was expected"),
    }
}

fn in_play(id: CardId, energy: Vec<EnergyType>) -> PlayedCard {
    let card = get_card_by_enum(id);
    let hp = match &card {
        Card::Pokemon(p) => p.hp,
        _ => 0,
    };
    PlayedCard::new(card, hp, hp, energy, false, vec![])
}

fn two_seats() -> Vec<Box<dyn Player>> {
    vec![
        Box::new(EndTurnPlayer { deck: Deck::default() }),
        Box::new(EndTurnPlayer { deck: Deck::default() }),
    ]
}

fn by(actor: usize, action: SimpleAction) -> Action {
    Action { actor, action, is_stack: false }
}

fn stacked(actor: usize, action: SimpleAction) -> Action {
    Action { actor, action, is_stack: true }
}

fn resolve(state: State, seed: u64, action: Action) -> (State, ResolutionStatus) {
    let mut game = Game::from_state(state, two_seats(), seed);
    assert!(game.is_well_formed());
    let status = game.try_apply_action(&action).expect("the command is accepted");
    assert!(game.is_well_formed());
    (game.get_state_clone(), status)
}

#[test]
fn default_state_is_empty_and_well_formed() {
    let state = State::default();
    assert!(state.is_well_formed());
    assert_eq!(state.turn_count, 0);
    assert_eq!(state.current_player, 0);
    assert!(state.move_generation_stack.is_empty());
    assert_eq!(state.current_energy, None);
    for p in 0..2 {
        assert!(state.decks[p].cards.is_empty());
        assert!(state.hands[p].is_empty());
        assert!(state.discard_piles[p].is_empty());
        for i in 0..4 {
            assert_eq!(state.in_play_pokemon[p][i], None);
        }
    }
}

#[test]
fn ill_formed_states_are_recognised() {
    let mut state = State::default();
    state.current_player = 2;
    assert!(!state.is_well_formed());

    let mut state = State::default();
    let mut hurt = in_play(CardId::A1001Bulbasaur, vec![]);
    hurt.remaining_hp = 0;
    state.in_play_pokemon[1][2] = Some(hurt);
    assert!(!state.is_well_formed());

    let mut state = State::default();
    let mut swollen = in_play(CardId::A1001Bulbasaur, vec![]);
    swollen.remaining_hp = swollen.total_hp + 1;
    state.in_play_pokemon[0][0] = Some(swollen);
    assert!(!state.is_well_formed());

    let mut state = State::default();
    state.in_play_pokemon[0][0] =
        Some(PlayedCard::new(card(CardId::PA001Potion), 10, 10, vec![], false, vec![]));
    assert!(!state.is_well_formed());

    let mut state = State::default();
    state.move_generation_stack.push((5, vec![SimpleAction::Noop]));
    assert!(!state.is_well_formed());
}

#[test]
fn generator_is_a_function_of_the_seed() {
    let mut a = GameRng::seed_from_u64(42);
    let mut b = GameRng::seed_from_u64(42);
    let mut c = GameRng::seed_from_u64(43);
    let first: Vec<u64> = (0..8).map(|_| a.next_u64()).collect();
    let second: Vec<u64> = (0..8).map(|_| b.next_u64()).collect();
    let third: Vec<u64> = (0..8).map(|_| c.next_u64()).collect();
    assert_eq!(first, second);
    assert_ne!(first, third);
    // The first numbers of the generator for the seed 0.
    let mut z = GameRng::seed_from_u64(0);
    assert_eq!(z.next_u64(), 0xE220A8397B1DCDAF);
    assert_eq!(z.next_u64(), 0x6E789E6AA1B965F4);
    assert_eq!(z.state, 0x9E3779B97F4A7C15u64.wrapping_mul(2));
    let mut d = GameRng::seed_from_u64(7);
    for _ in 0..100 {
        assert!(d.gen_below(6) < 6);
    }
    let mut e = GameRng::seed_from_u64(0);
    assert_eq!(e.gen_below(10), 0xE220A8397B1DCDAFu64 % 10);
}

#[test]
fn shuffle_keeps_the_cards() {
    let mut deck = Deck::default();
    deck.cards = vec![
        card(CardId::A1001Bulbasaur),
        card(CardId::A1002Ivysaur),
        card(CardId::A1033Charmander),
        card(CardId::A1001Bulbasaur),
        card(CardId::PA001Potion),
    ];
    deck.energy_types = vec![EnergyType::Grass];
    let initial = deck.clone();
    let mut orders = std::collections::HashSet::new();
    for seed in 0..50u64 {
        let mut copy = initial.clone();
        let mut rng = GameRng::seed_from_u64(seed);
        copy.shuffle(&mut rng);
        assert_eq!(copy.cards.len(), 5);
        assert_eq!(copy.energy_types, initial.energy_types);
        for c in &initial.cards {
            let before = initial.cards.iter().filter(|x| *x == c).count();
            let after = copy.cards.iter().filter(|x| *x == c).count();
            assert_eq!(before, after);
        }
        // Four numbers are taken for five cards.
        let mut expected = GameRng::seed_from_u64(seed);
        for _ in 0..4 {
            expected.next_u64();
        }
        assert_eq!(rng, expected);
        orders.insert(format!("{:?}", copy.cards));

        let mut again = initial.clone();
        let mut rng_again = GameRng::seed_from_u64(seed);
        again.shuffle(&mut rng_again);
        assert_eq!(again, copy);
    }
    assert!(orders.len() > 1);

    let mut empty = Deck::default();
    let mut rng = GameRng::seed_from_u64(3);
    empty.shuffle(&mut rng);
    assert!(empty.cards.is_empty());
    assert_eq!(rng, GameRng::seed_from_u64(3));
}

#[test]
fn draw_takes_the_top_card() {
    let mut deck = Deck::default();
    deck.cards = vec![card(CardId::A1001Bulbasaur), card(CardId::A1002Ivysaur)];
    assert_eq!(deck.draw(), Some(card(CardId::A1001Bulbasaur)));
    assert_eq!(deck.draw(), Some(card(CardId::A1002Ivysaur)));
    assert_eq!(deck.draw(), None);
    assert!(deck.cards.is_empty());
}

#[test]
fn sampling_goes_by_cumulative_weight() {
    let weights = vec![2u64, 0, 3, 1];
    assert_eq!(sum_weights(&weights), 6);
    assert_eq!(sample_index(&weights, 0), 0);
    assert_eq!(sample_index(&weights, 1), 0);
    assert_eq!(sample_index(&weights, 2), 2);
    assert_eq!(sample_index(&weights, 4), 2);
    assert_eq!(sample_index(&weights, 5), 3);
    // A draw that no cumulative weight exceeds selects the last outcome.
    assert_eq!(sample_index(&weights, 6), 3);
    assert_eq!(sample_index(&weights, u64::MAX), 3);
    assert_eq!(sample_index(&vec![1u64], 0), 0);
    // Equal weights: the first of them whose cumulative weight exceeds the draw.
    assert_eq!(sample_index(&vec![1u64, 1, 1], 1), 1);
}

#[test]
fn find_a_friend_has_one_outcome_for_each_grass_creature() {
    let mut state = State::default();
    state.decks[1].cards = vec![
        card(CardId::A1033Charmander),
        card(CardId::A1001Bulbasaur),
        card(CardId::PA001Potion),
        card(CardId::A1002Ivysaur),
        card(CardId::A1001Bulbasaur),
    ];
    let (weights, mutations) = caterpie_find_a(1, &state);
    assert_eq!(weights, vec![1, 1, 1]);
    assert_eq!(
        mutations,
        vec![
            Mutation::Attack { damage: 0, effect: Effect::FetchCard(card(CardId::A1001Bulbasaur)) },
            Mutation::Attack { damage: 0, effect: Effect::FetchCard(card(CardId::A1002Ivysaur)) },
            Mutation::Attack { damage: 0, effect: Effect::FetchCard(card(CardId::A1001Bulbasaur)) },
        ]
    );
    // Each weight over the total is a probability, and they sum to one.
    let total = sum_weights(&weights) as f64;
    let sum: f64 = weights.iter().map(|w| *w as f64 / total).sum();
    assert!((sum - 1.0).abs() < 1e-6);
    assert!(weights.iter().all(|w| (*w as f64 / total - 1.0 / 3.0).abs() < 1e-6));

    let (weights, mutations) = caterpie_find_a(0, &state);
    assert_eq!(weights, vec![1]);
    assert_eq!(mutations, vec![Mutation::Attack { damage: 0, effect: Effect::ShuffleDeck }]);
}

#[test]
fn outcome_sets_have_a_weight_for_each_transform() {
    let mut state = State::default();
    state.decks[0].cards = vec![
        card(CardId::A1033Charmander),
        card(CardId::A1002Ivysaur),
        card(CardId::PA001Potion),
        card(CardId::A1130Ralts),
    ];
    state.decks[1].energy_types = vec![EnergyType::Fire, EnergyType::Water, EnergyType::Grass];
    state.hands[0] = vec![card(CardId::PA005PokeBall), card(CardId::PA007ProfessorsResearch)];
    state.in_play_pokemon[0][0] = Some(in_play(CardId::A3a027Shiinotic, vec![EnergyType::Grass]));
    assert!(state.is_well_formed());

    let commands = vec![
        by(0, SimpleAction::EndTurn),
        by(0, SimpleAction::UseAbility(0)),
        by(0, SimpleAction::Play { trainer_card: trainer(CardId::PA005PokeBall) }),
        by(0, SimpleAction::Play { trainer_card: trainer(CardId::PA007ProfessorsResearch) }),
        by(0, SimpleAction::DrawCard { amount: 2 }),
        by(0, SimpleAction::Noop),
    ];
    let expected = [3usize, 3, 2, 1, 1, 1];
    for (command, n) in commands.iter().zip(expected) {
        assert!(is_valid_command(&state, command));
        let (weights, mutations) = forecast_action(&state, command);
        assert_eq!(weights.len(), mutations.len());
        assert_eq!(weights.len(), n);
        let total = sum_weights(&weights) as f64;
        assert!(total > 0.0);
        let sum: f64 = weights.iter().map(|w| *w as f64 / total).sum();
        assert!((sum - 1.0).abs() < 1e-6);
    }
    let (_, mutations) = forecast_action(&state, &commands[0]);
    assert_eq!(
        mutations,
        vec![
            Mutation::AdvanceTurn(Some(EnergyType::Fire)),
            Mutation::AdvanceTurn(Some(EnergyType::Water)),
            Mutation::AdvanceTurn(Some(EnergyType::Grass)),
        ]
    );
    let (_, mutations) = forecast_action(&state, &commands[2]);
    assert_eq!(
        mutations,
        vec![
            Mutation::Trainer {
                trainer_card: trainer(CardId::PA005PokeBall),
                effect: Effect::FetchCard(card(CardId::A1033Charmander)),
            },
            Mutation::Trainer {
                trainer_card: trainer(CardId::PA005PokeBall),
                effect: Effect::FetchCard(card(CardId::A1130Ralts)),
            },
        ]
    );
}

#[test]
fn can_use_ability_follows_the_table() {
    let fresh = |id: CardId| in_play(id, vec![]);
    let used = |id: CardId| {
        let mut c = in_play(id, vec![]);
        c.ability_used = true;
        c
    };
    let check = |index: usize, c: &PlayedCard| can_use_ability(&(index, c));
    assert!(check(0, &fresh(CardId::A1007Butterfree)));
    assert!(check(2, &fresh(CardId::A1007Butterfree)));
    assert!(!check(2, &used(CardId::A1007Butterfree)));
    assert!(check(0, &fresh(CardId::A1177Weezing)));
    assert!(!check(1, &fresh(CardId::A1177Weezing)));
    assert!(!check(0, &used(CardId::A1177Weezing)));
    assert!(check(3, &fresh(CardId::A1132Gardevoir)));
    assert!(!check(3, &used(CardId::A1132Gardevoir)));
    assert!(!check(0, &fresh(CardId::A3122SolgaleoEx)));
    assert!(check(1, &fresh(CardId::A3122SolgaleoEx)));
    assert!(!check(1, &used(CardId::A3122SolgaleoEx)));
    assert!(check(0, &fresh(CardId::A3a027Shiinotic)));
    assert!(!check(0, &used(CardId::A3a027Shiinotic)));
    assert!(!check(0, &fresh(CardId::A2a071ArceusEx)));
    assert!(!check(1, &fresh(CardId::A3b034SylveonEx)));
    assert!(check(0, &fresh(CardId::A1020Victreebel)));
    assert!(!check(1, &fresh(CardId::A1020Victreebel)));
    assert!(!check(0, &used(CardId::A1020Victreebel)));
    assert!(!check(0, &fresh(CardId::A1001Bulbasaur)));
}

#[test]
fn ability_actions_name_the_slots_in_order() {
    let mut state = State::default();
    state.current_player = 1;
    state.in_play_pokemon[1][0] = Some(in_play(CardId::A1177Weezing, vec![]));
    state.in_play_pokemon[1][1] = Some(in_play(CardId::A1001Bulbasaur, vec![]));
    state.in_play_pokemon[1][3] = Some(in_play(CardId::A1132Gardevoir, vec![]));
    state.in_play_pokemon[0][0] = Some(in_play(CardId::A1007Butterfree, vec![]));
    assert_eq!(
        generate_ability_actions(&state),
        vec![SimpleAction::UseAbility(0), SimpleAction::UseAbility(3)]
    );
    state.current_player = 0;
    assert_eq!(generate_ability_actions(&state), vec![SimpleAction::UseAbility(0)]);
    assert_eq!(generate_ability_actions(&State::default()), vec![]);
}

#[test]
fn draw_card_moves_cards_from_the_top_of_the_deck() {
    let mut state = State::default();
    state.decks[0].cards = vec![
        card(CardId::A1001Bulbasaur),
        card(CardId::A1002Ivysaur),
        card(CardId::A1033Charmander),
    ];
    state.hands[0] = vec![card(CardId::PA001Potion)];
    let (after, status) = resolve(state.clone(), 0, by(0, SimpleAction::DrawCard { amount: 2 }));
    assert_eq!(status, ResolutionStatus::Complete);
    assert_eq!(
        after.hands[0],
        vec![card(CardId::PA001Potion), card(CardId::A1001Bulbasaur), card(CardId::A1002Ivysaur)]
    );
    assert_eq!(after.decks[0].cards, vec![card(CardId::A1033Charmander)]);

    let (after, _) = resolve(state.clone(), 0, by(0, SimpleAction::DrawCard { amount: 9 }));
    assert_eq!(after.hands[0].len(), 4);
    assert!(after.decks[0].cards.is_empty());

    let (after, _) = resolve(state.clone(), 0, by(1, SimpleAction::DrawCard { amount: 1 }));
    assert_eq!(after, state);
}

#[test]
fn place_and_evolve_use_the_card_from_the_hand() {
    let bulbasaur = card(CardId::A1001Bulbasaur);
    let ivysaur = card(CardId::A1002Ivysaur);
    let mut state = State::default();
    state.hands[0] = vec![ivysaur, bulbasaur, bulbasaur];
    let (after, _) = resolve(state.clone(), 0, by(0, SimpleAction::Place(bulbasaur, 1)));
    assert_eq!(after.hands[0], vec![ivysaur, bulbasaur]);
    let placed = after.in_play_pokemon[0][1].as_ref().unwrap();
    assert_eq!(placed.card, bulbasaur);
    assert_eq!((placed.remaining_hp, placed.total_hp), (70, 70));
    assert!(placed.played_this_turn);
    assert!(placed.attached_energy.is_empty());

    // A creature that entered play this turn does not evolve.
    let game = Game::from_state(after.clone(), two_seats(), 0);
    assert!(!game.accepts(&by(0, SimpleAction::Evolve(ivysaur, 1))));
    // Nor does a card go into a slot that is taken, or a card that is not held.
    assert!(!game.accepts(&by(0, SimpleAction::Place(bulbasaur, 1))));
    assert!(!game.accepts(&by(0, SimpleAction::Place(card(CardId::A1033Charmander), 2))));
    assert!(!game.accepts(&by(0, SimpleAction::Place(ivysaur, 2))));
    assert!(!game.accepts(&by(0, SimpleAction::Place(bulbasaur, 4))));

    let mut state = after;
    {
        let c = state.in_play_pokemon[0][1].as_mut().unwrap();
        c.played_this_turn = false;
        c.remaining_hp = 30;
        c.attached_energy = vec![EnergyType::Grass];
        c.poisoned = true;
        c.ability_used = true;
    }
    let (after, _) = resolve(state, 0, by(0, SimpleAction::Evolve(ivysaur, 1)));
    let evolved = after.in_play_pokemon[0][1].as_ref().unwrap();
    assert_eq!(evolved.card, ivysaur);
    assert_eq!((evolved.remaining_hp, evolved.total_hp), (50, 90));
    assert_eq!(evolved.attached_energy, vec![EnergyType::Grass]);
    assert_eq!(evolved.cards_behind, vec![bulbasaur]);
    assert!(evolved.played_this_turn);
    assert!(!evolved.poisoned);
    assert!(!evolved.ability_used);
    assert_eq!(after.hands[0], vec![bulbasaur]);
}

#[test]
fn retreat_pays_energy_and_switches() {
    let mut state = State::default();
    state.in_play_pokemon[0][0] = Some(in_play(
        CardId::A1002Ivysaur,
        vec![EnergyType::Fire, EnergyType::Grass, EnergyType::Water],
    ));
    state.in_play_pokemon[0][0].as_mut().unwrap().poisoned = true;
    state.in_play_pokemon[0][2] = Some(in_play(CardId::A1033Charmander, vec![]));
    let (after, _) = resolve(state.clone(), 0, by(0, SimpleAction::Retreat(2)));
    assert!(after.has_retreated);
    assert_eq!(after.in_play_pokemon[0][0].as_ref().unwrap().card, card(CardId::A1033Charmander));
    let benched = after.in_play_pokemon[0][2].as_ref().unwrap();
    assert_eq!(benched.card, card(CardId::A1002Ivysaur));
    assert_eq!(benched.attached_energy, vec![EnergyType::Water]);
    assert!(!benched.poisoned);

    let game = Game::from_state(state.clone(), two_seats(), 0);
    assert!(!game.accepts(&by(0, SimpleAction::Retreat(0))));
    assert!(!game.accepts(&by(0, SimpleAction::Retreat(1))));
    assert!(!game.accepts(&by(1, SimpleAction::Retreat(2))));
    state.in_play_pokemon[0][0].as_mut().unwrap().attached_energy = vec![EnergyType::Fire];
    let game = Game::from_state(state, two_seats(), 0);
    assert!(!game.accepts(&by(0, SimpleAction::Retreat(2))));
}

#[test]
fn attach_adds_energies_in_order() {
    let mut state = State::default();
    state.current_energy = Some(EnergyType::Fire);
    state.in_play_pokemon[1][0] = Some(in_play(CardId::A1033Charmander, vec![EnergyType::Water]));
    state.in_play_pokemon[1][2] = Some(in_play(CardId::A1001Bulbasaur, vec![]));
    let attach = SimpleAction::Attach {
        attachments: vec![(2, EnergyType::Fire, 0), (1, EnergyType::Grass, 2), (1, EnergyType::Metal, 0)],
        is_turn_energy: false,
    };
    let (after, _) = resolve(state.clone(), 0, by(1, attach));
    assert_eq!(
        after.in_play_pokemon[1][0].as_ref().unwrap().attached_energy,
        vec![EnergyType::Water, EnergyType::Fire, EnergyType::Fire, EnergyType::Metal]
    );
    assert_eq!(after.in_play_pokemon[1][2].as_ref().unwrap().attached_energy, vec![EnergyType::Grass]);
    assert_eq!(after.current_energy, Some(EnergyType::Fire));

    let turn = SimpleAction::Attach { attachments: vec![(1, EnergyType::Fire, 0)], is_turn_energy: true };
    let (after, _) = resolve(state.clone(), 0, by(1, turn));
    assert_eq!(after.current_energy, None);
    assert_eq!(
        after.in_play_pokemon[1][0].as_ref().unwrap().attached_energy,
        vec![EnergyType::Water, EnergyType::Fire]
    );

    let game = Game::from_state(state, two_seats(), 0);
    let empty_slot = SimpleAction::Attach { attachments: vec![(1, EnergyType::Fire, 1)], is_turn_energy: false };
    assert!(!game.accepts(&by(1, empty_slot)));
    let no_slot = SimpleAction::Attach { attachments: vec![(1, EnergyType::Fire, 7)], is_turn_energy: false };
    assert!(!game.accepts(&by(1, no_slot)));
}

#[test]
fn tool_raises_the_hit_points() {
    let mut state = State::default();
    state.in_play_pokemon[0][1] = Some(in_play(CardId::A1001Bulbasaur, vec![]));
    state.in_play_pokemon[0][1].as_mut().unwrap().remaining_hp = 40;
    let attach = SimpleAction::AttachTool { in_play_idx: 1, tool_id: ToolId::A2147GiantCape };
    let (after, _) = resolve(state.clone(), 0, by(0, attach.clone()));
    let c = after.in_play_pokemon[0][1].as_ref().unwrap();
    assert_eq!(c.attached_tool, Some(ToolId::A2147GiantCape));
    assert_eq!((c.remaining_hp, c.total_hp), (60, 90));
    let game = Game::from_state(after, two_seats(), 0);
    assert!(!game.accepts(&by(0, attach)));
}

#[test]
fn heal_stops_at_the_maximum() {
    let mut state = State::default();
    state.in_play_pokemon[0][0] = Some(in_play(CardId::A1001Bulbasaur, vec![]));
    state.in_play_pokemon[0][0].as_mut().unwrap().remaining_hp = 40;
    let (after, _) = resolve(state.clone(), 0, by(0, SimpleAction::Heal { in_play_idx: 0, amount: 20 }));
    assert_eq!(after.in_play_pokemon[0][0].as_ref().unwrap().remaining_hp, 60);
    let (after, _) = resolve(state.clone(), 0, by(0, SimpleAction::Heal { in_play_idx: 0, amount: 30 }));
    assert_eq!(after.in_play_pokemon[0][0].as_ref().unwrap().remaining_hp, 70);
    let (after, _) = resolve(state.clone(), 0, by(0, SimpleAction::Heal { in_play_idx: 0, amount: u32::MAX }));
    assert_eq!(after.in_play_pokemon[0][0].as_ref().unwrap().remaining_hp, 70);
    let game = Game::from_state(state, two_seats(), 0);
    assert!(!game.accepts(&by(0, SimpleAction::Heal { in_play_idx: 1, amount: 10 })));
}

#[test]
fn damage_knocks_out_and_asks_for_a_new_active_creature() {
    let mut state = State::default();
    let mut ivysaur = in_play(CardId::A1002Ivysaur, vec![EnergyType::Grass]);
    ivysaur.cards_behind = vec![card(CardId::A1001Bulbasaur)];
    state.in_play_pokemon[1][0] = Some(ivysaur);
    state.in_play_pokemon[1][1] = Some(in_play(CardId::A1033Charmander, vec![]));
    state.in_play_pokemon[1][3] = Some(in_play(CardId::A1130Ralts, vec![]));
    state.in_play_pokemon[0][0] = Some(in_play(CardId::A1005Caterpie, vec![]));

    let hit = SimpleAction::ApplyDamage { targets: vec![(89, 0), (10, 1)] };
    let (after, status) = resolve(state.clone(), 0, by(0, hit));
    assert_eq!(status, ResolutionStatus::Complete);
    assert_eq!(after.in_play_pokemon[1][0].as_ref().unwrap().remaining_hp, 1);
    assert_eq!(after.in_play_pokemon[1][1].as_ref().unwrap().remaining_hp, 50);
    assert!(after.discard_piles[1].is_empty());

    let knock = SimpleAction::ApplyDamage { targets: vec![(90, 0), (60, 1)] };
    let (after, status) = resolve(state.clone(), 0, by(0, knock));
    assert_eq!(status, ResolutionStatus::AwaitStackedDecision);
    assert_eq!(after.in_play_pokemon[1][0], None);
    assert_eq!(after.in_play_pokemon[1][1], None);
    assert_eq!(
        after.discard_piles[1],
        vec![card(CardId::A1001Bulbasaur), card(CardId::A1002Ivysaur), card(CardId::A1033Charmander)]
    );
    let (actor, actions) = generate_possible_actions(&after);
    assert_eq!(actor, 1);
    assert_eq!(actions, vec![stacked(1, SimpleAction::Activate { in_play_idx: 3 })]);

    let (after, status) = resolve(after, 0, actions[0].clone());
    assert_eq!(status, ResolutionStatus::Complete);
    assert_eq!(after.in_play_pokemon[1][0].as_ref().unwrap().card, card(CardId::A1130Ralts));
    assert_eq!(after.in_play_pokemon[1][3], None);
}

#[test]
fn plain_attack_damages_the_opposing_active_creature() {
    let mut state = State::default();
    state.in_play_pokemon[0][0] =
        Some(in_play(CardId::A1001Bulbasaur, vec![EnergyType::Grass, EnergyType::Fire]));
    state.in_play_pokemon[1][0] = Some(in_play(CardId::A1033Charmander, vec![]));
    let (after, status) = resolve(state.clone(), 0, by(0, SimpleAction::Attack(0)));
    assert_eq!(status, ResolutionStatus::AwaitStackedDecision);
    assert_eq!(after.in_play_pokemon[1][0].as_ref().unwrap().remaining_hp, 20);
    assert_eq!(after.move_generation_stack, vec![(0, vec![SimpleAction::EndTurn])]);

    let game = Game::from_state(state.clone(), two_seats(), 0);
    assert!(!game.accepts(&by(0, SimpleAction::Attack(1))));
    assert!(!game.accepts(&by(1, SimpleAction::Attack(0))));
    state.in_play_pokemon[0][0].as_mut().unwrap().attached_energy = vec![EnergyType::Fire, EnergyType::Fire];
    let game = Game::from_state(state, two_seats(), 0);
    assert!(!game.accepts(&by(0, SimpleAction::Attack(0))));
}

#[test]
fn end_turn_passes_the_turn() {
    let mut state = State::default();
    state.turn_count = 4;
    state.has_played_support = true;
    state.has_retreated = true;
    state.current_energy = Some(EnergyType::Grass);
    state.decks[1].energy_types = vec![EnergyType::Fire];
    let mut weezing = in_play(CardId::A1177Weezing, vec![]);
    weezing.ability_used = true;
    weezing.played_this_turn = true;
    state.in_play_pokemon[0][0] = Some(weezing);
    let mut charmander = in_play(CardId::A1033Charmander, vec![]);
    charmander.poisoned = true;
    state.in_play_pokemon[1][0] = Some(charmander);

    let (after, status) = resolve(state, 9, by(0, SimpleAction::EndTurn));
    assert_eq!(status, ResolutionStatus::AwaitStackedDecision);
    assert_eq!(after.current_player, 1);
    assert_eq!(after.turn_count, 5);
    assert!(!after.has_played_support);
    assert!(!after.has_retreated);
    assert_eq!(after.current_energy, Some(EnergyType::Fire));
    let weezing = after.in_play_pokemon[0][0].as_ref().unwrap();
    assert!(!weezing.ability_used);
    assert!(!weezing.played_this_turn);
    assert_eq!(after.in_play_pokemon[1][0].as_ref().unwrap().remaining_hp, 50);
    assert_eq!(after.move_generation_stack, vec![(1, vec![SimpleAction::DrawCard { amount: 1 }])]);

    let mut last = State::default();
    last.turn_count = u32::MAX;
    let (after, _) = resolve(last, 0, by(0, SimpleAction::EndTurn));
    assert_eq!(after.turn_count, u32::MAX);
    assert_eq!(after.current_energy, None);
}

#[test]
fn trainers_are_discarded_and_take_effect() {
    let potion = trainer(CardId::PA001Potion);
    let research = trainer(CardId::PA007ProfessorsResearch);
    let sabrina = trainer(CardId::A1225Sabrina);
    let cape = trainer(CardId::A2147GiantCape);
    let mut state = State::default();
    state.hands[0] = vec![
        Card::Trainer(potion),
        Card::Trainer(research),
        Card::Trainer(sabrina),
        Card::Trainer(cape),
    ];
    state.decks[0].cards = vec![card(CardId::A1001Bulbasaur), card(CardId::A1002Ivysaur), card(CardId::A1033Charmander)];
    state.in_play_pokemon[0][0] = Some(in_play(CardId::A1005Caterpie, vec![]));
    state.in_play_pokemon[0][0].as_mut().unwrap().remaining_hp = 10;
    state.in_play_pokemon[0][1] = Some(in_play(CardId::A1001Bulbasaur, vec![]));
    state.in_play_pokemon[1][0] = Some(in_play(CardId::A1033Charmander, vec![]));
    state.in_play_pokemon[1][2] = Some(in_play(CardId::A1002Ivysaur, vec![]));

    let (after, status) = resolve(state.clone(), 0, by(0, SimpleAction::Play { trainer_card: potion }));
    assert_eq!(status, ResolutionStatus::AwaitStackedDecision);
    assert_eq!(after.hands[0].len(), 3);
    assert_eq!(after.discard_piles[0], vec![Card::Trainer(potion)]);
    assert!(!after.has_played_support);
    assert_eq!(
        after.move_generation_stack,
        vec![(0, vec![SimpleAction::Heal { in_play_idx: 0, amount: 20 }])]
    );

    let (after, status) = resolve(state.clone(), 0, by(0, SimpleAction::Play { trainer_card: research }));
    assert_eq!(status, ResolutionStatus::Complete);
    assert!(after.has_played_support);
    assert_eq!(after.hands[0].len(), 5);
    assert_eq!(after.decks[0].cards, vec![card(CardId::A1033Charmander)]);
    let (_, offered) = generate_possible_actions(&after);
    assert!(!offered.contains(&by(0, SimpleAction::Play { trainer_card: sabrina })));
    assert!(offered.contains(&by(0, SimpleAction::Play { trainer_card: potion })));

    let (after, _) = resolve(state.clone(), 0, by(0, SimpleAction::Play { trainer_card: sabrina }));
    assert_eq!(
        after.move_generation_stack,
        vec![(1, vec![SimpleAction::Activate { in_play_idx: 2 }])]
    );

    let (after, _) = resolve(state.clone(), 0, by(0, SimpleAction::Play { trainer_card: cape }));
    assert_eq!(
        after.move_generation_stack,
        vec![(
            0,
            vec![
                SimpleAction::AttachTool { in_play_idx: 0, tool_id: ToolId::A2147GiantCape },
                SimpleAction::AttachTool { in_play_idx: 1, tool_id: ToolId::A2147GiantCape },
            ]
        )]
    );

    let game = Game::from_state(state, two_seats(), 0);
    assert!(!game.accepts(&by(1, SimpleAction::Play { trainer_card: potion })));
    assert!(!game.accepts(&by(0, SimpleAction::Play { trainer_card: trainer(CardId::PA005PokeBall) })));
}

#[test]
fn abilities_take_effect() {
    let mut state = State::default();
    let mut butterfree = in_play(CardId::A1007Butterfree, vec![]);
    butterfree.remaining_hp = 100;
    state.in_play_pokemon[0][1] = Some(butterfree);
    let mut gardevoir = in_play(CardId::A1132Gardevoir, vec![]);
    gardevoir.remaining_hp = 95;
    state.in_play_pokemon[0][0] = Some(gardevoir);
    state.in_play_pokemon[0][2] = Some(in_play(CardId::A3122SolgaleoEx, vec![]));
    state.in_play_pokemon[1][0] = Some(in_play(CardId::A1033Charmander, vec![]));
    state.in_play_pokemon[1][0].as_mut().unwrap().remaining_hp = 5;

    let (after, _) = resolve(state.clone(), 0, by(0, SimpleAction::UseAbility(1)));
    assert_eq!(after.in_play_pokemon[0][0].as_ref().unwrap().remaining_hp, 110);
    assert_eq!(after.in_play_pokemon[0][1].as_ref().unwrap().remaining_hp, 120);
    assert!(after.in_play_pokemon[0][1].as_ref().unwrap().ability_used);
    assert_eq!(after.in_play_pokemon[1][0].as_ref().unwrap().remaining_hp, 5);

    let (after, _) = resolve(state.clone(), 0, by(0, SimpleAction::UseAbility(0)));
    let gardevoir = after.in_play_pokemon[0][0].as_ref().unwrap();
    assert_eq!(gardevoir.attached_energy, vec![EnergyType::Psychic]);
    assert!(gardevoir.ability_used);

    let (after, _) = resolve(state.clone(), 0, by(0, SimpleAction::UseAbility(2)));
    let solgaleo = after.in_play_pokemon[0][0].as_ref().unwrap();
    assert_eq!(solgaleo.card, card(CardId::A3122SolgaleoEx));
    assert!(solgaleo.ability_used);
    assert_eq!(after.in_play_pokemon[0][2].as_ref().unwrap().card, card(CardId::A1132Gardevoir));
    let (_, offered) = generate_possible_actions(&after);
    assert!(!offered.contains(&by(0, SimpleAction::UseAbility(0))));
    assert!(offered.contains(&by(0, SimpleAction::UseAbility(2))));
}

#[test]
fn main_decision_lists_the_legal_commands() {
    let bulbasaur = card(CardId::A1001Bulbasaur);
    let ivysaur = card(CardId::A1002Ivysaur);
    let potion = trainer(CardId::PA001Potion);
    let mut state = State::default();
    state.turn_count = 2;
    state.current_energy = Some(EnergyType::Grass);
    state.hands[0] = vec![bulbasaur, ivysaur, Card::Trainer(potion), bulbasaur];
    state.in_play_pokemon[0][0] =
        Some(in_play(CardId::A1001Bulbasaur, vec![EnergyType::Grass, EnergyType::Grass]));
    state.in_play_pokemon[0][2] = Some(in_play(CardId::A1007Butterfree, vec![]));
    state.in_play_pokemon[1][0] = Some(in_play(CardId::A1033Charmander, vec![]));

    let (actor, offered) = generate_possible_actions(&state);
    assert_eq!(actor, 0);
    let expected = vec![
        by(0, SimpleAction::EndTurn),
        by(0, SimpleAction::Place(bulbasaur, 1)),
        by(0, SimpleAction::Place(bulbasaur, 3)),
        by(0, SimpleAction::Evolve(ivysaur, 0)),
        by(0, SimpleAction::Play { trainer_card: potion }),
        by(0, SimpleAction::Attach { attachments: vec![(1, EnergyType::Grass, 0)], is_turn_energy: true }),
        by(0, SimpleAction::Attach { attachments: vec![(1, EnergyType::Grass, 2)], is_turn_energy: true }),
        by(0, SimpleAction::Retreat(2)),
        by(0, SimpleAction::UseAbility(2)),
        by(0, SimpleAction::Attack(0)),
    ];
    assert_eq!(offered, expected);
    // Every command that is offered is accepted by the resolver.
    for action in &offered {
        assert!(is_valid_command(&state, action));
        let mut game = Game::from_state(state.clone(), two_seats(), 3);
        assert!(game.try_apply_action(action).is_some());
        assert!(game.is_well_formed());
    }

    state.has_retreated = true;
    state.current_energy = None;
    let (_, offered) = generate_possible_actions(&state);
    assert!(!offered.contains(&by(0, SimpleAction::Retreat(2))));
    assert!(!offered.iter().any(|a| matches!(a.action, SimpleAction::Attach { .. })));
}

#[test]
fn refused_command_leaves_the_game_as_it_is() {
    let mut state = State::default();
    state.in_play_pokemon[0][0] = Some(in_play(CardId::A1005Caterpie, vec![]));
    let mut game = Game::from_state(state.clone(), two_seats(), 1);
    for action in [
        by(0, SimpleAction::Attack(0)),
        by(2, SimpleAction::Noop),
        by(0, SimpleAction::UseAbility(0)),
        by(0, SimpleAction::Activate { in_play_idx: 1 }),
        by(0, SimpleAction::ForceSwitchOpponent { in_play_idx: 0 }),
        by(0, SimpleAction::ApplyDamage { targets: vec![(10, 0)] }),
        by(0, SimpleAction::Evolve(card(CardId::A1006Metapod), 0)),
    ] {
        assert!(!game.accepts(&action));
        assert_eq!(game.try_apply_action(&action), None);
        assert_eq!(game.get_state_clone(), state);
    }
    assert_eq!(game.try_apply_action(&by(0, SimpleAction::Noop)), Some(ResolutionStatus::Complete));
    assert_eq!(game.get_state_clone(), state);

    let mut broken = State::default();
    broken.current_player = 3;
    let mut game = Game::from_state(broken, two_seats(), 1);
    assert!(!game.is_well_formed());
    assert_eq!(game.try_apply_action(&by(0, SimpleAction::Noop)), None);
}

struct Stubborn;

impl Player for Stubborn {
    fn decision_fn(&mut self, _state: &State, _possible_actions: &Vec<Action>) -> Action {
        Action { actor: 0, action: SimpleAction::Attack(0), is_stack: false }
    }

    fn get_deck(&self) -> Deck {
        Deck::default()
    }
}

#[test]
fn ticks_resolve_what_the_policies_choose() {
    let mut state = State::default();
    state.decks[0].cards = vec![card(CardId::A1001Bulbasaur)];
    state.decks[1].cards = vec![card(CardId::A1033Charmander), card(CardId::A1002Ivysaur)];
    state.in_play_pokemon[0][0] = Some(in_play(CardId::A1005Caterpie, vec![]));
    state.in_play_pokemon[1][0] = Some(in_play(CardId::A1033Charmander, vec![]));

    let mut game = Game::from_state(state.clone(), two_seats(), 4);
    match game.play_tick() {
        Tick::Played(action, status) => {
            assert_eq!(action, by(0, SimpleAction::EndTurn));
            assert_eq!(status, ResolutionStatus::AwaitStackedDecision);
        }
        _ => panic!("a command was expected"),
    }
    let log = game.play(5);
    assert_eq!(
        log,
        vec![
            stacked(1, SimpleAction::DrawCard { amount: 1 }),
            by(1, SimpleAction::EndTurn),
            stacked(0, SimpleAction::DrawCard { amount: 1 }),
            by(0, SimpleAction::EndTurn),
            stacked(1, SimpleAction::DrawCard { amount: 1 }),
        ]
    );
    let after = game.get_state_clone();
    assert_eq!(after.turn_count, 3);
    assert_eq!(after.hands[0], vec![card(CardId::A1001Bulbasaur)]);
    assert_eq!(after.hands[1], vec![card(CardId::A1033Charmander), card(CardId::A1002Ivysaur)]);

    // Replaying the log on a fresh game with the same seed gives the same state.
    let mut again = Game::from_state(state.clone(), two_seats(), 4);
    let mut commands = vec![by(0, SimpleAction::EndTurn)];
    commands.extend(log);
    assert_eq!(again.replay(&commands), commands.len());
    assert_eq!(again.get_state_clone(), after);
    assert_eq!(game.play(0), vec![]);

    // A replay stops at the first command that is not accepted.
    let mut third = Game::from_state(state.clone(), two_seats(), 4);
    let broken = vec![by(0, SimpleAction::EndTurn), by(0, SimpleAction::Attack(0)), by(0, SimpleAction::Noop)];
    assert_eq!(third.replay(&broken), 1);

    let mut nobody = Game::from_state(state.clone(), vec![], 4);
    assert!(matches!(nobody.play_tick(), Tick::Idle));
    assert_eq!(nobody.get_state_clone(), state);

    let players: Vec<Box<dyn Player>> = vec![Box::new(Stubborn), Box::new(Stubborn)];
    let mut refused = Game::from_state(state.clone(), players, 4);
    match refused.play_tick() {
        Tick::Refused(action) => assert_eq!(action, by(0, SimpleAction::Attack(0))),
        _ => panic!("the choice should have been refused"),
    }
    assert_eq!(refused.get_state_clone(), state);
    assert_eq!(refused.play(10), vec![]);
}

#[test]
fn end_turn_player_prefers_to_end_the_turn() {
    let mut player = EndTurnPlayer { deck: Deck::default() };
    let state = State::default();
    let options = vec![
        by(0, SimpleAction::Attack(0)),
        by(0, SimpleAction::EndTurn),
        by(0, SimpleAction::Noop),
        by(0, SimpleAction::EndTurn),
    ];
    assert_eq!(player.decision_fn(&state, &options), by(0, SimpleAction::EndTurn));
    let options = vec![stacked(1, SimpleAction::Activate { in_play_idx: 2 }), stacked(1, SimpleAction::Noop)];
    assert_eq!(player.decision_fn(&state, &options), options[0]);
    let mut deck = Deck::default();
    deck.cards = vec![card(CardId::A1001Bulbasaur)];
    assert_eq!(EndTurnPlayer { deck: deck.clone() }.get_deck(), deck);
}

#[test]
fn catalog_is_total_and_carries_the_identifiers() {
    let ids = [
        CardId::A1001Bulbasaur,
        CardId::A1002Ivysaur,
        CardId::A1005Caterpie,
        CardId::A1006Metapod,
        CardId::A1007Butterfree,
        CardId::A1018Bellsprout,
        CardId::A1019Weepinbell,
        CardId::A1020Victreebel,
        CardId::A1033Charmander,
        CardId::A1130Ralts,
        CardId::A1131Kirlia,
        CardId::A1132Gardevoir,
        CardId::A1176Koffing,
        CardId::A1177Weezing,
        CardId::A2a071ArceusEx,
        CardId::A3122SolgaleoEx,
        CardId::A3a027Shiinotic,
        CardId::A3b034SylveonEx,
        CardId::PA001Potion,
        CardId::PA005PokeBall,
        CardId::PA007ProfessorsResearch,
        CardId::A1225Sabrina,
        CardId::A2147GiantCape,
    ];
    for id in ids {
        let c = get_card_by_enum(id);
        assert_eq!(c.get_id(), id);
        assert_eq!(id.label(), format!("{:?}", id));
        assert_eq!(c.get_name(), id.name());
        match c {
            Card::Pokemon(p) => {
                assert!(p.hp > 0);
                assert_eq!(c.get_type(), Some(p.energy_type));
                assert_eq!(c.is_basic(), p.stage == 0);
                assert!(p.get_attack(0).is_some());
                assert!(p.get_attack(1).is_none());
                assert!(p.get_attack(2).is_none());
            }
            Card::Trainer(_) => {
                assert_eq!(c.get_type(), None);
                assert!(!c.is_basic());
                assert_eq!(c.get_ability(), None);
            }
        }
    }
    assert_eq!(card(CardId::A1005Caterpie).get_name(), "Caterpie");
    assert_eq!(
        card(CardId::A1020Victreebel).get_ability(),
        Some(deckgym::ability_ids::AbilityId::A1020VictreebelFragranceTrap)
    );
    assert_eq!(card(CardId::A1001Bulbasaur).get_ability(), None);
    assert_eq!(ToolId::A2147GiantCape.hp_bonus(), 20);
    assert_eq!(ToolId::A2148RockyHelmet.hp_bonus(), 0);
}

#[test]
fn play_stops_only_at_the_limit_or_at_a_halt() {
    let mut state = State::default();
    state.decks[0].cards = vec![card(CardId::A1001Bulbasaur)];
    state.in_play_pokemon[0][0] = Some(in_play(CardId::A1005Caterpie, vec![]));
    state.in_play_pokemon[1][0] = Some(in_play(CardId::A1033Charmander, vec![]));

    // Policies that end their turns never halt: play goes to the limit.
    let mut game = Game::from_state(state.clone(), two_seats(), 4);
    assert_eq!(game.last_refused(), None);
    for limit in [0usize, 1, 2, 7] {
        let mut game = Game::from_state(state.clone(), two_seats(), 4);
        assert_eq!(game.play(limit).len(), limit);
        assert_eq!(game.last_refused(), None);
    }
    assert_eq!(game.play(3).len(), 3);

    // A choice that is not playable halts the play and is kept.
    let players: Vec<Box<dyn Player>> = vec![Box::new(Stubborn), Box::new(Stubborn)];
    let mut refused = Game::from_state(state.clone(), players, 4);
    assert_eq!(refused.play(10), vec![]);
    assert_eq!(refused.last_refused(), Some(by(0, SimpleAction::Attack(0))));
    assert_eq!(refused.get_state_clone(), state);

    // With a policy for the first seat only, play halts when the second decides.
    let one: Vec<Box<dyn Player>> = vec![Box::new(EndTurnPlayer { deck: Deck::default() })];
    let mut alone = Game::from_state(state.clone(), one, 4);
    assert_eq!(alone.play(10), vec![by(0, SimpleAction::EndTurn)]);
    assert_eq!(alone.last_refused(), None);
    let (actor, offered) = alone.possible_actions();
    assert_eq!(actor, 1);
    assert!(!offered.is_empty());
    assert!(matches!(alone.play_tick(), Tick::Idle));

    // The choice is resolved where it was offered and is accepted, and refused where not.
    let mut game = Game::from_state(state.clone(), two_seats(), 4);
    let (_, offered) = game.possible_actions();
    match game.resolve_choice(&offered, by(0, SimpleAction::Noop)) {
        Tick::Refused(action) => assert_eq!(action, by(0, SimpleAction::Noop)),
        _ => panic!("a command that was not offered should have been refused"),
    }
    assert_eq!(game.last_refused(), Some(by(0, SimpleAction::Noop)));
    match game.resolve_choice(&offered, by(0, SimpleAction::EndTurn)) {
        Tick::Played(action, status) => {
            assert_eq!(action, by(0, SimpleAction::EndTurn));
            assert_eq!(status, ResolutionStatus::AwaitStackedDecision);
        }
        _ => panic!("an offered command should have been played"),
    }
    assert_eq!(game.last_refused(), None);
    assert_eq!(game.get_state_clone().current_player, 1);
}
