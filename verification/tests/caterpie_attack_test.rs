use std::collections::HashMap;

use deckgym::{
    actions::{Action, SimpleAction},
    card_ids::CardId,
    database::get_card_by_enum,
    players::{EndTurnPlayer, Player},
    types::{Card, EnergyType, PlayedCard},
    Deck, Game, State,
};

fn setup_state(deck_a: &Deck, deck_b: &Deck, caterpie_hp: u32, caterpie_card: &Card) -> State {
    let mut state = State::default();
    state.decks[0] = deck_a.clone();
    state.decks[1] = deck_b.clone();
    state.turn_count = 1;
    let active = PlayedCard::new(
        caterpie_card.clone(),
        caterpie_hp,
        caterpie_hp,
        vec![EnergyType::Colorless],
        false,
        vec![],
    );
    state.in_play_pokemon[0][0] = Some(active);
    state
}

fn seats(deck_a: &Deck, deck_b: &Deck) -> Vec<Box<dyn Player>> {
    vec![
        Box::new(EndTurnPlayer { deck: deck_a.clone() }),
        Box::new(EndTurnPlayer { deck: deck_b.clone() }),
    ]
}

fn caterpie_hp(caterpie: &Card) -> u32 {
    match caterpie {
        Card::Pokemon(p) => p.hp,
        _ => 0,
    }
}

fn attack() -> Action {
    Action {
        actor: 0,
        action: SimpleAction::Attack(0),
        is_stack: false,
    }
}

#[test]
fn test_caterpie_attack_retrieves_grass_pokemon() {
    let bulbasaur = get_card_by_enum(CardId::A1001Bulbasaur);
    let ivysaur = get_card_by_enum(CardId::A1002Ivysaur);
    let charmander = get_card_by_enum(CardId::A1033Charmander);
    let caterpie = get_card_by_enum(CardId::A1005Caterpie);

    let mut deck_a = Deck::default();
    deck_a.cards = vec![bulbasaur.clone(), ivysaur.clone(), charmander.clone()];
    let deck_b = Deck::default();

    let hp = match &caterpie {
        Card::Pokemon(p) => p.hp,
        _ => 0,
    };

    let state = setup_state(&deck_a, &deck_b, hp, &caterpie);

    let players: Vec<Box<dyn Player>> = vec![
        Box::new(EndTurnPlayer { deck: deck_a.clone() }),
        Box::new(EndTurnPlayer { deck: deck_b.clone() }),
    ];
    let mut game = Game::from_state(state, players, 0);

    let action = Action {
        actor: 0,
        action: SimpleAction::Attack(0),
        is_stack: false,
    };
    game.apply_action(&action);

    let result_state = game.get_state_clone();
    assert_eq!(result_state.hands[0].len(), 1);
    let card_drawn = &result_state.hands[0][0];
    if let Card::Pokemon(p) = card_drawn {
        assert_eq!(p.energy_type, EnergyType::Grass);
    } else {
        panic!("Expected Pokémon card");
    }
    assert_eq!(result_state.decks[0].cards.len(), 2);
    let energy = &result_state.in_play_pokemon[0][0]
        .as_ref()
        .unwrap()
        .attached_energy;
    assert_eq!(energy, &vec![EnergyType::Colorless]);
}

#[test]
fn test_caterpie_attack_probabilities() {
    let bulbasaur = get_card_by_enum(CardId::A1001Bulbasaur);
    let ivysaur = get_card_by_enum(CardId::A1002Ivysaur);
    let charmander = get_card_by_enum(CardId::A1033Charmander);
    let caterpie = get_card_by_enum(CardId::A1005Caterpie);

    let mut deck_a = Deck::default();
    deck_a.cards = vec![bulbasaur.clone(), ivysaur.clone(), charmander.clone()];
    let deck_b = Deck::default();

    let hp = match &caterpie {
        Card::Pokemon(p) => p.hp,
        _ => 0,
    };

    let iterations = 200;
    let mut counts: HashMap<String, usize> = HashMap::new();

    for i in 0..iterations {
        let state = setup_state(&deck_a, &deck_b, hp, &caterpie);
        let players: Vec<Box<dyn Player>> = vec![
            Box::new(EndTurnPlayer { deck: deck_a.clone() }),
            Box::new(EndTurnPlayer { deck: deck_b.clone() }),
        ];
        let mut game = Game::from_state(state, players, i as u64);
        let action = Action {
            actor: 0,
            action: SimpleAction::Attack(0),
            is_stack: false,
        };
        game.apply_action(&action);
        let card = game.get_state_clone().hands[0][0].get_name();
        *counts.entry(card).or_default() += 1;
    }

    // Should never draw the non-Grass card
    assert!(counts.get(&charmander.get_name()).unwrap_or(&0) == &0);

    let bulba = *counts.get(&bulbasaur.get_name()).unwrap_or(&0) as f64;
    let ivy = *counts.get(&ivysaur.get_name()).unwrap_or(&0) as f64;
    let total = bulba + ivy;
    assert_eq!(total as usize, iterations);

    let prob_bulba = bulba / total;
    let prob_ivy = ivy / total;
    // Both probabilities should be roughly equal
    assert!((prob_bulba - 0.5).abs() < 0.2);
    assert!((prob_ivy - 0.5).abs() < 0.2);
}

#[test]
fn caterpie_attack_without_grass_only_reorders_the_deck() {
    let charmander = get_card_by_enum(CardId::A1033Charmander);
    let potion = get_card_by_enum(CardId::PA001Potion);
    let sabrina = get_card_by_enum(CardId::A1225Sabrina);
    let caterpie = get_card_by_enum(CardId::A1005Caterpie);

    let mut deck_a = Deck::default();
    deck_a.cards = vec![charmander, potion, sabrina, charmander];
    let deck_b = Deck::default();

    for seed in 0..20u64 {
        let mut state = setup_state(&deck_a, &deck_b, caterpie_hp(&caterpie), &caterpie);
        state.hands[0] = vec![potion];
        let mut game = Game::from_state(state, seats(&deck_a, &deck_b), seed);
        game.apply_action(&attack());
        let after = game.get_state_clone();
        assert_eq!(after.hands[0], vec![potion]);
        assert_eq!(after.decks[0].cards.len(), 4);
        let count = |card: &Card| after.decks[0].cards.iter().filter(|c| *c == card).count();
        assert_eq!(count(&charmander), 2);
        assert_eq!(count(&potion), 1);
        assert_eq!(count(&sabrina), 1);
    }
}

#[test]
fn caterpie_attack_takes_the_drawn_card_out_of_the_deck() {
    let bulbasaur = get_card_by_enum(CardId::A1001Bulbasaur);
    let charmander = get_card_by_enum(CardId::A1033Charmander);
    let caterpie = get_card_by_enum(CardId::A1005Caterpie);

    let mut deck_a = Deck::default();
    deck_a.cards = vec![charmander, bulbasaur, charmander, bulbasaur];
    let deck_b = Deck::default();

    let state = setup_state(&deck_a, &deck_b, caterpie_hp(&caterpie), &caterpie);
    let mut game = Game::from_state(state, seats(&deck_a, &deck_b), 7);
    game.apply_action(&attack());
    let after = game.get_state_clone();
    assert_eq!(after.hands[0], vec![bulbasaur]);
    assert_eq!(after.decks[0].cards.len(), 3);
    assert_eq!(after.decks[0].cards.iter().filter(|c| **c == bulbasaur).count(), 1);
    assert_eq!(after.decks[0].cards.iter().filter(|c| **c == charmander).count(), 2);
}

#[test]
fn caterpie_attack_queues_the_end_of_the_turn() {
    let caterpie = get_card_by_enum(CardId::A1005Caterpie);
    let deck = Deck::default();
    let state = setup_state(&deck, &deck, caterpie_hp(&caterpie), &caterpie);
    let mut game = Game::from_state(state, seats(&deck, &deck), 1);
    let status = game.apply_action(&attack());
    assert_eq!(status, deckgym::actions::ResolutionStatus::AwaitStackedDecision);
    let after = game.get_state_clone();
    let (actor, actions) = deckgym::generate_possible_actions(&after);
    assert_eq!(actor, 0);
    assert_eq!(actions.len(), 1);
    assert_eq!(actions[0].action, SimpleAction::EndTurn);
    assert!(actions[0].is_stack);
}

#[test]
fn same_seed_and_commands_give_the_same_game() {
    let bulbasaur = get_card_by_enum(CardId::A1001Bulbasaur);
    let ivysaur = get_card_by_enum(CardId::A1002Ivysaur);
    let charmander = get_card_by_enum(CardId::A1033Charmander);
    let caterpie = get_card_by_enum(CardId::A1005Caterpie);

    let mut deck_a = Deck::default();
    deck_a.cards = vec![bulbasaur, ivysaur, charmander, bulbasaur, charmander];
    deck_a.energy_types = vec![EnergyType::Grass, EnergyType::Fire];
    let mut deck_b = Deck::default();
    deck_b.cards = vec![charmander, charmander];
    deck_b.energy_types = vec![EnergyType::Fire, EnergyType::Water];

    let commands = vec![
        attack(),
        Action { actor: 0, action: SimpleAction::EndTurn, is_stack: true },
        Action { actor: 1, action: SimpleAction::DrawCard { amount: 1 }, is_stack: true },
        Action { actor: 1, action: SimpleAction::EndTurn, is_stack: false },
    ];

    for seed in [0u64, 1, 2, 99, u64::MAX] {
        let mut first = Game::from_state(
            setup_state(&deck_a, &deck_b, caterpie_hp(&caterpie), &caterpie),
            seats(&deck_a, &deck_b),
            seed,
        );
        let mut second = Game::from_state(
            setup_state(&deck_a, &deck_b, caterpie_hp(&caterpie), &caterpie),
            seats(&deck_a, &deck_b),
            seed,
        );
        assert_eq!(first.replay(&commands), commands.len());
        for command in &commands {
            assert!(second.try_apply_action(command).is_some());
        }
        assert_eq!(first.get_state_clone(), second.get_state_clone());
    }
}
