use deckgym::{
    actions::{Action, ResolutionStatus, SimpleAction},
    card_ids::CardId,
    database::get_card_by_enum,
    generate_possible_actions,
    players::{EndTurnPlayer, Player},
    types::{Card, PlayedCard},
    Deck, Game, State,
};

fn fresh_creature(id: CardId) -> PlayedCard {
    let card = get_card_by_enum(id);
    let hp = match &card {
        Card::Pokemon(p) => p.hp,
        _ => 0,
    };
    PlayedCard::new(card, hp, hp, vec![], false, vec![])
}

fn end_turn_seats() -> Vec<Box<dyn Player>> {
    vec![
        Box::new(EndTurnPlayer { deck: Deck::default() }),
        Box::new(EndTurnPlayer { deck: Deck::default() }),
    ]
}

#[test]
fn victreebel_fragrance_trap_switches_basic_from_opponent() {
    let victreebel = get_card_by_enum(CardId::A1020Victreebel);
    let charmander = get_card_by_enum(CardId::A1033Charmander);
    let bulbasaur = get_card_by_enum(CardId::A1001Bulbasaur);
    let ivysaur = get_card_by_enum(CardId::A1002Ivysaur);

    let mut state = State::default();
    state.turn_count = 1;
    let hp_vic = match &victreebel { Card::Pokemon(p) => p.hp, _ => 0 };
    state.in_play_pokemon[0][0] = Some(PlayedCard::new(victreebel.clone(), hp_vic, hp_vic, vec![], false, vec![]));

    let hp_char = match &charmander { Card::Pokemon(p) => p.hp, _ => 0 };
    state.in_play_pokemon[1][0] = Some(PlayedCard::new(charmander.clone(), hp_char, hp_char, vec![], false, vec![]));
    let hp_bulba = match &bulbasaur { Card::Pokemon(p) => p.hp, _ => 0 };
    state.in_play_pokemon[1][1] = Some(PlayedCard::new(bulbasaur.clone(), hp_bulba, hp_bulba, vec![], false, vec![]));
    let hp_ivy = match &ivysaur { Card::Pokemon(p) => p.hp, _ => 0 };
    state.in_play_pokemon[1][2] = Some(PlayedCard::new(ivysaur.clone(), hp_ivy, hp_ivy, vec![], false, vec![]));

    let players: Vec<Box<dyn Player>> = vec![
        Box::new(EndTurnPlayer { deck: Deck::default() }),
        Box::new(EndTurnPlayer { deck: Deck::default() }),
    ];
    let mut game = Game::from_state(state, players, 0);

    let action = Action { actor: 0, action: SimpleAction::UseAbility(0), is_stack: false };
    game.apply_action(&action);

    let state = game.get_state_clone();
    let (actor, actions) = generate_possible_actions(&state);
    assert_eq!(actor, 0);
    assert_eq!(actions.len(), 1);
    assert!(matches!(actions[0].action, SimpleAction::ForceSwitchOpponent { in_play_idx: 1 }));

    let switch_action = Action { actor: 0, action: SimpleAction::ForceSwitchOpponent { in_play_idx: 1 }, is_stack: true };
    game.apply_action(&switch_action);

    let state = game.get_state_clone();
    assert_eq!(state.in_play_pokemon[1][0].as_ref().unwrap().card.get_name(), bulbasaur.get_name());
    assert_eq!(state.in_play_pokemon[1][1].as_ref().unwrap().card.get_name(), charmander.get_name());
    assert_eq!(state.in_play_pokemon[1][2].as_ref().unwrap().card.get_name(), ivysaur.get_name());
}

#[test]
fn forced_switch_with_one_benched_creature_changes_only_the_two_slots() {
    let mut state = State::default();
    state.turn_count = 3;
    state.in_play_pokemon[0][0] = Some(fresh_creature(CardId::A1020Victreebel));
    state.in_play_pokemon[0][2] = Some(fresh_creature(CardId::A1005Caterpie));
    state.in_play_pokemon[1][0] = Some(fresh_creature(CardId::A1033Charmander));
    state.in_play_pokemon[1][3] = Some(fresh_creature(CardId::A1130Ralts));
    let before = state.clone();

    let mut game = Game::from_state(state, end_turn_seats(), 11);
    let status = game.apply_action(&Action {
        actor: 0,
        action: SimpleAction::UseAbility(0),
        is_stack: false,
    });
    assert_eq!(status, ResolutionStatus::AwaitStackedDecision);

    let (actor, actions) = game.possible_actions();
    assert_eq!(actor, 0);
    assert_eq!(
        actions,
        vec![Action {
            actor: 0,
            action: SimpleAction::ForceSwitchOpponent { in_play_idx: 3 },
            is_stack: true,
        }]
    );

    let status = game.apply_action(&actions[0]);
    assert_eq!(status, ResolutionStatus::Complete);
    let after = game.get_state_clone();
    assert_eq!(after.in_play_pokemon[1][0], before.in_play_pokemon[1][3]);
    assert_eq!(after.in_play_pokemon[1][3], before.in_play_pokemon[1][0]);
    assert_eq!(after.in_play_pokemon[1][1], None);
    assert_eq!(after.in_play_pokemon[1][2], None);
    assert_eq!(after.in_play_pokemon[0][2], before.in_play_pokemon[0][2]);
    let victreebel = after.in_play_pokemon[0][0].as_ref().unwrap();
    assert!(victreebel.ability_used);
    assert_eq!(victreebel.card, before.in_play_pokemon[0][0].as_ref().unwrap().card);
    assert!(after.move_generation_stack.is_empty());
}

#[test]
fn fragrance_trap_without_a_basic_target_opens_no_decision() {
    let mut state = State::default();
    state.in_play_pokemon[0][0] = Some(fresh_creature(CardId::A1020Victreebel));
    state.in_play_pokemon[1][0] = Some(fresh_creature(CardId::A1033Charmander));
    state.in_play_pokemon[1][1] = Some(fresh_creature(CardId::A1002Ivysaur));
    let mut game = Game::from_state(state, end_turn_seats(), 0);
    let status = game.apply_action(&Action {
        actor: 0,
        action: SimpleAction::UseAbility(0),
        is_stack: false,
    });
    assert_eq!(status, ResolutionStatus::Complete);
    assert!(game.get_state_clone().move_generation_stack.is_empty());
}

#[test]
fn used_ability_is_not_offered_again_in_the_turn() {
    let mut state = State::default();
    state.in_play_pokemon[0][0] = Some(fresh_creature(CardId::A1177Weezing));
    state.in_play_pokemon[0][1] = Some(fresh_creature(CardId::A1007Butterfree));
    state.in_play_pokemon[1][0] = Some(fresh_creature(CardId::A1033Charmander));
    let mut game = Game::from_state(state, end_turn_seats(), 0);

    let use_ability = |slot: usize| Action {
        actor: 0,
        action: SimpleAction::UseAbility(slot),
        is_stack: false,
    };
    let (_, offered) = game.possible_actions();
    assert!(offered.contains(&use_ability(0)));
    assert!(offered.contains(&use_ability(1)));

    assert_eq!(game.try_apply_action(&use_ability(0)), Some(ResolutionStatus::Complete));
    let (_, offered) = game.possible_actions();
    assert!(!offered.contains(&use_ability(0)));
    assert!(offered.contains(&use_ability(1)));
    let after = game.get_state_clone();
    assert!(after.in_play_pokemon[1][0].as_ref().unwrap().poisoned);
    assert_eq!(
        after.in_play_pokemon[0][0].as_ref().unwrap().card,
        get_card_by_enum(CardId::A1177Weezing)
    );

    // The resolver does not take the command a second time either.
    assert_eq!(game.try_apply_action(&use_ability(0)), None);
    assert_eq!(game.get_state_clone(), after);

    // After the turn has come round, the ability is offered again.
    assert!(game.try_apply_action(&Action { actor: 0, action: SimpleAction::EndTurn, is_stack: false }).is_some());
    assert!(game.try_apply_action(&Action { actor: 1, action: SimpleAction::DrawCard { amount: 1 }, is_stack: true }).is_some());
    assert!(game.try_apply_action(&Action { actor: 1, action: SimpleAction::EndTurn, is_stack: false }).is_some());
    assert!(game.try_apply_action(&Action { actor: 0, action: SimpleAction::DrawCard { amount: 1 }, is_stack: true }).is_some());
    let (actor, offered) = game.possible_actions();
    assert_eq!(actor, 0);
    assert!(offered.contains(&use_ability(0)));
}

#[test]
fn passive_abilities_are_never_offered() {
    let mut state = State::default();
    state.in_play_pokemon[0][0] = Some(fresh_creature(CardId::A2a071ArceusEx));
    state.in_play_pokemon[0][1] = Some(fresh_creature(CardId::A3b034SylveonEx));
    state.in_play_pokemon[0][2] = Some(fresh_creature(CardId::A3122SolgaleoEx));
    state.in_play_pokemon[0][3] = Some(fresh_creature(CardId::A1001Bulbasaur));
    let game = Game::from_state(state, end_turn_seats(), 0);
    let (_, offered) = game.possible_actions();
    let abilities: Vec<&Action> = offered
        .iter()
        .filter(|a| matches!(a.action, SimpleAction::UseAbility(_)))
        .collect();
    assert_eq!(abilities.len(), 1);
    assert_eq!(abilities[0].action, SimpleAction::UseAbility(2));
}

#[test]
fn snapshots_without_a_command_between_them_are_equal() {
    let mut state = State::default();
    state.in_play_pokemon[0][0] = Some(fresh_creature(CardId::A1020Victreebel));
    state.hands[1] = vec![get_card_by_enum(CardId::PA001Potion)];
    let game = Game::from_state(state.clone(), end_turn_seats(), 5);
    let first = game.get_state_clone();
    let second = game.get_state_clone();
    assert_eq!(first, second);
    assert_eq!(first, state);
}
