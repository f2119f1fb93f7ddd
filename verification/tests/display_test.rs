use deckgym::actions::SimpleAction;
use deckgym::card_ids::CardId;
use deckgym::database::get_card_by_enum;
use deckgym::tool_ids::ToolId;
use deckgym::types::{Card, EnergyType, TrainerCard, TrainerType};

#[test]
fn commands_with_one_number_are_rendered() {
    assert_eq!(SimpleAction::DrawCard { amount: 3 }.to_string(), "DrawCard(3)");
    assert_eq!(SimpleAction::DrawCard { amount: 0 }.to_string(), "DrawCard(0)");
    assert_eq!(SimpleAction::DrawCard { amount: 255 }.to_string(), "DrawCard(255)");
    assert_eq!(SimpleAction::UseAbility(0).to_string(), "UseAbility(0)");
    assert_eq!(SimpleAction::Attack(1).to_string(), "Attack(1)");
    assert_eq!(SimpleAction::Retreat(2).to_string(), "Retreat(2)");
    assert_eq!(SimpleAction::Activate { in_play_idx: 3 }.to_string(), "Activate(3)");
    assert_eq!(
        SimpleAction::ForceSwitchOpponent { in_play_idx: 1 }.to_string(),
        "ForceSwitchOpponent(1)"
    );
    assert_eq!(
        SimpleAction::UseAbility(usize::MAX).to_string(),
        format!("UseAbility({})", usize::MAX)
    );
    assert_eq!(SimpleAction::Attack(10).to_string(), "Attack(10)");
    assert_eq!(SimpleAction::Attack(1090).to_string(), "Attack(1090)");
}

#[test]
fn commands_without_operands_are_rendered() {
    assert_eq!(SimpleAction::EndTurn.to_string(), "EndTurn");
    assert_eq!(SimpleAction::Noop.to_string(), "Noop");
}

#[test]
fn play_is_rendered_with_the_record_of_the_card() {
    let card = TrainerCard { id: CardId::PA001Potion, trainer_card_type: TrainerType::Item };
    assert_eq!(
        SimpleAction::Play { trainer_card: card }.to_string(),
        "Play(TrainerCard { id: PA001Potion, trainer_card_type: Item })"
    );
    for id in [CardId::PA005PokeBall, CardId::PA007ProfessorsResearch, CardId::A1225Sabrina, CardId::A2147GiantCape] {
        if let Card::Trainer(t) = get_card_by_enum(id) {
            assert_eq!(
                SimpleAction::Play { trainer_card: t }.to_string(),
                format!("Play({:?})", t)
            );
        } else {
            panic!("a trainer card was expected");
        }
    }
}

#[test]
fn place_and_evolve_are_rendered_with_the_name_of_the_card() {
    let bulbasaur = get_card_by_enum(CardId::A1001Bulbasaur);
    let ivysaur = get_card_by_enum(CardId::A1002Ivysaur);
    let arceus = get_card_by_enum(CardId::A2a071ArceusEx);
    assert_eq!(SimpleAction::Place(bulbasaur, 1).to_string(), "Place(Bulbasaur, 1)");
    assert_eq!(SimpleAction::Evolve(ivysaur, 1).to_string(), "Evolve(Ivysaur, 1)");
    assert_eq!(SimpleAction::Place(arceus, 0).to_string(), "Place(Arceus ex, 0)");
}

#[test]
fn attach_is_rendered_with_its_quoted_list() {
    let one = SimpleAction::Attach {
        attachments: vec![(1, EnergyType::Grass, 0)],
        is_turn_energy: true,
    };
    assert_eq!(one.to_string(), "Attach(\"(1, Grass, 0)\", true)");
    let two = SimpleAction::Attach {
        attachments: vec![(1, EnergyType::Grass, 0), (2, EnergyType::Fire, 3)],
        is_turn_energy: false,
    };
    assert_eq!(two.to_string(), "Attach(\"(1, Grass, 0), (2, Fire, 3)\", false)");
    let none = SimpleAction::Attach { attachments: vec![], is_turn_energy: false };
    assert_eq!(none.to_string(), "Attach(\"\", false)");
    let big = SimpleAction::Attach {
        attachments: vec![(u32::MAX, EnergyType::Colorless, 12)],
        is_turn_energy: false,
    };
    assert_eq!(big.to_string(), "Attach(\"(4294967295, Colorless, 12)\", false)");
}

#[test]
fn every_energy_kind_is_rendered_by_its_name() {
    let kinds = [
        EnergyType::Grass,
        EnergyType::Fire,
        EnergyType::Water,
        EnergyType::Lightning,
        EnergyType::Psychic,
        EnergyType::Fighting,
        EnergyType::Darkness,
        EnergyType::Metal,
        EnergyType::Dragon,
        EnergyType::Colorless,
    ];
    for kind in kinds {
        let action = SimpleAction::Attach { attachments: vec![(1, kind, 2)], is_turn_energy: true };
        assert_eq!(action.to_string(), format!("Attach(\"(1, {:?}, 2)\", true)", kind));
    }
}

#[test]
fn tool_heal_and_damage_are_rendered() {
    assert_eq!(
        SimpleAction::AttachTool { in_play_idx: 1, tool_id: ToolId::A2147GiantCape }.to_string(),
        "AttachTool(1, A2147GiantCape)"
    );
    assert_eq!(
        SimpleAction::AttachTool { in_play_idx: 0, tool_id: ToolId::A2148RockyHelmet }.to_string(),
        "AttachTool(0, A2148RockyHelmet)"
    );
    assert_eq!(SimpleAction::Heal { in_play_idx: 0, amount: 20 }.to_string(), "Heal(0, 20)");
    assert_eq!(
        SimpleAction::ApplyDamage { targets: vec![(10, 0), (20, 2)] }.to_string(),
        "ApplyDamage((10, 0), (20, 2))"
    );
    assert_eq!(SimpleAction::ApplyDamage { targets: vec![] }.to_string(), "ApplyDamage()");
    assert_eq!(
        SimpleAction::ApplyDamage { targets: vec![(30, 1)] }.to_string(),
        "ApplyDamage((30, 1))"
    );
}

#[test]
fn equal_commands_are_the_same() {
    let a = SimpleAction::Attach { attachments: vec![(1, EnergyType::Grass, 0)], is_turn_energy: true };
    let b = SimpleAction::Attach { attachments: vec![(1, EnergyType::Grass, 0)], is_turn_energy: true };
    let c = SimpleAction::Attach { attachments: vec![(1, EnergyType::Fire, 0)], is_turn_energy: true };
    let d = SimpleAction::Attach { attachments: vec![], is_turn_energy: true };
    assert!(a.same_as(&b));
    assert!(!a.same_as(&c));
    assert!(!a.same_as(&d));
    assert!(!a.same_as(&SimpleAction::Noop));
    assert!(SimpleAction::Noop.same_as(&SimpleAction::Noop));
    assert!(!SimpleAction::Attack(0).same_as(&SimpleAction::Attack(1)));
    assert!(!SimpleAction::Attack(0).same_as(&SimpleAction::UseAbility(0)));
    assert!(SimpleAction::ApplyDamage { targets: vec![(1, 2)] }
        .same_as(&SimpleAction::ApplyDamage { targets: vec![(1, 2)] }));
    assert!(!SimpleAction::ApplyDamage { targets: vec![(1, 2)] }
        .same_as(&SimpleAction::ApplyDamage { targets: vec![(1, 3)] }));
    assert_eq!(a.clone(), a);
}
