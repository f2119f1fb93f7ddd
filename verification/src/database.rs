use vstd::prelude::*;
use crate::card_ids::CardId;
use crate::types::{Attack, Card, EnergyType, PokemonCard, TrainerCard, TrainerType};

verus! {

/// A creature card with one attack.
pub open spec fn pokemon_entry(
    id: CardId,
    hp: u32,
    energy_type: EnergyType,
    stage: u8,
    evolves_from: Option<CardId>,
    retreat_cost: u8,
    attack: Attack,
) -> Card {
    Card::Pokemon(
        PokemonCard {
            id,
            hp,
            energy_type,
            stage,
            evolves_from,
            retreat_cost,
            first_attack: Some(attack),
            second_attack: None,
        },
    )
}

/// An attack.
pub open spec fn attack_entry(energy_type: EnergyType, typed_cost: u8, colorless_cost: u8, fixed_damage: u32) -> Attack {
    Attack { energy_type, typed_cost, colorless_cost, fixed_damage }
}

/// A trainer card.
pub open spec fn trainer_entry(id: CardId, trainer_card_type: TrainerType) -> Card {
    Card::Trainer(TrainerCard { id, trainer_card_type })
}

/// The static definition of each card of the catalog.
pub open spec fn card_definition(id: CardId) -> Card {
    match id {
        CardId::A1001Bulbasaur => pokemon_entry(id, 70, EnergyType::Grass, 0, None, 1, attack_entry(EnergyType::Grass, 1, 1, 40)),
        CardId::A1002Ivysaur => pokemon_entry(id, 90, EnergyType::Grass, 1, Some(CardId::A1001Bulbasaur), 2, attack_entry(EnergyType::Grass, 1, 2, 60)),
        CardId::A1005Caterpie => pokemon_entry(id, 50, EnergyType::Grass, 0, None, 1, attack_entry(EnergyType::Grass, 0, 1, 0)),
        CardId::A1006Metapod => pokemon_entry(id, 80, EnergyType::Grass, 1, Some(CardId::A1005Caterpie), 2, attack_entry(EnergyType::Grass, 0, 2, 30)),
        CardId::A1007Butterfree => pokemon_entry(id, 120, EnergyType::Grass, 2, Some(CardId::A1006Metapod), 1, attack_entry(EnergyType::Grass, 1, 2, 60)),
        CardId::A1018Bellsprout => pokemon_entry(id, 60, EnergyType::Grass, 0, None, 1, attack_entry(EnergyType::Grass, 1, 0, 20)),
        CardId::A1019Weepinbell => pokemon_entry(id, 90, EnergyType::Grass, 1, Some(CardId::A1018Bellsprout), 2, attack_entry(EnergyType::Grass, 1, 2, 40)),
        CardId::A1020Victreebel => pokemon_entry(id, 140, EnergyType::Grass, 2, Some(CardId::A1019Weepinbell), 2, attack_entry(EnergyType::Grass, 1, 1, 60)),
        CardId::A1033Charmander => pokemon_entry(id, 60, EnergyType::Fire, 0, None, 1, attack_entry(EnergyType::Fire, 1, 0, 30)),
        CardId::A1130Ralts => pokemon_entry(id, 60, EnergyType::Psychic, 0, None, 1, attack_entry(EnergyType::Psychic, 0, 1, 10)),
        CardId::A1131Kirlia => pokemon_entry(id, 80, EnergyType::Psychic, 1, Some(CardId::A1130Ralts), 1, attack_entry(EnergyType::Psychic, 0, 2, 30)),
        CardId::A1132Gardevoir => pokemon_entry(id, 110, EnergyType::Psychic, 2, Some(CardId::A1131Kirlia), 2, attack_entry(EnergyType::Psychic, 2, 1, 60)),
        CardId::A1176Koffing => pokemon_entry(id, 70, EnergyType::Darkness, 0, None, 3, attack_entry(EnergyType::Darkness, 1, 0, 20)),
        CardId::A1177Weezing => pokemon_entry(id, 110, EnergyType::Darkness, 1, Some(CardId::A1176Koffing), 3, attack_entry(EnergyType::Darkness, 1, 1, 30)),
        CardId::A2a071ArceusEx => pokemon_entry(id, 140, EnergyType::Colorless, 0, None, 2, attack_entry(EnergyType::Colorless, 0, 3, 70)),
        CardId::A3122SolgaleoEx => pokemon_entry(id, 180, EnergyType::Metal, 2, None, 2, attack_entry(EnergyType::Metal, 1, 1, 120)),
        CardId::A3a027Shiinotic => pokemon_entry(id, 90, EnergyType::Grass, 1, None, 1, attack_entry(EnergyType::Grass, 1, 2, 50)),
        CardId::A3b034SylveonEx => pokemon_entry(id, 140, EnergyType::Psychic, 1, None, 2, attack_entry(EnergyType::Psychic, 1, 2, 70)),
        CardId::PA001Potion => trainer_entry(id, TrainerType::Item),
        CardId::PA005PokeBall => trainer_entry(id, TrainerType::Item),
        CardId::PA007ProfessorsResearch => trainer_entry(id, TrainerType::Supporter),
        CardId::A1225Sabrina => trainer_entry(id, TrainerType::Supporter),
        CardId::A2147GiantCape => trainer_entry(id, TrainerType::Tool),
    }
}

fn pokemon(
    id: CardId,
    hp: u32,
    energy_type: EnergyType,
    stage: u8,
    evolves_from: Option<CardId>,
    retreat_cost: u8,
    attack: Attack,
) -> (r: Card)
    ensures
        r == pokemon_entry(id, hp, energy_type, stage, evolves_from, retreat_cost, attack),
{
    Card::Pokemon(
        PokemonCard {
            id,
            hp,
            energy_type,
            stage,
            evolves_from,
            retreat_cost,
            first_attack: Some(attack),
            second_attack: None,
        },
    )
}

fn attack(energy_type: EnergyType, typed_cost: u8, colorless_cost: u8, fixed_damage: u32) -> (r: Attack)
    ensures
        r == attack_entry(energy_type, typed_cost, colorless_cost, fixed_damage),
{
    Attack { energy_type, typed_cost, colorless_cost, fixed_damage }
}

fn trainer(id: CardId, trainer_card_type: TrainerType) -> (r: Card)
    ensures
        r == trainer_entry(id, trainer_card_type),
{
    Card::Trainer(TrainerCard { id, trainer_card_type })
}

/// Looks a card up by its identifier. The table is total: every identifier
/// has its definition, and the definition carries the identifier.
pub fn get_card_by_enum(id: CardId) -> (r: Card)
    ensures
        r == card_definition(id),
        r.id() == id,
{
    match id {
        CardId::A1001Bulbasaur => pokemon(id, 70, EnergyType::Grass, 0, None, 1, attack(EnergyType::Grass, 1, 1, 40)),
        CardId::A1002Ivysaur => pokemon(id, 90, EnergyType::Grass, 1, Some(CardId::A1001Bulbasaur), 2, attack(EnergyType::Grass, 1, 2, 60)),
        CardId::A1005Caterpie => pokemon(id, 50, EnergyType::Grass, 0, None, 1, attack(EnergyType::Grass, 0, 1, 0)),
        CardId::A1006Metapod => pokemon(id, 80, EnergyType::Grass, 1, Some(CardId::A1005Caterpie), 2, attack(EnergyType::Grass, 0, 2, 30)),
        CardId::A1007Butterfree => pokemon(id, 120, EnergyType::Grass, 2, Some(CardId::A1006Metapod), 1, attack(EnergyType::Grass, 1, 2, 60)),
        CardId::A1018Bellsprout => pokemon(id, 60, EnergyType::Grass, 0, None, 1, attack(EnergyType::Grass, 1, 0, 20)),
        CardId::A1019Weepinbell => pokemon(id, 90, EnergyType::Grass, 1, Some(CardId::A1018Bellsprout), 2, attack(EnergyType::Grass, 1, 2, 40)),
        CardId::A1020Victreebel => pokemon(id, 140, EnergyType::Grass, 2, Some(CardId::A1019Weepinbell), 2, attack(EnergyType::Grass, 1, 1, 60)),
        CardId::A1033Charmander => pokemon(id, 60, EnergyType::Fire, 0, None, 1, attack(EnergyType::Fire, 1, 0, 30)),
        CardId::A1130Ralts => pokemon(id, 60, EnergyType::Psychic, 0, None, 1, attack(EnergyType::Psychic, 0, 1, 10)),
        CardId::A1131Kirlia => pokemon(id, 80, EnergyType::Psychic, 1, Some(CardId::A1130Ralts), 1, attack(EnergyType::Psychic, 0, 2, 30)),
        CardId::A1132Gardevoir => pokemon(id, 110, EnergyType::Psychic, 2, Some(CardId::A1131Kirlia), 2, attack(EnergyType::Psychic, 2, 1, 60)),
        CardId::A1176Koffing => pokemon(id, 70, EnergyType::Darkness, 0, None, 3, attack(EnergyType::Darkness, 1, 0, 20)),
        CardId::A1177Weezing => pokemon(id, 110, EnergyType::Darkness, 1, Some(CardId::A1176Koffing), 3, attack(EnergyType::Darkness, 1, 1, 30)),
        CardId::A2a071ArceusEx => pokemon(id, 140, EnergyType::Colorless, 0, None, 2, attack(EnergyType::Colorless, 0, 3, 70)),
        CardId::A3122SolgaleoEx => pokemon(id, 180, EnergyType::Metal, 2, None, 2, attack(EnergyType::Metal, 1, 1, 120)),
        CardId::A3a027Shiinotic => pokemon(id, 90, EnergyType::Grass, 1, None, 1, attack(EnergyType::Grass, 1, 2, 50)),
        CardId::A3b034SylveonEx => pokemon(id, 140, EnergyType::Psychic, 1, None, 2, attack(EnergyType::Psychic, 1, 2, 70)),
        CardId::PA001Potion => trainer(id, TrainerType::Item),
        CardId::PA005PokeBall => trainer(id, TrainerType::Item),
        CardId::PA007ProfessorsResearch => trainer(id, TrainerType::Supporter),
        CardId::A1225Sabrina => trainer(id, TrainerType::Supporter),
        CardId::A2147GiantCape => trainer(id, TrainerType::Tool),
    }
}

} // verus!
