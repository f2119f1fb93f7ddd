use vstd::prelude::*;
use vstd::string::StringExecFns;
use crate::ability_ids::{ability_of, AbilityId};
use crate::card_ids::{card_name, CardId};
use crate::tool_ids::ToolId;
use crate::util::copy_vec;

verus! {

/// The kinds of energy. `Colorless` in a cost is paid by any kind.
#[derive(Clone, Copy, Debug, PartialEq, Eq, Hash, Structural)]
pub enum EnergyType {
    Grass,
    Fire,
    Water,
    Lightning,
    Psychic,
    Fighting,
    Darkness,
    Metal,
    Dragon,
    Colorless,
}

/// The name of an energy kind, as it is written in the source.
pub open spec fn energy_label(e: EnergyType) -> Seq<char> {
    match e {
        EnergyType::Grass => "Grass"@,
        EnergyType::Fire => "Fire"@,
        EnergyType::Water => "Water"@,
        EnergyType::Lightning => "Lightning"@,
        EnergyType::Psychic => "Psychic"@,
        EnergyType::Fighting => "Fighting"@,
        EnergyType::Darkness => "Darkness"@,
        EnergyType::Metal => "Metal"@,
        EnergyType::Dragon => "Dragon"@,
        EnergyType::Colorless => "Colorless"@,
    }
}

impl EnergyType {
    /// The name of the kind, as it is written in the source.
    pub fn label(self) -> (r: &'static str)
        ensures
            r@ == energy_label(self),
    {
        match self {
            EnergyType::Grass => "Grass",
            EnergyType::Fire => "Fire",
            EnergyType::Water => "Water",
            EnergyType::Lightning => "Lightning",
            EnergyType::Psychic => "Psychic",
            EnergyType::Fighting => "Fighting",
            EnergyType::Darkness => "Darkness",
            EnergyType::Metal => "Metal",
            EnergyType::Dragon => "Dragon",
            EnergyType::Colorless => "Colorless",
        }
    }
}

/// The kinds of trainer card.
#[derive(Clone, Copy, Debug, PartialEq, Eq, Hash, Structural)]
pub enum TrainerType {
    Supporter,
    Item,
    Tool,
}

/// The name of a trainer kind, as it is written in the source.
pub open spec fn trainer_type_label(t: TrainerType) -> Seq<char> {
    match t {
        TrainerType::Supporter => "Supporter"@,
        TrainerType::Item => "Item"@,
        TrainerType::Tool => "Tool"@,
    }
}

impl TrainerType {
    /// The name of the kind, as it is written in the source.
    pub fn label(self) -> (r: &'static str)
        ensures
            r@ == trainer_type_label(self),
    {
        match self {
            TrainerType::Supporter => "Supporter",
            TrainerType::Item => "Item",
            TrainerType::Tool => "Tool",
        }
    }
}

/// An attack of a creature: what it costs and the damage it does to the
/// opposing active creature. The cost is `typed_cost` energies of
/// `energy_type` and `colorless_cost` further energies of any kind.
#[derive(Clone, Copy, Debug, PartialEq, Eq, Hash, Structural)]
pub struct Attack {
    pub energy_type: EnergyType,
    pub typed_cost: u8,
    pub colorless_cost: u8,
    pub fixed_damage: u32,
}

/// The static definition of a creature card.
#[derive(Clone, Copy, Debug, PartialEq, Eq, Hash, Structural)]
pub struct PokemonCard {
    pub id: CardId,
    pub hp: u32,
    pub energy_type: EnergyType,
    /// 0 for a basic creature, 1 and 2 for its evolutions.
    pub stage: u8,
    pub evolves_from: Option<CardId>,
    pub retreat_cost: u8,
    pub first_attack: Option<Attack>,
    pub second_attack: Option<Attack>,
}

/// The static definition of a trainer card.
#[derive(Clone, Copy, Debug, PartialEq, Eq, Hash, Structural)]
pub struct TrainerCard {
    pub id: CardId,
    pub trainer_card_type: TrainerType,
}

/// A card: a creature or a trainer.
#[derive(Clone, Copy, Debug, PartialEq, Eq, Hash, Structural)]
pub enum Card {
    Pokemon(PokemonCard),
    Trainer(TrainerCard),
}

impl PokemonCard {
    /// How many attacks the creature has.
    pub open spec fn attack_count(self) -> nat {
        if self.first_attack is None {
            0
        } else if self.second_attack is None {
            1
        } else {
            2
        }
    }

    /// The attack at `index`, where `index` is below `attack_count`.
    pub open spec fn attack_at(self, index: int) -> Attack {
        if index == 0 {
            self.first_attack->0
        } else {
            self.second_attack->0
        }
    }

    /// The attack at `index`, `None` where the creature has no such attack.
    pub fn get_attack(&self, index: usize) -> (r: Option<Attack>)
        ensures
            r is Some <==> index < self.attack_count(),
            r is Some ==> r->0 == self.attack_at(index as int),
    {
        if self.first_attack.is_none() {
            None
        } else if index == 0 {
            self.first_attack
        } else if index == 1 {
            self.second_attack
        } else {
            None
        }
    }
}

impl Card {
    /// The identifier of the card.
    pub open spec fn id(self) -> CardId {
        match self {
            Card::Pokemon(p) => p.id,
            Card::Trainer(t) => t.id,
        }
    }

    /// The energy kind of a creature; a trainer card has none.
    pub open spec fn energy_type(self) -> Option<EnergyType> {
        match self {
            Card::Pokemon(p) => Some(p.energy_type),
            Card::Trainer(_) => None,
        }
    }

    /// A creature that is put into play from the hand without evolving.
    pub open spec fn is_basic_pokemon(self) -> bool {
        match self {
            Card::Pokemon(p) => p.stage == 0,
            Card::Trainer(_) => false,
        }
    }

    /// The ability of the card, by the table of implemented abilities.
    pub open spec fn ability(self) -> Option<AbilityId> {
        match self {
            Card::Pokemon(p) => ability_of(p.id),
            Card::Trainer(_) => None,
        }
    }

    /// The identifier of the card.
    pub fn get_id(&self) -> (r: CardId)
        ensures
            r == self.id(),
    {
        match self {
            Card::Pokemon(p) => p.id,
            Card::Trainer(t) => t.id,
        }
    }

    /// The printed name of the card.
    pub fn get_name(&self) -> (r: String)
        ensures
            r@ == card_name(self.id()),
    {
        String::from_str(self.get_id().name())
    }

    /// The energy kind of a creature; a trainer card has none.
    pub fn get_type(&self) -> (r: Option<EnergyType>)
        ensures
            r == self.energy_type(),
    {
        match self {
            Card::Pokemon(p) => Some(p.energy_type),
            Card::Trainer(_) => None,
        }
    }

    /// The ability of the card, by the table of implemented abilities.
    pub fn get_ability(&self) -> (r: Option<AbilityId>)
        ensures
            r == self.ability(),
    {
        match self {
            Card::Pokemon(p) => AbilityId::from_pokemon_id(p.id),
            Card::Trainer(_) => None,
        }
    }

    /// Whether the card is a creature that does not evolve from another.
    pub fn is_basic(&self) -> (r: bool)
        ensures
            r == self.is_basic_pokemon(),
    {
        match self {
            Card::Pokemon(p) => p.stage == 0,
            Card::Trainer(_) => false,
        }
    }
}

/// A creature in play: its card and its battle state.
#[derive(Debug, PartialEq, Eq)]
pub struct PlayedCard {
    pub card: Card,
    pub remaining_hp: u32,
    pub total_hp: u32,
    pub attached_energy: Vec<EnergyType>,
    pub attached_tool: Option<ToolId>,
    pub played_this_turn: bool,
    pub ability_used: bool,
    pub poisoned: bool,
    /// The cards this creature evolved from, oldest first.
    pub cards_behind: Vec<Card>,
}

/// The value of a [`PlayedCard`].
pub struct PlayedCardView {
    pub card: Card,
    pub remaining_hp: u32,
    pub total_hp: u32,
    pub attached_energy: Seq<EnergyType>,
    pub attached_tool: Option<ToolId>,
    pub played_this_turn: bool,
    pub ability_used: bool,
    pub poisoned: bool,
    pub cards_behind: Seq<Card>,
}

impl View for PlayedCard {
    type V = PlayedCardView;

    open spec fn view(&self) -> PlayedCardView {
        PlayedCardView {
            card: self.card,
            remaining_hp: self.remaining_hp,
            total_hp: self.total_hp,
            attached_energy: self.attached_energy@,
            attached_tool: self.attached_tool,
            played_this_turn: self.played_this_turn,
            ability_used: self.ability_used,
            poisoned: self.poisoned,
            cards_behind: self.cards_behind@,
        }
    }
}

impl PlayedCardView {
    /// A creature in play is a creature card that is not knocked out and has
    /// no more hit points than its maximum.
    pub open spec fn wf(self) -> bool {
        &&& self.card is Pokemon
        &&& 0 < self.remaining_hp <= self.total_hp
    }

    /// The creature as it enters play, before anything happened to it.
    pub open spec fn fresh(
        card: Card,
        remaining_hp: u32,
        total_hp: u32,
        attached_energy: Seq<EnergyType>,
        played_this_turn: bool,
        cards_behind: Seq<Card>,
    ) -> PlayedCardView {
        PlayedCardView {
            card,
            remaining_hp,
            total_hp,
            attached_energy,
            attached_tool: None,
            played_this_turn,
            ability_used: false,
            poisoned: false,
            cards_behind,
        }
    }
}

impl PlayedCard {
    /// A creature as it enters play: without a tool, not poisoned, its
    /// ability unused.
    pub fn new(
        card: Card,
        remaining_hp: u32,
        total_hp: u32,
        attached_energy: Vec<EnergyType>,
        played_this_turn: bool,
        cards_behind: Vec<Card>,
    ) -> (r: PlayedCard)
        ensures
            r@ == PlayedCardView::fresh(
                card,
                remaining_hp,
                total_hp,
                attached_energy@,
                played_this_turn,
                cards_behind@,
            ),
    {
        PlayedCard {
            card,
            remaining_hp,
            total_hp,
            attached_energy,
            attached_tool: None,
            played_this_turn,
            ability_used: false,
            poisoned: false,
            cards_behind,
        }
    }
}

impl Clone for PlayedCard {
    fn clone(&self) -> (r: PlayedCard)
        ensures
            r@ == self@,
    {
        PlayedCard {
            card: self.card,
            remaining_hp: self.remaining_hp,
            total_hp: self.total_hp,
            attached_energy: copy_vec(&self.attached_energy),
            attached_tool: self.attached_tool,
            played_this_turn: self.played_this_turn,
            ability_used: self.ability_used,
            poisoned: self.poisoned,
            cards_behind: copy_vec(&self.cards_behind),
        }
    }
}

} // verus!
