use vstd::prelude::*;
use crate::card_ids::CardId;

verus! {

/// Identifier of an ability that has an implementation.
#[derive(Clone, Copy, Debug, PartialEq, Eq, Hash, Structural)]
pub enum AbilityId {
    A1007Butterfree,
    A1020VictreebelFragranceTrap,
    A1132Gardevoir,
    A1177Weezing,
    A2a071Arceus,
    A3122SolgaleoExRisingRoad,
    A3a027ShiinoticIlluminate,
    A3b034SylveonExHappyRibbon,
}

/// The ability of a card: a total table over the catalog, `None` for a card
/// without one.
pub open spec fn ability_of(id: CardId) -> Option<AbilityId> {
    match id {
        CardId::A1007Butterfree => Some(AbilityId::A1007Butterfree),
        CardId::A1020Victreebel => Some(AbilityId::A1020VictreebelFragranceTrap),
        CardId::A1132Gardevoir => Some(AbilityId::A1132Gardevoir),
        CardId::A1177Weezing => Some(AbilityId::A1177Weezing),
        CardId::A2a071ArceusEx => Some(AbilityId::A2a071Arceus),
        CardId::A3122SolgaleoEx => Some(AbilityId::A3122SolgaleoExRisingRoad),
        CardId::A3a027Shiinotic => Some(AbilityId::A3a027ShiinoticIlluminate),
        CardId::A3b034SylveonEx => Some(AbilityId::A3b034SylveonExHappyRibbon),
        _ => None,
    }
}

impl AbilityId {
    /// Looks the ability of a card up.
    pub fn from_pokemon_id(id: CardId) -> (r: Option<AbilityId>)
        ensures
            r == ability_of(id),
    {
        match id {
            CardId::A1007Butterfree => Some(AbilityId::A1007Butterfree),
            CardId::A1020Victreebel => Some(AbilityId::A1020VictreebelFragranceTrap),
            CardId::A1132Gardevoir => Some(AbilityId::A1132Gardevoir),
            CardId::A1177Weezing => Some(AbilityId::A1177Weezing),
            CardId::A2a071ArceusEx => Some(AbilityId::A2a071Arceus),
            CardId::A3122SolgaleoEx => Some(AbilityId::A3122SolgaleoExRisingRoad),
            CardId::A3a027Shiinotic => Some(AbilityId::A3a027ShiinoticIlluminate),
            CardId::A3b034SylveonEx => Some(AbilityId::A3b034SylveonExHappyRibbon),
            _ => None,
        }
    }
}

} // verus!
