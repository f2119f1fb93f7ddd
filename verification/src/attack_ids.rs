use vstd::prelude::*;
use crate::card_ids::CardId;

verus! {

/// Identifier of an attack that does more than damage.
#[derive(Clone, Copy, Debug, PartialEq, Eq, Hash, Structural)]
pub enum AttackId {
    A1005CaterpieFindAFriend,
}

/// The attack with an effect of its own at `index` of a card: a total
/// table, `None` for an attack that only does its damage.
pub open spec fn attack_effect_of(id: CardId, index: int) -> Option<AttackId> {
    match id {
        CardId::A1005Caterpie => if index == 0 {
            Some(AttackId::A1005CaterpieFindAFriend)
        } else {
            None
        },
        _ => None,
    }
}

impl AttackId {
    /// Looks the attack at `index` of a card up.
    pub fn from_pokemon_index(id: CardId, index: usize) -> (r: Option<AttackId>)
        ensures
            r == attack_effect_of(id, index as int),
    {
        match id {
            CardId::A1005Caterpie => if index == 0 {
                Some(AttackId::A1005CaterpieFindAFriend)
            } else {
                None
            },
            _ => None,
        }
    }
}

} // verus!
