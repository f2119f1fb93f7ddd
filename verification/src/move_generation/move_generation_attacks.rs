use vstd::prelude::*;
use crate::types::{Attack, Card, EnergyType, PlayedCard, PlayedCardView};

verus! {

/// How many of the energies are of the kind `e`.
pub open spec fn energy_count(energy: Seq<EnergyType>, e: EnergyType) -> nat
    decreases energy.len(),
{
    if energy.len() == 0 {
        0
    } else {
        energy_count(energy.drop_last(), e) + if energy.last() == e {
            1nat
        } else {
            0nat
        }
    }
}

/// Whether the attached energies pay for the attack: enough of the kind the
/// attack names, and enough in all.
pub open spec fn attack_payable(energy: Seq<EnergyType>, attack: Attack) -> bool {
    &&& energy_count(energy, attack.energy_type) >= attack.typed_cost
    &&& energy.len() >= attack.typed_cost + attack.colorless_cost
}

/// Whether the creature has an attack at `index` and can pay for it.
pub open spec fn attack_available(c: PlayedCardView, index: int) -> bool {
    match c.card {
        Card::Pokemon(p) => 0 <= index < p.attack_count() && attack_payable(
            c.attached_energy,
            p.attack_at(index),
        ),
        Card::Trainer(_) => false,
    }
}

/// Counts the energies of one kind.
pub fn count_energy(energy: &Vec<EnergyType>, e: EnergyType) -> (r: usize)
    ensures
        r == energy_count(energy@, e),
{
    let mut r: usize = 0;
    let mut i: usize = 0;
    assert(energy@.take(0) =~= Seq::empty());
    while i < energy.len()
        invariant
            i <= energy.len(),
            r <= i,
            r == energy_count(energy@.take(i as int), e),
        decreases energy.len() - i,
    {
        assert(energy@.take(i + 1).drop_last() =~= energy@.take(i as int));
        if energy[i] == e {
            r += 1;
        }
        i += 1;
    }
    assert(energy@.take(i as int) =~= energy@);
    r
}

/// Whether the creature has an attack at `index` and can pay for it.
pub fn can_attack(c: &PlayedCard, index: usize) -> (r: bool)
    ensures
        r == attack_available(c@, index as int),
{
    match c.card {
        Card::Pokemon(p) => match p.get_attack(index) {
            Some(attack) => {
                let typed = count_energy(&c.attached_energy, attack.energy_type);
                typed >= attack.typed_cost as usize && c.attached_energy.len()
                    >= attack.typed_cost as usize + attack.colorless_cost as usize
            },
            None => false,
        },
        Card::Trainer(_) => false,
    }
}

} // verus!
