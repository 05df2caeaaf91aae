use vstd::prelude::*;

use crate::mass_effect_3::player::Power;
use crate::me3_general::{has_power, is_empty_power, is_first_power, toggle_bonus_power};
use crate::save_data::Float32;
use crate::text::{ascii_ci_eq, eq_ignore_ascii_case};

verus! {

/// A power of a Mass Effect 2 character.
pub struct Me2Power {
    pub name: String,
    pub current_rank: Float32,
    pub power_class_name: String,
    pub wheel_display_index: i32,
}

/// `power` is the Mass Effect 2 power of class `name` with every other
/// field empty: no name, rank 0.0, first wheel place.
pub open spec fn is_empty_me2_power(power: Me2Power, name: Seq<char>) -> bool {
    &&& power.power_class_name@ == name
    &&& power.name@ == Seq::<char>::empty()
    &&& power.current_rank == (Float32 { bits: 0 })
    &&& power.wheel_display_index == 0
}

impl Me2Power {
    /// A power of class `power_class_name` with every other field empty.
    pub fn with_class_name(power_class_name: String) -> (power: Me2Power)
        ensures
            power.power_class_name@ == power_class_name@,
            power.name@ == Seq::<char>::empty(),
            power.current_rank == (Float32 { bits: 0 }),
            power.wheel_display_index == 0,
    {
        Me2Power {
            name: String::new(),
            current_rank: Float32 { bits: 0 },
            power_class_name,
            wheel_display_index: 0,
        }
    }
}

/// Whether one of `powers` has the class name `name` (ASCII case ignored).
pub open spec fn has_me2_power(powers: Seq<Me2Power>, name: Seq<char>) -> bool {
    exists|i: int| 0 <= i < powers.len() && ascii_ci_eq(#[trigger] powers[i].power_class_name@, name)
}

/// The position of the first power of `powers` with the class name `name`
/// (ASCII case ignored).
pub open spec fn is_first_me2_power(powers: Seq<Me2Power>, name: Seq<char>, i: int) -> bool {
    &&& 0 <= i < powers.len()
    &&& ascii_ci_eq(powers[i].power_class_name@, name)
    &&& forall|j: int| 0 <= j < i ==> !ascii_ci_eq(#[trigger] powers[j].power_class_name@, name)
}

/// Toggles the Mass Effect 2 bonus power `power_class_name`: the first
/// power of that class (ASCII case ignored) is removed, or, when there is
/// none, an empty power of that class is added at the end.
pub fn toggle_me2_bonus_power(powers: &mut Vec<Me2Power>, power_class_name: String)
    ensures
        has_me2_power(old(powers)@, power_class_name@) ==> exists|i: int|
            is_first_me2_power(old(powers)@, power_class_name@, i) && final(powers)@ == old(powers)@.remove(i),
        !has_me2_power(old(powers)@, power_class_name@) ==> {
            &&& final(powers)@.len() == old(powers)@.len() + 1
            &&& final(powers)@.drop_last() == old(powers)@
            &&& is_empty_me2_power(final(powers)@.last(), power_class_name@)
        },
{
    let mut i: usize = 0;
    while i < powers.len()
        invariant
            i <= powers@.len(),
            powers@ == old(powers)@,
            forall|j: int| 0 <= j < i ==> !ascii_ci_eq(#[trigger] powers@[j].power_class_name@, power_class_name@),
        decreases powers@.len() - i,
    {
        if eq_ignore_ascii_case(powers[i].power_class_name.as_str(), power_class_name.as_str()) {
            proof {
                assert(is_first_me2_power(old(powers)@, power_class_name@, i as int));
            }
            powers.remove(i);
            return;
        }
        i = i + 1;
    }
    powers.push(Me2Power::with_class_name(power_class_name));
    proof {
        assert(powers@.drop_last() =~= old(powers)@);
    }
}

/// The powers a bonus powers panel edits.
pub enum BonusPowerType {
    Me2(Vec<Me2Power>),
    Me3(Vec<Power>),
}

/// The bonus powers panel.
pub struct BonusPowers;

impl BonusPowers {
    /// Toggles the bonus power `power_class_name` in the powers of either
    /// game and asks a redraw.
    pub fn update(&mut self, powers: &mut BonusPowerType, power_class_name: String) -> (redraw: bool)
        ensures
            redraw,
            match (*old(powers), *final(powers)) {
                (BonusPowerType::Me2(a), BonusPowerType::Me2(b)) => {
                    &&& has_me2_power(a@, power_class_name@) ==> exists|i: int|
                        is_first_me2_power(a@, power_class_name@, i) && b@ == a@.remove(i)
                    &&& !has_me2_power(a@, power_class_name@) ==> {
                        &&& b@.drop_last() == a@ && b@.len() == a@.len() + 1
                        &&& is_empty_me2_power(b@.last(), power_class_name@)
                    }
                },
                (BonusPowerType::Me3(a), BonusPowerType::Me3(b)) => {
                    &&& has_power(a@, power_class_name@) ==> exists|i: int|
                        is_first_power(a@, power_class_name@, i) && b@ == a@.remove(i)
                    &&& !has_power(a@, power_class_name@) ==> {
                        &&& b@.drop_last() == a@ && b@.len() == a@.len() + 1
                        &&& is_empty_power(b@.last(), power_class_name@)
                    }
                },
                _ => false,
            },
    {
        match powers {
            BonusPowerType::Me2(list) => toggle_me2_bonus_power(list, power_class_name),
            BonusPowerType::Me3(list) => toggle_bonus_power(list, power_class_name),
        }
        true
    }
}

/// Law: a Mass Effect 2 bonus power toggled on (the player having none of
/// that class) and then off again leaves the powers as they were.
pub proof fn law_me2_bonus_power_toggle_undone(powers: Seq<Me2Power>, name: Seq<char>, added: Me2Power, i: int)
    requires
        !has_me2_power(powers, name),
        added.power_class_name@ == name,
        is_first_me2_power(powers.push(added), name, i),
    ensures
        i == powers.len(),
        powers.push(added).remove(i) == powers,
{
    if i < powers.len() {
        assert(powers.push(added)[i] == powers[i]);
        assert(has_me2_power(powers, name));
    }
    assert(powers.push(added).remove(i) =~= powers);
}

} // verus!
