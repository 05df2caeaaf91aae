use vstd::prelude::*;

use crate::bonus_powers::{is_empty_me2_power, Me2Power};
use crate::me3_general::is_empty_power;
use crate::mass_effect_3::player::Power;
use crate::text::{unicase_eq, unicase_equal};

verus! {

/// The class at position `idx` of the ME3 class list, in the
/// order of the class picker (by class name).
pub open spec fn me3_listed_class_name(idx: int) -> Seq<char> {
    if idx == 0 {
        "SFXGame.SFXPawn_PlayerAdept"@
    } else if idx == 1 {
        "SFXGame.SFXPawn_PlayerAdeptNonCombat"@
    } else if idx == 2 {
        "SFXGame.SFXPawn_PlayerEngineer"@
    } else if idx == 3 {
        "SFXGame.SFXPawn_PlayerEngineerNonCombat"@
    } else if idx == 4 {
        "SFXGame.SFXPawn_PlayerInfiltrator"@
    } else if idx == 5 {
        "SFXGame.SFXPawn_PlayerInfiltratorNonCombat"@
    } else if idx == 6 {
        "SFXGame.SFXPawn_PlayerSentinel"@
    } else if idx == 7 {
        "SFXGame.SFXPawn_PlayerSentinelNonCombat"@
    } else if idx == 8 {
        "SFXGame.SFXPawn_PlayerSoldier"@
    } else if idx == 9 {
        "SFXGame.SFXPawn_PlayerSoldierNonCombat"@
    } else if idx == 10 {
        "SFXGame.SFXPawn_PlayerVanguard"@
    } else {
        "SFXGame.SFXPawn_PlayerVanguardNonCombat"@
    }
}

/// The class at position `idx` of the ME3 class list.
pub fn me3_listed_class_str(idx: usize) -> (name: &'static str)
    requires
        idx < 12,
    ensures
        name@ == me3_listed_class_name(idx as int),
{
    if idx == 0 {
        "SFXGame.SFXPawn_PlayerAdept"
    } else if idx == 1 {
        "SFXGame.SFXPawn_PlayerAdeptNonCombat"
    } else if idx == 2 {
        "SFXGame.SFXPawn_PlayerEngineer"
    } else if idx == 3 {
        "SFXGame.SFXPawn_PlayerEngineerNonCombat"
    } else if idx == 4 {
        "SFXGame.SFXPawn_PlayerInfiltrator"
    } else if idx == 5 {
        "SFXGame.SFXPawn_PlayerInfiltratorNonCombat"
    } else if idx == 6 {
        "SFXGame.SFXPawn_PlayerSentinel"
    } else if idx == 7 {
        "SFXGame.SFXPawn_PlayerSentinelNonCombat"
    } else if idx == 8 {
        "SFXGame.SFXPawn_PlayerSoldier"
    } else if idx == 9 {
        "SFXGame.SFXPawn_PlayerSoldierNonCombat"
    } else if idx == 10 {
        "SFXGame.SFXPawn_PlayerVanguard"
    } else {
        "SFXGame.SFXPawn_PlayerVanguardNonCombat"
    }
}

/// The position of the player's class in the ME3 class list: the first
/// class whose name equals `class_name` under Unicode case folding. The
/// class picker is not shown when there is none.
pub fn me3_listed_class(class_name: &str) -> (res: Option<usize>)
    ensures
        res matches Some(i) ==> i < 12 && unicase_equal(me3_listed_class_name(i as int), class_name@),
        res matches Some(i) ==> forall|j: int| 0 <= j < i ==> !unicase_equal(#[trigger] me3_listed_class_name(j), class_name@),
        res is None ==> forall|j: int| 0 <= j < 12 ==> !unicase_equal(#[trigger] me3_listed_class_name(j), class_name@),
{
    let mut i: usize = 0;
    while i < 12
        invariant
            i <= 12,
            forall|j: int| 0 <= j < i ==> !unicase_equal(#[trigger] me3_listed_class_name(j), class_name@),
        decreases 12 - i,
    {
        if unicase_eq(me3_listed_class_str(i), class_name) {
            return Some(i);
        }
        i = i + 1;
    }
    None
}

/// The class at position `idx` of the ME2 class list, in the
/// order of the class picker (by class name).
pub open spec fn me2_listed_class_name(idx: int) -> Seq<char> {
    if idx == 0 {
        "SFXGame.SFXPawn_PlayerAdept"@
    } else if idx == 1 {
        "SFXGame.SFXPawn_PlayerEngineer"@
    } else if idx == 2 {
        "SFXGame.SFXPawn_PlayerInfiltrator"@
    } else if idx == 3 {
        "SFXGame.SFXPawn_PlayerSentinel"@
    } else if idx == 4 {
        "SFXGame.SFXPawn_PlayerSoldier"@
    } else {
        "SFXGame.SFXPawn_PlayerVanguard"@
    }
}

/// The class at position `idx` of the ME2 class list.
pub fn me2_listed_class_str(idx: usize) -> (name: &'static str)
    requires
        idx < 6,
    ensures
        name@ == me2_listed_class_name(idx as int),
{
    if idx == 0 {
        "SFXGame.SFXPawn_PlayerAdept"
    } else if idx == 1 {
        "SFXGame.SFXPawn_PlayerEngineer"
    } else if idx == 2 {
        "SFXGame.SFXPawn_PlayerInfiltrator"
    } else if idx == 3 {
        "SFXGame.SFXPawn_PlayerSentinel"
    } else if idx == 4 {
        "SFXGame.SFXPawn_PlayerSoldier"
    } else {
        "SFXGame.SFXPawn_PlayerVanguard"
    }
}

/// The position of the player's class in the ME2 class list: the first
/// class whose name equals `class_name` under Unicode case folding. The
/// class picker is not shown when there is none.
pub fn me2_listed_class(class_name: &str) -> (res: Option<usize>)
    ensures
        res matches Some(i) ==> i < 6 && unicase_equal(me2_listed_class_name(i as int), class_name@),
        res matches Some(i) ==> forall|j: int| 0 <= j < i ==> !unicase_equal(#[trigger] me2_listed_class_name(j), class_name@),
        res is None ==> forall|j: int| 0 <= j < 6 ==> !unicase_equal(#[trigger] me2_listed_class_name(j), class_name@),
{
    let mut i: usize = 0;
    while i < 6
        invariant
            i <= 6,
            forall|j: int| 0 <= j < i ==> !unicase_equal(#[trigger] me2_listed_class_name(j), class_name@),
        decreases 6 - i,
    {
        if unicase_eq(me2_listed_class_str(i), class_name) {
            return Some(i);
        }
        i = i + 1;
    }
    None
}

/// Whether one of `powers` has a class name equal to `name` under
/// Unicode case folding.
pub open spec fn has_power_folded(powers: Seq<Power>, name: Seq<char>) -> bool {
    exists|i: int| 0 <= i < powers.len() && unicase_equal(#[trigger] powers[i].power_class_name.text@, name)
}

/// Whether the bonus power `name` is ticked: one of `powers` has that
/// class name under Unicode case folding.
pub fn bonus_power_ticked(powers: &Vec<Power>, name: &str) -> (res: bool)
    ensures
        res == has_power_folded(powers@, name@),
{
    let mut i: usize = 0;
    while i < powers.len()
        invariant
            i <= powers@.len(),
            forall|j: int| 0 <= j < i ==> !unicase_equal(#[trigger] powers@[j].power_class_name.text@, name@),
        decreases powers@.len() - i,
    {
        if unicase_eq(powers[i].power_class_name.text.as_str(), name) {
            return true;
        }
        i = i + 1;
    }
    false
}

/// The position of the first of `powers` whose class name equals `name`
/// under Unicode case folding.
pub open spec fn is_first_folded(powers: Seq<Power>, name: Seq<char>, i: int) -> bool {
    &&& 0 <= i < powers.len()
    &&& unicase_equal(powers[i].power_class_name.text@, name)
    &&& forall|j: int| 0 <= j < i ==> !unicase_equal(#[trigger] powers[j].power_class_name.text@, name)
}

/// Applies a tick of the bonus power `name`: ticking adds an empty power
/// of that class at the end; unticking removes the first power of that
/// class (under Unicode case folding), if any.
pub fn set_bonus_power_ticked(powers: &mut Vec<Power>, name: &str, ticked: bool)
    ensures
        ticked ==> final(powers)@.drop_last() == old(powers)@ && final(powers)@.len() == old(powers)@.len() + 1
            && is_empty_power(final(powers)@.last(), name@),
        !ticked && has_power_folded(old(powers)@, name@) ==> exists|i: int|
            is_first_folded(old(powers)@, name@, i) && final(powers)@ == old(powers)@.remove(i),
        !ticked && !has_power_folded(old(powers)@, name@) ==> final(powers)@ == old(powers)@,
{
    if ticked {
        powers.push(Power::with_class_name(name.to_owned()));
        proof {
            assert(powers@.drop_last() =~= old(powers)@);
        }
        return;
    }
    let mut i: usize = 0;
    while i < powers.len()
        invariant
            i <= powers@.len(),
            !ticked,
            powers@ == old(powers)@,
            forall|j: int| 0 <= j < i ==> !unicase_equal(#[trigger] powers@[j].power_class_name.text@, name@),
        decreases powers@.len() - i,
    {
        if unicase_eq(powers[i].power_class_name.text.as_str(), name) {
            proof {
                assert(is_first_folded(old(powers)@, name@, i as int));
            }
            powers.remove(i);
            return;
        }
        i = i + 1;
    }
}

/// Whether one of the Mass Effect 2 `powers` has a class name equal to
/// `name` under Unicode case folding.
pub open spec fn has_me2_power_folded(powers: Seq<Me2Power>, name: Seq<char>) -> bool {
    exists|i: int| 0 <= i < powers.len() && unicase_equal(#[trigger] powers[i].power_class_name@, name)
}

/// Whether the Mass Effect 2 bonus power `name` is ticked.
pub fn me2_bonus_power_ticked(powers: &Vec<Me2Power>, name: &str) -> (res: bool)
    ensures
        res == has_me2_power_folded(powers@, name@),
{
    let mut i: usize = 0;
    while i < powers.len()
        invariant
            i <= powers@.len(),
            forall|j: int| 0 <= j < i ==> !unicase_equal(#[trigger] powers@[j].power_class_name@, name@),
        decreases powers@.len() - i,
    {
        if unicase_eq(powers[i].power_class_name.as_str(), name) {
            return true;
        }
        i = i + 1;
    }
    false
}

/// The position of the first of the Mass Effect 2 `powers` whose class
/// name equals `name` under Unicode case folding.
pub open spec fn is_first_me2_folded(powers: Seq<Me2Power>, name: Seq<char>, i: int) -> bool {
    &&& 0 <= i < powers.len()
    &&& unicase_equal(powers[i].power_class_name@, name)
    &&& forall|j: int| 0 <= j < i ==> !unicase_equal(#[trigger] powers[j].power_class_name@, name)
}

/// Applies a tick of the Mass Effect 2 bonus power `name` (see
/// `set_bonus_power_ticked`).
pub fn set_me2_bonus_power_ticked(powers: &mut Vec<Me2Power>, name: &str, ticked: bool)
    ensures
        ticked ==> final(powers)@.drop_last() == old(powers)@ && final(powers)@.len() == old(powers)@.len() + 1
            && is_empty_me2_power(final(powers)@.last(), name@),
        !ticked && has_me2_power_folded(old(powers)@, name@) ==> exists|i: int|
            is_first_me2_folded(old(powers)@, name@, i) && final(powers)@ == old(powers)@.remove(i),
        !ticked && !has_me2_power_folded(old(powers)@, name@) ==> final(powers)@ == old(powers)@,
{
    if ticked {
        powers.push(Me2Power::with_class_name(name.to_owned()));
        proof {
            assert(powers@.drop_last() =~= old(powers)@);
        }
        return;
    }
    let mut i: usize = 0;
    while i < powers.len()
        invariant
            i <= powers@.len(),
            !ticked,
            powers@ == old(powers)@,
            forall|j: int| 0 <= j < i ==> !unicase_equal(#[trigger] powers@[j].power_class_name@, name@),
        decreases powers@.len() - i,
    {
        if unicase_eq(powers[i].power_class_name.as_str(), name) {
            proof {
                assert(is_first_me2_folded(old(powers)@, name@, i as int));
            }
            powers.remove(i);
            return;
        }
        i = i + 1;
    }
}

} // verus!
