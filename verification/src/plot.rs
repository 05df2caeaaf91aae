use indexmap::IndexMap;
use vstd::prelude::*;

use crate::index_map::{entries_contain, entries_insert, int_map_entries, int_map_get, int_map_insert};
use crate::mass_effect_3::player::{Notoriety, Origin};

verus! {

/// `flags` with flag `idx` set to `value` when the flag is there.
pub open spec fn flag_set(flags: Seq<bool>, idx: int, value: bool) -> Seq<bool> {
    if 0 <= idx < flags.len() {
        flags.update(idx, value)
    } else {
        flags
    }
}

/// Sets boolean plot `idx` to `value` when the plot is there; a missing
/// plot is left missing.
pub fn set_plot_bool(flags: &mut Vec<bool>, idx: usize, value: bool)
    ensures
        final(flags)@ == flag_set(old(flags)@, idx as int, value),
{
    if idx < flags.len() {
        flags.set(idx, value);
    }
}

/// The value of boolean plot `idx`, when it is there.
pub fn plot_bool(flags: &Vec<bool>, idx: usize) -> (res: Option<bool>)
    ensures
        res == (if idx < flags@.len() { Some(flags@[idx as int]) } else { None::<bool> }),
{
    if idx < flags.len() {
        Some(flags[idx])
    } else {
        None
    }
}

/// `values` with value `idx` set to `value` when it is there.
pub open spec fn int_set(values: Seq<i32>, idx: int, value: i32) -> Seq<i32> {
    if 0 <= idx < values.len() {
        values.update(idx, value)
    } else {
        values
    }
}

/// Sets integer plot `idx` of a list to `value` when the plot is there.
pub fn set_plot_int(values: &mut Vec<i32>, idx: usize, value: i32)
    ensures
        final(values)@ == int_set(old(values)@, idx as int, value),
{
    if idx < values.len() {
        values.set(idx, value);
    }
}

/// Sets integer plot `key` of a map to `value` when the plot is there; a
/// missing plot is left missing.
pub fn set_plot_int_in_map(values: &mut IndexMap<i32, i32>, key: i32, value: i32)
    ensures
        int_map_entries(*final(values)) == (if entries_contain(int_map_entries(*old(values)), key) {
            entries_insert(int_map_entries(*old(values)), key, value)
        } else {
            int_map_entries(*old(values))
        }),
{
    if int_map_get(values, key).is_some() {
        int_map_insert(values, key, value);
    }
}

/// Plot flag of a Spacer origin, imported from Mass Effect 1.
pub const SPACER_FLAG: usize = 1533;

/// Plot flag of an Earthborn origin, imported from Mass Effect 1.
pub const EARTHBORN_FLAG: usize = 1534;

/// Plot flag of a Colonist origin, imported from Mass Effect 1.
pub const COLONIST_FLAG: usize = 1535;

/// Plot flag of a Survivor past, imported from Mass Effect 1.
pub const SURVIVOR_FLAG: usize = 1537;

/// Plot flag of a War Hero past, imported from Mass Effect 1.
pub const WAR_HERO_FLAG: usize = 1538;

/// Plot flag of a Ruthless past, imported from Mass Effect 1.
pub const RUTHLESS_FLAG: usize = 1539;

/// Sets three flags, as far as they are there.
pub open spec fn three_flags_set(flags: Seq<bool>, a: int, va: bool, b: int, vb: bool, c: int, vc: bool) -> Seq<bool> {
    flag_set(flag_set(flag_set(flags, a, va), b, vb), c, vc)
}

/// The imported plot flags after choosing `origin`: the flag of the origin
/// set and the two others cleared (in the order Spacer, Colonist,
/// Earthborn); no origin leaves the flags alone.
pub open spec fn origin_flags(flags: Seq<bool>, origin: Origin) -> Seq<bool> {
    match origin {
        Origin::NotSet => flags,
        Origin::Spacer => three_flags_set(flags, 1533, true, 1535, false, 1534, false),
        Origin::Colonist => three_flags_set(flags, 1533, false, 1535, true, 1534, false),
        Origin::Earthborn => three_flags_set(flags, 1533, false, 1535, false, 1534, true),
    }
}

/// Records `origin` in the imported plot flags (see `origin_flags`).
pub fn apply_origin_flags(flags: &mut Vec<bool>, origin: Origin)
    ensures
        final(flags)@ == origin_flags(old(flags)@, origin),
{
    match origin {
        Origin::NotSet => {},
        Origin::Spacer => {
            set_plot_bool(flags, SPACER_FLAG, true);
            set_plot_bool(flags, COLONIST_FLAG, false);
            set_plot_bool(flags, EARTHBORN_FLAG, false);
        },
        Origin::Colonist => {
            set_plot_bool(flags, SPACER_FLAG, false);
            set_plot_bool(flags, COLONIST_FLAG, true);
            set_plot_bool(flags, EARTHBORN_FLAG, false);
        },
        Origin::Earthborn => {
            set_plot_bool(flags, SPACER_FLAG, false);
            set_plot_bool(flags, COLONIST_FLAG, false);
            set_plot_bool(flags, EARTHBORN_FLAG, true);
        },
    }
}

/// The imported plot flags after choosing `notoriety`: the flag of the
/// notoriety set and the two others cleared; none leaves the flags alone.
pub open spec fn notoriety_flags(flags: Seq<bool>, notoriety: Notoriety) -> Seq<bool> {
    match notoriety {
        Notoriety::NotSet => flags,
        Notoriety::Survivor => three_flags_set(flags, 1537, true, 1538, false, 1539, false),
        Notoriety::Warhero => three_flags_set(flags, 1537, false, 1538, true, 1539, false),
        Notoriety::Ruthless => three_flags_set(flags, 1537, false, 1538, false, 1539, true),
    }
}

/// Records `notoriety` in the imported plot flags (see `notoriety_flags`).
pub fn apply_notoriety_flags(flags: &mut Vec<bool>, notoriety: Notoriety)
    ensures
        final(flags)@ == notoriety_flags(old(flags)@, notoriety),
{
    match notoriety {
        Notoriety::NotSet => {},
        Notoriety::Survivor => {
            set_plot_bool(flags, SURVIVOR_FLAG, true);
            set_plot_bool(flags, WAR_HERO_FLAG, false);
            set_plot_bool(flags, RUTHLESS_FLAG, false);
        },
        Notoriety::Warhero => {
            set_plot_bool(flags, SURVIVOR_FLAG, false);
            set_plot_bool(flags, WAR_HERO_FLAG, true);
            set_plot_bool(flags, RUTHLESS_FLAG, false);
        },
        Notoriety::Ruthless => {
            set_plot_bool(flags, SURVIVOR_FLAG, false);
            set_plot_bool(flags, WAR_HERO_FLAG, false);
            set_plot_bool(flags, RUTHLESS_FLAG, true);
        },
    }
}

/// Law: once an origin is chosen, exactly the flag of that origin is set
/// among the three origin flags (when the flags are there), and no other
/// plot flag changes.
pub proof fn law_origin_flags_exclusive(flags: Seq<bool>, origin: Origin)
    requires
        flags.len() > 1535,
        origin != Origin::NotSet,
    ensures
        origin_flags(flags, origin)[1533] == (origin == Origin::Spacer),
        origin_flags(flags, origin)[1535] == (origin == Origin::Colonist),
        origin_flags(flags, origin)[1534] == (origin == Origin::Earthborn),
        origin_flags(flags, origin).len() == flags.len(),
        forall|i: int|
            0 <= i < flags.len() && i != 1533 && i != 1534 && i != 1535 ==> #[trigger] origin_flags(
                flags,
                origin,
            )[i] == flags[i],
{
}

/// Law: once a notoriety is chosen, exactly its flag is set among the three
/// notoriety flags (when they are there), and no other plot flag changes.
pub proof fn law_notoriety_flags_exclusive(flags: Seq<bool>, notoriety: Notoriety)
    requires
        flags.len() > 1539,
        notoriety != Notoriety::NotSet,
    ensures
        notoriety_flags(flags, notoriety)[1537] == (notoriety == Notoriety::Survivor),
        notoriety_flags(flags, notoriety)[1538] == (notoriety == Notoriety::Warhero),
        notoriety_flags(flags, notoriety)[1539] == (notoriety == Notoriety::Ruthless),
        notoriety_flags(flags, notoriety).len() == flags.len(),
        forall|i: int|
            0 <= i < flags.len() && i != 1537 && i != 1538 && i != 1539 ==> #[trigger] notoriety_flags(
                flags,
                notoriety,
            )[i] == flags[i],
{
}

} // verus!
