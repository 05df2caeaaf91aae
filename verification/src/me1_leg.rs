use vstd::prelude::*;

use crate::markup::same_text;
use crate::mass_effect_3::player::{Notoriety, Origin};
use crate::me3_general::{notoriety_at, notoriety_from_index, origin_at, origin_from_index};
use crate::plot::{int_set, set_plot_int};
use crate::talents::{ranks_fit, reset_talents, sum_ranks, unranked, ComplexTalent};

verus! {

/// The player of a Mass Effect 1 (2007 edition) save game, as far as
/// the general page changes it.
pub struct Me1LegPlayer {
    pub is_female: bool,
    pub origin: Origin,
    pub notoriety: Notoriety,
    pub talent_points: i32,
    pub complex_talents: Vec<ComplexTalent>,
}

/// A squad member of a Mass Effect 1 (2007 edition) save game.
pub struct Me1LegHenchman {
    pub tag: String,
    pub talent_points: i32,
    pub complex_talents: Vec<ComplexTalent>,
}

/// The parts of a Mass Effect 1 (2007 edition) save game that the
/// general page changes.
pub struct Me1LegSaveData {
    pub player: Me1LegPlayer,
    pub squad: Vec<Me1LegHenchman>,
    /// The integer plot variables, indexed by plot id.
    pub int_variables: Vec<i32>,
}

/// An edit of the general page of a Mass Effect 1 (2007 edition) save.
pub enum Msg {
    /// Position in (male, female).
    Gender(usize),
    /// Position in (none, Spacer, Colonist, Earthborn).
    Origin(usize),
    /// Position in (none, Survivor, War hero, Ruthless).
    Notoriety(usize),
    /// Takes back the talent points of the player.
    ResetPlayerTalents,
    /// Takes back the talent points of the squad member at this position.
    ResetSquadTalents(usize),
}

/// What an edit needs: a listed choice, a squad member at the position,
/// and points that fit.
pub open spec fn edit_allowed(save: Me1LegSaveData, msg: Msg) -> bool {
    match msg {
        Msg::Gender(_) => true,
        Msg::Origin(i) => i < 4,
        Msg::Notoriety(i) => i < 4,
        Msg::ResetPlayerTalents => ranks_fit(save.player.talent_points as int, save.player.complex_talents@),
        Msg::ResetSquadTalents(i) => i < save.squad@.len() && ranks_fit(
            save.squad@[i as int].talent_points as int,
            save.squad@[i as int].complex_talents@,
        ),
    }
}

/// Applies an edit of the general page: the gender is the player's only;
/// an origin or a notoriety is the player's and goes to plot integer 1 or
/// 2 (when it is there); a reset takes back the points spent in the
/// talents of the player or of a squad member.
pub fn edit_me1_leg(save: &mut Me1LegSaveData, msg: Msg)
    requires
        edit_allowed(*old(save), msg),
    ensures
        match msg {
            Msg::Gender(g) => {
                &&& final(save).player == (Me1LegPlayer { is_female: g != 0, ..old(save).player })
                &&& final(save).squad == old(save).squad
                &&& final(save).int_variables == old(save).int_variables
            },
            Msg::Origin(i) => {
                &&& final(save).player == (Me1LegPlayer { origin: origin_at(i as int), ..old(save).player })
                &&& final(save).int_variables@ == int_set(old(save).int_variables@, 1, i as i32)
                &&& final(save).squad == old(save).squad
            },
            Msg::Notoriety(i) => {
                &&& final(save).player == (Me1LegPlayer { notoriety: notoriety_at(i as int), ..old(save).player })
                &&& final(save).int_variables@ == int_set(old(save).int_variables@, 2, i as i32)
                &&& final(save).squad == old(save).squad
            },
            Msg::ResetPlayerTalents => {
                &&& final(save).player.talent_points == old(save).player.talent_points + sum_ranks(old(save).player.complex_talents@)
                &&& final(save).player.complex_talents@ == old(save).player.complex_talents@.map_values(|t: ComplexTalent| unranked(t))
                &&& final(save).player.is_female == old(save).player.is_female
                &&& final(save).player.origin == old(save).player.origin
                &&& final(save).player.notoriety == old(save).player.notoriety
                &&& final(save).squad == old(save).squad
                &&& final(save).int_variables == old(save).int_variables
            },
            Msg::ResetSquadTalents(i) => {
                &&& final(save).squad@.len() == old(save).squad@.len()
                &&& forall|j: int| 0 <= j < old(save).squad@.len() && j != i ==> #[trigger] final(save).squad@[j] == old(save).squad@[j]
                &&& final(save).squad@[i as int].tag == old(save).squad@[i as int].tag
                &&& final(save).squad@[i as int].talent_points == old(save).squad@[i as int].talent_points + sum_ranks(
                    old(save).squad@[i as int].complex_talents@,
                )
                &&& final(save).squad@[i as int].complex_talents@ == old(save).squad@[i as int].complex_talents@.map_values(
                    |t: ComplexTalent| unranked(t),
                )
                &&& final(save).player == old(save).player
                &&& final(save).int_variables == old(save).int_variables
            },
        },
{
    match msg {
        Msg::Gender(g) => {
            save.player.is_female = g != 0;
        },
        Msg::Origin(i) => {
            save.player.origin = origin_from_index(i);
            set_plot_int(&mut save.int_variables, 1, i as i32);
        },
        Msg::Notoriety(i) => {
            save.player.notoriety = notoriety_from_index(i);
            set_plot_int(&mut save.int_variables, 2, i as i32);
        },
        Msg::ResetPlayerTalents => {
            reset_talents(&mut save.player.talent_points, &mut save.player.complex_talents);
        },
        Msg::ResetSquadTalents(i) => {
            let mut member = save.squad.remove(i);
            reset_talents(&mut member.talent_points, &mut member.complex_talents);
            save.squad.insert(i, member);
        },
    }
}

/// The name of the squad member with tag `tag` on the general page, if it
/// is one of the six (the page shows no reset for any other tag).
pub open spec fn squad_name_of(tag: Seq<char>) -> Option<Seq<char>> {
    if tag == "hench_asari"@ {
        Some("Liara"@)
    } else if tag == "hench_humanfemale"@ {
        Some("Ashley"@)
    } else if tag == "hench_humanmale"@ {
        Some("Kaidan"@)
    } else if tag == "hench_krogan"@ {
        Some("Wrex"@)
    } else if tag == "hench_quarian"@ {
        Some("Tali'Zorah"@)
    } else if tag == "hench_turian"@ {
        Some("Garrus"@)
    } else {
        None
    }
}

/// Law: the six squad members, by tag: asari Liara, human female Ashley,
/// human male Kaidan, krogan Wrex, quarian Tali'Zorah, turian Garrus; any
/// other tag has no name (and no reset is shown for it).
pub proof fn law_squad_names(tag: Seq<char>)
    ensures
        squad_name_of("hench_asari"@) == Some("Liara"@),
        squad_name_of("hench_humanfemale"@) == Some("Ashley"@),
        squad_name_of("hench_humanmale"@) == Some("Kaidan"@),
        squad_name_of("hench_krogan"@) == Some("Wrex"@),
        squad_name_of("hench_quarian"@) == Some("Tali'Zorah"@),
        squad_name_of("hench_turian"@) == Some("Garrus"@),
        (tag != "hench_asari"@ && tag != "hench_humanfemale"@ && tag != "hench_humanmale"@ && tag != "hench_krogan"@ && tag != "hench_quarian"@ && tag != "hench_turian"@) ==> squad_name_of(tag) is None,
{
    reveal_strlit("hench_asari");
    reveal_strlit("hench_humanfemale");
    reveal_strlit("hench_humanmale");
    reveal_strlit("hench_krogan");
    reveal_strlit("hench_quarian");
    reveal_strlit("hench_turian");
    assert("hench_humanfemale"@[6] != "hench_asari"@[6]);
    assert("hench_humanmale"@[6] != "hench_asari"@[6]);
    assert("hench_humanmale"@[11] != "hench_humanfemale"@[11]);
    assert("hench_krogan"@[6] != "hench_asari"@[6]);
    assert("hench_krogan"@[6] != "hench_humanfemale"@[6]);
    assert("hench_krogan"@[6] != "hench_humanmale"@[6]);
    assert("hench_quarian"@[6] != "hench_asari"@[6]);
    assert("hench_quarian"@[6] != "hench_humanfemale"@[6]);
    assert("hench_quarian"@[6] != "hench_humanmale"@[6]);
    assert("hench_quarian"@[6] != "hench_krogan"@[6]);
    assert("hench_turian"@[6] != "hench_asari"@[6]);
    assert("hench_turian"@[6] != "hench_humanfemale"@[6]);
    assert("hench_turian"@[6] != "hench_humanmale"@[6]);
    assert("hench_turian"@[6] != "hench_krogan"@[6]);
    assert("hench_turian"@[6] != "hench_quarian"@[6]);
}

/// The name of the squad member with tag `tag`, if it is one of the six.
pub fn squad_name(tag: &str) -> (name: Option<&'static str>)
    ensures
        name is Some <==> squad_name_of(tag@) is Some,
        name matches Some(n) ==> squad_name_of(tag@) == Some(n@),
{
    if same_text(tag, "hench_asari") {
        Some("Liara")
    } else if same_text(tag, "hench_humanfemale") {
        Some("Ashley")
    } else if same_text(tag, "hench_humanmale") {
        Some("Kaidan")
    } else if same_text(tag, "hench_krogan") {
        Some("Wrex")
    } else if same_text(tag, "hench_quarian") {
        Some("Tali'Zorah")
    } else if same_text(tag, "hench_turian") {
        Some("Garrus")
    } else {
        None
    }
}

} // verus!
