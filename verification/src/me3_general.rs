use vstd::prelude::*;

use crate::index_map::{entries_contain, entries_insert, int_map_entries};
use crate::mass_effect_3::player::{notoriety_variants, origin_variants, Notoriety, Origin, Player, Power};
use crate::mass_effect_3::variables::PlotTable;
use crate::mass_effect_3::Me3SaveGame;
use crate::plot::{
    apply_notoriety_flags, apply_origin_flags, flag_set, notoriety_flags, origin_flags, plot_bool,
    set_plot_bool, set_plot_int_in_map,
};
use crate::save_data::{Float32, ImguiString};
use crate::plot_category::lemma_ascii_ci_eq_reflexive;
use crate::text::{ascii_ci_eq, ascii_lower_code, eq_ignore_ascii_case};

verus! {

/// Plot flag: the Mass Effect 1 Shepard is a woman.
pub const ME1_FEMALE_FLAG: usize = 14639;

/// Plot flag: the Mass Effect 2 Shepard is a woman.
pub const ME2_FEMALE_FLAG: usize = 66;

/// Plot flag: the Mass Effect 3 Shepard is a woman.
pub const ME3_FEMALE_FLAG: usize = 17662;

/// Plot flag: Shepard's nickname is Loco.
pub const LOCO_FLAG: usize = 19578;

/// Plot flag: Shepard's nickname is Lola.
pub const LOLA_FLAG: usize = 19579;

/// Plot variable holding the Mass Effect 1 origin.
pub const ME1_ORIGIN_VARIABLE: i32 = 10001;

/// Plot variable holding the Mass Effect 1 notoriety.
pub const ME1_NOTORIETY_VARIABLE: i32 = 10002;

/// The number of classes a Mass Effect 3 player can have.
pub const ME3_CLASS_COUNT: usize = 12;

/// Whether flag `idx` is there and set.
pub open spec fn flag_on(flags: Seq<bool>, idx: int) -> bool {
    0 <= idx < flags.len() && flags[idx]
}

/// The plot flags after choosing the gender (`female` or not): the three
/// games' gender flags follow it, and when Shepard has a nickname, it
/// becomes Loco for a man and Lola for a woman.
pub open spec fn me3_gender_flags(flags: Seq<bool>, female: bool) -> Seq<bool> {
    let f = flag_set(flag_set(flag_set(flags, 14639, female), 66, female), 17662, female);
    if flag_on(flags, 19578) || flag_on(flags, 19579) {
        flag_set(flag_set(f, 19578, !female), 19579, female)
    } else {
        f
    }
}

/// Records the gender in the plot flags (see `me3_gender_flags`).
pub fn apply_me3_gender_flags(flags: &mut Vec<bool>, female: bool)
    ensures
        final(flags)@ == me3_gender_flags(old(flags)@, female),
{
    let is_loco = match plot_bool(flags, LOCO_FLAG) {
        Some(b) => b,
        None => false,
    };
    let is_lola = match plot_bool(flags, LOLA_FLAG) {
        Some(b) => b,
        None => false,
    };
    set_plot_bool(flags, ME1_FEMALE_FLAG, female);
    set_plot_bool(flags, ME2_FEMALE_FLAG, female);
    set_plot_bool(flags, ME3_FEMALE_FLAG, female);
    if is_loco || is_lola {
        set_plot_bool(flags, LOCO_FLAG, !female);
        set_plot_bool(flags, LOLA_FLAG, female);
    }
}

/// The origin chosen at position `idx` of the list.
pub open spec fn origin_at(idx: int) -> Origin {
    if idx == 0 {
        Origin::NotSet
    } else if idx == 1 {
        Origin::Spacer
    } else if idx == 2 {
        Origin::Colonist
    } else {
        Origin::Earthborn
    }
}

/// The origin at position `idx` of the list.
pub fn origin_from_index(idx: usize) -> (origin: Origin)
    requires
        idx < 4,
    ensures
        origin == origin_at(idx as int),
{
    if idx == 0 {
        Origin::NotSet
    } else if idx == 1 {
        Origin::Spacer
    } else if idx == 2 {
        Origin::Colonist
    } else {
        Origin::Earthborn
    }
}

/// The notoriety chosen at position `idx` of the list.
pub open spec fn notoriety_at(idx: int) -> Notoriety {
    if idx == 0 {
        Notoriety::NotSet
    } else if idx == 1 {
        Notoriety::Survivor
    } else if idx == 2 {
        Notoriety::Warhero
    } else {
        Notoriety::Ruthless
    }
}

/// The notoriety at position `idx` of the list.
pub fn notoriety_from_index(idx: usize) -> (notoriety: Notoriety)
    requires
        idx < 4,
    ensures
        notoriety == notoriety_at(idx as int),
{
    if idx == 0 {
        Notoriety::NotSet
    } else if idx == 1 {
        Notoriety::Survivor
    } else if idx == 2 {
        Notoriety::Warhero
    } else {
        Notoriety::Ruthless
    }
}

/// The class name of the Mass Effect 3 class at position `idx`: Soldier,
/// Engineer, Adept, Infiltrator, Sentinel, Vanguard, each followed by its
/// out-of-combat form.
pub open spec fn me3_class_name(idx: int) -> Seq<char> {
    if idx == 0 {
        "SFXGame.SFXPawn_PlayerSoldier"@
    } else if idx == 1 {
        "SFXGame.SFXPawn_PlayerSoldierNonCombat"@
    } else if idx == 2 {
        "SFXGame.SFXPawn_PlayerEngineer"@
    } else if idx == 3 {
        "SFXGame.SFXPawn_PlayerEngineerNonCombat"@
    } else if idx == 4 {
        "SFXGame.SFXPawn_PlayerAdept"@
    } else if idx == 5 {
        "SFXGame.SFXPawn_PlayerAdeptNonCombat"@
    } else if idx == 6 {
        "SFXGame.SFXPawn_PlayerInfiltrator"@
    } else if idx == 7 {
        "SFXGame.SFXPawn_PlayerInfiltratorNonCombat"@
    } else if idx == 8 {
        "SFXGame.SFXPawn_PlayerSentinel"@
    } else if idx == 9 {
        "SFXGame.SFXPawn_PlayerSentinelNonCombat"@
    } else if idx == 10 {
        "SFXGame.SFXPawn_PlayerVanguard"@
    } else {
        "SFXGame.SFXPawn_PlayerVanguardNonCombat"@
    }
}

/// Law: the class list, in order: Soldier, Engineer, Adept, Infiltrator,
/// Sentinel, Vanguard, each followed by its out-of-combat form.
pub proof fn law_me3_class_list(idx: int)
    requires
        0 <= idx < 12,
    ensures
        me3_class_name(idx) == seq![
            "SFXGame.SFXPawn_PlayerSoldier"@,
            "SFXGame.SFXPawn_PlayerSoldierNonCombat"@,
            "SFXGame.SFXPawn_PlayerEngineer"@,
            "SFXGame.SFXPawn_PlayerEngineerNonCombat"@,
            "SFXGame.SFXPawn_PlayerAdept"@,
            "SFXGame.SFXPawn_PlayerAdeptNonCombat"@,
            "SFXGame.SFXPawn_PlayerInfiltrator"@,
            "SFXGame.SFXPawn_PlayerInfiltratorNonCombat"@,
            "SFXGame.SFXPawn_PlayerSentinel"@,
            "SFXGame.SFXPawn_PlayerSentinelNonCombat"@,
            "SFXGame.SFXPawn_PlayerVanguard"@,
            "SFXGame.SFXPawn_PlayerVanguardNonCombat"@,
        ][idx],
{
}

/// Law: the origin and notoriety lists offer the variants in the order
/// they are declared (and stored): none, Spacer, Colonist, Earthborn; none,
/// Survivor, War hero, Ruthless.
pub proof fn law_origin_notoriety_lists(idx: int)
    requires
        0 <= idx < 4,
    ensures
        origin_at(idx) == origin_variants()[idx],
        notoriety_at(idx) == notoriety_variants()[idx],
{
}

/// Law: choosing the gender sets the gender flag of each of the three
/// games (14639, 66, 17662) to it; when Shepard has a nickname, Loco
/// (19578) goes to a man and Lola (19579) to a woman; no other flag changes.
pub proof fn law_me3_gender_flags(flags: Seq<bool>, female: bool)
    requires
        flags.len() > 19579,
    ensures
        me3_gender_flags(flags, female).len() == flags.len(),
        me3_gender_flags(flags, female)[14639] == female,
        me3_gender_flags(flags, female)[66] == female,
        me3_gender_flags(flags, female)[17662] == female,
        (flags[19578] || flags[19579]) ==> {
            &&& me3_gender_flags(flags, female)[19578] == !female
            &&& me3_gender_flags(flags, female)[19579] == female
        },
        !(flags[19578] || flags[19579]) ==> {
            &&& !me3_gender_flags(flags, female)[19578]
            &&& !me3_gender_flags(flags, female)[19579]
        },
        forall|i: int|
            0 <= i < flags.len() && i != 14639 && i != 66 && i != 17662 && i != 19578 && i != 19579
                ==> #[trigger] me3_gender_flags(flags, female)[i] == flags[i],
{
}

/// The class name of the Mass Effect 3 class at position `idx`.
pub fn me3_class_name_str(idx: usize) -> (name: &'static str)
    requires
        idx < ME3_CLASS_COUNT,
    ensures
        name@ == me3_class_name(idx as int),
{
    if idx == 0 {
        "SFXGame.SFXPawn_PlayerSoldier"
    } else if idx == 1 {
        "SFXGame.SFXPawn_PlayerSoldierNonCombat"
    } else if idx == 2 {
        "SFXGame.SFXPawn_PlayerEngineer"
    } else if idx == 3 {
        "SFXGame.SFXPawn_PlayerEngineerNonCombat"
    } else if idx == 4 {
        "SFXGame.SFXPawn_PlayerAdept"
    } else if idx == 5 {
        "SFXGame.SFXPawn_PlayerAdeptNonCombat"
    } else if idx == 6 {
        "SFXGame.SFXPawn_PlayerInfiltrator"
    } else if idx == 7 {
        "SFXGame.SFXPawn_PlayerInfiltratorNonCombat"
    } else if idx == 8 {
        "SFXGame.SFXPawn_PlayerSentinel"
    } else if idx == 9 {
        "SFXGame.SFXPawn_PlayerSentinelNonCombat"
    } else if idx == 10 {
        "SFXGame.SFXPawn_PlayerVanguard"
    } else {
        "SFXGame.SFXPawn_PlayerVanguardNonCombat"
    }
}

/// The position of the class named `class_name` (ASCII case ignored) in
/// the class list, or 0 when it is none of them.
pub fn me3_class_index(class_name: &str) -> (idx: usize)
    ensures
        idx < ME3_CLASS_COUNT,
        forall|j: int| 0 <= j < idx ==> !ascii_ci_eq(class_name@, #[trigger] me3_class_name(j)),
        (exists|j: int| 0 <= j < 12 && ascii_ci_eq(class_name@, #[trigger] me3_class_name(j)))
            ==> ascii_ci_eq(class_name@, me3_class_name(idx as int)),
        (forall|j: int| 0 <= j < 12 ==> !ascii_ci_eq(class_name@, #[trigger] me3_class_name(j)))
            ==> idx == 0,
        forall|i: int| 0 <= i < 12 && class_name@ == #[trigger] me3_class_name(i) ==> idx == i,
{
    let mut i: usize = 0;
    while i < ME3_CLASS_COUNT
        invariant
            i <= 12,
            forall|j: int| 0 <= j < i ==> !ascii_ci_eq(class_name@, #[trigger] me3_class_name(j)),
        decreases 12 - i,
    {
        if eq_ignore_ascii_case(class_name, me3_class_name_str(i)) {
            proof {
                assert forall|k: int| 0 <= k < 12 && class_name@ == #[trigger] me3_class_name(k) implies i == k by {
                    law_me3_class_round_trip(k, i as int);
                }
            }
            return i;
        }
        i = i + 1;
    }
    proof {
        assert forall|k: int| 0 <= k < 12 && class_name@ == #[trigger] me3_class_name(k) implies 0 == k by {
            lemma_ascii_ci_eq_reflexive(class_name@);
        }
    }
    0
}

/// A Mass Effect 3 save game that is `a` but for its player and plot.
pub open spec fn same_but_player_and_plot(a: Me3SaveGame, b: Me3SaveGame) -> bool {
    &&& a.version == b.version 
    &&& a.debug_name == b.debug_name 
    &&& a.seconds_played == b.seconds_played 
    &&& a.disc == b.disc 
    &&& a.base_level_name == b.base_level_name 
    &&& a.base_level_name_display_override_as_read == b.base_level_name_display_override_as_read 
    &&& a.difficulty == b.difficulty 
    &&& a.end_game_state == b.end_game_state 
    &&& a.timestamp == b.timestamp 
    &&& a.location == b.location 
    &&& a.rotation == b.rotation 
    &&& a.current_loading_tip == b.current_loading_tip 
    &&& a.levels == b.levels 
    &&& a.streaming_records == b.streaming_records 
    &&& a.kismet_records == b.kismet_records 
    &&& a.doors == b.doors 
    &&& a.placeables == b.placeables 
    &&& a.pawns == b.pawns 
    &&& a.powers == b.powers 
    &&& a.gaw_assets == b.gaw_assets 
    &&& a.weapons == b.weapons 
    &&& a.weapons_mods == b.weapons_mods 
    &&& a.weapons_loadout == b.weapons_loadout 
    &&& a.primary_weapon == b.primary_weapon 
    &&& a.secondary_weapon == b.secondary_weapon 
    &&& a.loadout_weapon_group == b.loadout_weapon_group 
    &&& a.hotkeys == b.hotkeys 
    &&& a.current_health == b.current_health 
    &&& a.credits == b.credits 
    &&& a.medigel == b.medigel 
    &&& a.eezo == b.eezo 
    &&& a.iridium == b.iridium 
    &&& a.palladium == b.palladium 
    &&& a.platinum == b.platinum 
    &&& a.probes == b.probes 
    &&& a.current_fuel == b.current_fuel 
    &&& a.grenades == b.grenades 
    &&& a.face_code == b.face_code 
    &&& a.class_friendly_name == b.class_friendly_name 
    &&& a.character_guid == b.character_guid 
    &&& a.henchmen == b.henchmen 
    &&& a.me1_plot == b.me1_plot 
    &&& a.player_variables == b.player_variables 
    &&& a.galaxy_map == b.galaxy_map 
    &&& a.dependant_dlcs == b.dependant_dlcs 
    &&& a.treasures == b.treasures 
    &&& a.use_modules == b.use_modules 
    &&& a.conversation_mode == b.conversation_mode 
    &&& a.objective_markers == b.objective_markers 
    &&& a.saved_objective_text == b.saved_objective_text 
    &&& a.checksum == b.checksum
}

/// A plot table that is `a` but for its boolean variables.
pub open spec fn same_but_bools(a: PlotTable, b: PlotTable) -> bool {
    &&& a.int_variables == b.int_variables
    &&& a.float_variables == b.float_variables
    &&& a.quest_progress_counter == b.quest_progress_counter
    &&& a.quest_progress == b.quest_progress
    &&& a.quest_ids == b.quest_ids
    &&& a.codex_entries == b.codex_entries
    &&& a.codex_ids == b.codex_ids
}

/// A plot table that is `a` but for its boolean and integer variables.
pub open spec fn same_but_bools_and_ints(a: PlotTable, b: PlotTable) -> bool {
    &&& a.float_variables == b.float_variables
    &&& a.quest_progress_counter == b.quest_progress_counter
    &&& a.quest_progress == b.quest_progress
    &&& a.quest_ids == b.quest_ids
    &&& a.codex_entries == b.codex_entries
    &&& a.codex_ids == b.codex_ids
}

/// The integer plot variables after writing `value` under `key`, when the
/// key is there.
pub open spec fn int_variable_set(entries: Seq<(i32, i32)>, key: i32, value: i32) -> Seq<(i32, i32)> {
    if entries_contain(entries, key) {
        entries_insert(entries, key, value)
    } else {
        entries
    }
}

/// An edit of the general page of a Mass Effect 3 save game.
pub enum Msg {
    /// Position in (male, female).
    Gender(usize),
    /// Position in (none, Spacer, Colonist, Earthborn).
    Origin(usize),
    /// Position in (none, Survivor, War hero, Ruthless).
    Notoriety(usize),
    /// Position in the class list (see `me3_class_name`).
    PlayerClass(usize),
}

/// What an edit asks of its position: one of the listed choices.
pub open spec fn msg_in_range(msg: Msg) -> bool {
    match msg {
        Msg::Gender(_) => true,
        Msg::Origin(i) => i < 4,
        Msg::Notoriety(i) => i < 4,
        Msg::PlayerClass(i) => i < 12,
    }
}

/// The general page of a Mass Effect 3 save game.
pub struct Me3General;

impl Me3General {
    /// Applies an edit. A gender sets the player's and the plot's
    /// (see `me3_gender_flags`); an origin or a notoriety sets the player's,
    /// the imported plot flags and the imported plot variable; a class sets
    /// the player's class name. Nothing else changes, and no redraw is asked.
    #[verifier::rlimit(50)]
    pub fn update(&mut self, save_game: &mut Me3SaveGame, msg: Msg) -> (redraw: bool)
        requires
            msg_in_range(msg),
        ensures
            !redraw,
            same_but_player_and_plot(*old(save_game), *final(save_game)),
            match msg {
                Msg::Gender(g) => {
                    &&& final(save_game).player == Player { is_female: g != 0, ..old(save_game).player }
                    &&& final(save_game).plot.bool_variables.variables@ == me3_gender_flags(
                        old(save_game).plot.bool_variables.variables@,
                        g != 0,
                    )
                    &&& same_but_bools(old(save_game).plot, final(save_game).plot)
                },
                Msg::Origin(i) => {
                    &&& final(save_game).player == Player { origin: origin_at(i as int), ..old(save_game).player }
                    &&& final(save_game).plot.bool_variables.variables@ == origin_flags(
                        old(save_game).plot.bool_variables.variables@,
                        origin_at(i as int),
                    )
                    &&& int_map_entries(final(save_game).plot.int_variables) == int_variable_set(
                        int_map_entries(old(save_game).plot.int_variables),
                        10001,
                        i as i32,
                    )
                    &&& same_but_bools_and_ints(old(save_game).plot, final(save_game).plot)
                },
                Msg::Notoriety(i) => {
                    &&& final(save_game).player == Player { notoriety: notoriety_at(i as int), ..old(save_game).player }
                    &&& final(save_game).plot.bool_variables.variables@ == notoriety_flags(
                        old(save_game).plot.bool_variables.variables@,
                        notoriety_at(i as int),
                    )
                    &&& int_map_entries(final(save_game).plot.int_variables) == int_variable_set(
                        int_map_entries(old(save_game).plot.int_variables),
                        10002,
                        i as i32,
                    )
                    &&& same_but_bools_and_ints(old(save_game).plot, final(save_game).plot)
                },
                Msg::PlayerClass(i) => {
                    &&& final(save_game).player.class_name.text@ == me3_class_name(i as int)
                    &&& final(save_game).player == Player { class_name: final(save_game).player.class_name, ..old(save_game).player }
                    &&& final(save_game).plot == old(save_game).plot
                },
            },
    {
        match msg {
            Msg::Gender(g) => {
                let female = g != 0;
                save_game.player.is_female = female;
                apply_me3_gender_flags(&mut save_game.plot.bool_variables.variables, female);
            },
            Msg::Origin(i) => {
                let origin = origin_from_index(i);
                save_game.player.origin = origin;
                apply_origin_flags(&mut save_game.plot.bool_variables.variables, origin);
                set_plot_int_in_map(&mut save_game.plot.int_variables, ME1_ORIGIN_VARIABLE, i as i32);
            },
            Msg::Notoriety(i) => {
                let notoriety = notoriety_from_index(i);
                save_game.player.notoriety = notoriety;
                apply_notoriety_flags(&mut save_game.plot.bool_variables.variables, notoriety);
                set_plot_int_in_map(&mut save_game.plot.int_variables, ME1_NOTORIETY_VARIABLE, i as i32);
            },
            Msg::PlayerClass(i) => {
                save_game.player.class_name = ImguiString { text: me3_class_name_str(i).to_owned() };
            },
        }
        false
    }
}

/// Whether one of `powers` has the class name `name` (ASCII case ignored).
pub open spec fn has_power(powers: Seq<Power>, name: Seq<char>) -> bool {
    exists|i: int| 0 <= i < powers.len() && ascii_ci_eq(#[trigger] powers[i].power_class_name.text@, name)
}

/// The position of the first power of `powers` with the class name `name`
/// (ASCII case ignored).
pub open spec fn is_first_power(powers: Seq<Power>, name: Seq<char>, i: int) -> bool {
    &&& 0 <= i < powers.len()
    &&& ascii_ci_eq(powers[i].power_class_name.text@, name)
    &&& forall|j: int| 0 <= j < i ==> !ascii_ci_eq(#[trigger] powers[j].power_class_name.text@, name)
}

/// `power` is the power of class `name` with every other field empty: no
/// name, rank 0.0, no evolution chosen, first wheel place.
pub open spec fn is_empty_power(power: Power, name: Seq<char>) -> bool {
    &&& power.power_class_name.text@ == name
    &&& power.name.text@ == Seq::<char>::empty()
    &&& power.current_rank == (Float32 { bits: 0 })
    &&& power.evolved_choice_0 == 0 && power.evolved_choice_1 == 0 && power.evolved_choice_2 == 0
    &&& power.evolved_choice_3 == 0 && power.evolved_choice_4 == 0 && power.evolved_choice_5 == 0
    &&& power.wheel_display_index == 0
}

impl Power {
    /// A power of class `power_class_name` with every other field empty.
    pub fn with_class_name(power_class_name: String) -> (power: Power)
        ensures
            power.power_class_name.text@ == power_class_name@,
            power.name.text@ == Seq::<char>::empty(),
            power.current_rank == (Float32 { bits: 0 }),
            power.evolved_choice_0 == 0 && power.evolved_choice_1 == 0 && power.evolved_choice_2 == 0,
            power.evolved_choice_3 == 0 && power.evolved_choice_4 == 0 && power.evolved_choice_5 == 0,
            power.wheel_display_index == 0,
    {
        Power {
            name: ImguiString { text: String::new() },
            current_rank: Float32 { bits: 0 },
            evolved_choice_0: 0,
            evolved_choice_1: 0,
            evolved_choice_2: 0,
            evolved_choice_3: 0,
            evolved_choice_4: 0,
            evolved_choice_5: 0,
            power_class_name: ImguiString { text: power_class_name },
            wheel_display_index: 0,
        }
    }
}

/// Toggles the bonus power `power_class_name`: the first power of that
/// class (ASCII case ignored) is removed, or, when there is none, an empty
/// power of that class is added at the end.
pub fn toggle_bonus_power(powers: &mut Vec<Power>, power_class_name: String)
    ensures
        has_power(old(powers)@, power_class_name@) ==> exists|i: int|
            is_first_power(old(powers)@, power_class_name@, i) && final(powers)@ == old(powers)@.remove(i),
        !has_power(old(powers)@, power_class_name@) ==> {
            &&& final(powers)@.len() == old(powers)@.len() + 1
            &&& final(powers)@.drop_last() == old(powers)@
            &&& is_empty_power(final(powers)@.last(), power_class_name@)
        },
{
    let mut i: usize = 0;
    while i < powers.len()
        invariant
            i <= powers@.len(),
            powers@ == old(powers)@,
            forall|j: int| 0 <= j < i ==> !ascii_ci_eq(#[trigger] powers@[j].power_class_name.text@, power_class_name@),
        decreases powers@.len() - i,
    {
        if eq_ignore_ascii_case(powers[i].power_class_name.text.as_str(), power_class_name.as_str()) {
            proof {
                assert(is_first_power(old(powers)@, power_class_name@, i as int));
            }
            powers.remove(i);
            return;
        }
        i = i + 1;
    }
    powers.push(Power::with_class_name(power_class_name));
    proof {
        assert(powers@.drop_last() =~= old(powers)@);
    }
}


/// Law: choosing the same gender twice gives the plot flags that choosing
/// it once gives.
pub proof fn law_gender_idempotent(flags: Seq<bool>, female: bool)
    ensures
        me3_gender_flags(me3_gender_flags(flags, female), female) == me3_gender_flags(flags, female),
{
    let once = me3_gender_flags(flags, female);
    let twice = me3_gender_flags(once, female);
    assert(twice =~= once);
}

/// Law: a bonus power toggled on (the player having none of that class)
/// and then off again leaves the powers as they were: the power found the
/// second time is the one added.
pub proof fn law_bonus_power_toggle_undone(powers: Seq<Power>, name: Seq<char>, added: Power, i: int)
    requires
        !has_power(powers, name),
        added.power_class_name.text@ == name,
        is_first_power(powers.push(added), name, i),
    ensures
        i == powers.len(),
        powers.push(added).remove(i) == powers,
{
    if i < powers.len() {
        assert(powers.push(added)[i] == powers[i]);
        assert(has_power(powers, name));
    }
    assert(powers.push(added).remove(i) =~= powers);
}

/// Law: a bonus power toggled on by a player without it can be found again
/// by its class name.
pub proof fn law_added_power_found(powers: Seq<Power>, name: Seq<char>, added: Power)
    requires
        added.power_class_name.text@ == name,
    ensures
        has_power(powers.push(added), name),
{
    let all = powers.push(added);
    assert(all[powers.len() as int] == added);
    assert(ascii_ci_eq(all[powers.len() as int].power_class_name.text@, name));
}

/// The length of the class name at position `idx` of the list.
pub open spec fn me3_class_name_len(idx: int) -> int {
    if idx == 0 {
        29
    } else if idx == 1 {
        38
    } else if idx == 2 {
        30
    } else if idx == 3 {
        39
    } else if idx == 4 {
        27
    } else if idx == 5 {
        36
    } else if idx == 6 {
        33
    } else if idx == 7 {
        42
    } else if idx == 8 {
        30
    } else if idx == 9 {
        39
    } else if idx == 10 {
        30
    } else {
        39
    }
}

/// The first letter of the class part (after `SFXGame.SFXPawn_Player`) of
/// the class name at position `idx` of the list.
pub open spec fn me3_class_key(idx: int) -> char {
    if idx == 0 {
        'S'
    } else if idx == 1 {
        'S'
    } else if idx == 2 {
        'E'
    } else if idx == 3 {
        'E'
    } else if idx == 4 {
        'A'
    } else if idx == 5 {
        'A'
    } else if idx == 6 {
        'I'
    } else if idx == 7 {
        'I'
    } else if idx == 8 {
        'S'
    } else if idx == 9 {
        'S'
    } else if idx == 10 {
        'V'
    } else {
        'V'
    }
}

/// The class name at position `idx` has the length and the class letter
/// above.
proof fn lemma_me3_class_name_shape(idx: int)
    requires
        0 <= idx < 12,
    ensures
        me3_class_name(idx).len() == me3_class_name_len(idx),
        me3_class_name(idx)[22] == me3_class_key(idx),
{
    if idx == 0 {
        reveal_strlit("SFXGame.SFXPawn_PlayerSoldier");
    } else if idx == 1 {
        reveal_strlit("SFXGame.SFXPawn_PlayerSoldierNonCombat");
    } else if idx == 2 {
        reveal_strlit("SFXGame.SFXPawn_PlayerEngineer");
    } else if idx == 3 {
        reveal_strlit("SFXGame.SFXPawn_PlayerEngineerNonCombat");
    } else if idx == 4 {
        reveal_strlit("SFXGame.SFXPawn_PlayerAdept");
    } else if idx == 5 {
        reveal_strlit("SFXGame.SFXPawn_PlayerAdeptNonCombat");
    } else if idx == 6 {
        reveal_strlit("SFXGame.SFXPawn_PlayerInfiltrator");
    } else if idx == 7 {
        reveal_strlit("SFXGame.SFXPawn_PlayerInfiltratorNonCombat");
    } else if idx == 8 {
        reveal_strlit("SFXGame.SFXPawn_PlayerSentinel");
    } else if idx == 9 {
        reveal_strlit("SFXGame.SFXPawn_PlayerSentinelNonCombat");
    } else if idx == 10 {
        reveal_strlit("SFXGame.SFXPawn_PlayerVanguard");
    } else if idx == 11 {
        reveal_strlit("SFXGame.SFXPawn_PlayerVanguardNonCombat");
    }
}

/// Law: no two class names of the list are equal, even with ASCII case
/// ignored.
pub proof fn law_me3_class_names_distinct(i: int, j: int)
    requires
        0 <= i < 12,
        0 <= j < 12,
        i != j,
    ensures
        !ascii_ci_eq(me3_class_name(i), me3_class_name(j)),
{
    lemma_me3_class_name_shape(i);
    lemma_me3_class_name_shape(j);
    if me3_class_name(i).len() == me3_class_name(j).len() {
        assert(ascii_lower_code(me3_class_name(i)[22]) != ascii_lower_code(me3_class_name(j)[22]));
    }
}

/// Law: the class chosen at position `i` is found again at position `i`
/// from its name: whatever position the class search gives for that name
/// (the first class equal to it with ASCII case ignored) is `i`.
pub proof fn law_me3_class_round_trip(i: int, idx: int)
    requires
        0 <= i < 12,
        0 <= idx < 12,
        ascii_ci_eq(me3_class_name(i), me3_class_name(idx)),
    ensures
        idx == i,
{
    if idx != i {
        law_me3_class_names_distinct(i, idx);
    }
}

} // verus!
