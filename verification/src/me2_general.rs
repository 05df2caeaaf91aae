use vstd::prelude::*;

use crate::mass_effect_3::player::{notoriety_variants, origin_variants, Notoriety, Origin};
use crate::me3_general::{notoriety_at, notoriety_from_index, origin_at, origin_from_index};
use crate::plot::{
    apply_notoriety_flags, apply_origin_flags, flag_set, int_set, notoriety_flags, origin_flags,
    set_plot_bool, set_plot_int,
};
use crate::plot_category::lemma_ascii_ci_eq_reflexive;
use crate::text::{ascii_ci_eq, ascii_lower_code, eq_ignore_ascii_case};

verus! {

/// The player of a Mass Effect 2 save game, as far as the general page
/// changes it.
pub struct Me2Player {
    pub is_female: bool,
    pub origin: Origin,
    pub notoriety: Notoriety,
    pub class_name: String,
}

/// A plot table of booleans and integers, both indexed by plot id.
pub struct Me2PlotTable {
    pub booleans: Vec<bool>,
    pub integers: Vec<i32>,
}

/// The parts of a Mass Effect 2 save game that the general page changes.
pub struct Me2SaveGame {
    pub player: Me2Player,
    /// The plot imported from Mass Effect 1.
    pub me1_plot: Me2PlotTable,
    pub plot: Me2PlotTable,
}

/// The parts of a Mass Effect 2 Legendary Edition save game that the
/// general page changes.
pub struct Me2LeSaveGame {
    pub player: Me2Player,
    /// The plot imported from Mass Effect 1.
    pub me1_plot: Me2PlotTable,
    pub plot: Me2PlotTable,
}

/// A Mass Effect 2 save game of either edition.
pub enum Me2Type {
    Vanilla(Me2SaveGame),
    Legendary(Me2LeSaveGame),
}

/// Plot flag (Mass Effect 1 plot): Shepard is a woman.
pub const ME1_FEMALE_FLAG: usize = 4639;

/// Plot flag (Mass Effect 2 plot): Shepard is a woman.
pub const ME2_FEMALE_FLAG: usize = 66;

/// The number of classes a Mass Effect 2 player can have.
pub const ME2_CLASS_COUNT: usize = 6;

/// The class name of the Mass Effect 2 class at position `idx`: Soldier,
/// Engineer, Adept, Infiltrator, Sentinel, Vanguard.
pub open spec fn me2_class_name(idx: int) -> Seq<char> {
    if idx == 0 {
        "SFXGame.SFXPawn_PlayerSoldier"@
    } else if idx == 1 {
        "SFXGame.SFXPawn_PlayerEngineer"@
    } else if idx == 2 {
        "SFXGame.SFXPawn_PlayerAdept"@
    } else if idx == 3 {
        "SFXGame.SFXPawn_PlayerInfiltrator"@
    } else if idx == 4 {
        "SFXGame.SFXPawn_PlayerSentinel"@
    } else {
        "SFXGame.SFXPawn_PlayerVanguard"@
    }
}

/// The class name of the Mass Effect 2 class at position `idx`.
pub fn me2_class_name_str(idx: usize) -> (name: &'static str)
    requires
        idx < ME2_CLASS_COUNT,
    ensures
        name@ == me2_class_name(idx as int),
{
    if idx == 0 {
        "SFXGame.SFXPawn_PlayerSoldier"
    } else if idx == 1 {
        "SFXGame.SFXPawn_PlayerEngineer"
    } else if idx == 2 {
        "SFXGame.SFXPawn_PlayerAdept"
    } else if idx == 3 {
        "SFXGame.SFXPawn_PlayerInfiltrator"
    } else if idx == 4 {
        "SFXGame.SFXPawn_PlayerSentinel"
    } else {
        "SFXGame.SFXPawn_PlayerVanguard"
    }
}

/// The position of the class named `class_name` (ASCII case ignored) in
/// the class list, or 0 when it is none of them.
pub fn me2_class_index(class_name: &str) -> (idx: usize)
    ensures
        idx < ME2_CLASS_COUNT,
        forall|j: int| 0 <= j < idx ==> !ascii_ci_eq(class_name@, #[trigger] me2_class_name(j)),
        (exists|j: int| 0 <= j < 6 && ascii_ci_eq(class_name@, #[trigger] me2_class_name(j)))
            ==> ascii_ci_eq(class_name@, me2_class_name(idx as int)),
        (forall|j: int| 0 <= j < 6 ==> !ascii_ci_eq(class_name@, #[trigger] me2_class_name(j)))
            ==> idx == 0,
        forall|i: int| 0 <= i < 6 && class_name@ == #[trigger] me2_class_name(i) ==> idx == i,
{
    let mut i: usize = 0;
    while i < ME2_CLASS_COUNT
        invariant
            i <= 6,
            forall|j: int| 0 <= j < i ==> !ascii_ci_eq(class_name@, #[trigger] me2_class_name(j)),
        decreases 6 - i,
    {
        if eq_ignore_ascii_case(class_name, me2_class_name_str(i)) {
            proof {
                assert forall|k: int| 0 <= k < 6 && class_name@ == #[trigger] me2_class_name(k) implies i == k by {
                    law_me2_class_round_trip(k, i as int);
                }
            }
            return i;
        }
        i = i + 1;
    }
    proof {
        assert forall|k: int| 0 <= k < 6 && class_name@ == #[trigger] me2_class_name(k) implies 0 == k by {
            lemma_ascii_ci_eq_reflexive(class_name@);
        }
    }
    0
}

/// Law: the class list, in order: Soldier, Engineer, Adept, Infiltrator,
/// Sentinel, Vanguard.
pub proof fn law_me2_class_list(idx: int)
    requires
        0 <= idx < 6,
    ensures
        me2_class_name(idx) == seq![
            "SFXGame.SFXPawn_PlayerSoldier"@,
            "SFXGame.SFXPawn_PlayerEngineer"@,
            "SFXGame.SFXPawn_PlayerAdept"@,
            "SFXGame.SFXPawn_PlayerInfiltrator"@,
            "SFXGame.SFXPawn_PlayerSentinel"@,
            "SFXGame.SFXPawn_PlayerVanguard"@,
        ][idx],
{
}

/// Law: choosing the gender sets Shepard's gender, the Mass Effect 1
/// gender flag (4639 of the imported plot) and the Mass Effect 2 gender
/// flag (66) to it, and changes nothing else.
pub proof fn law_me2_gender_edit(
    player: Me2Player,
    me1_plot: Me2PlotTable,
    plot: Me2PlotTable,
    new_player: Me2Player,
    new_me1_plot: Me2PlotTable,
    new_plot: Me2PlotTable,
    g: usize,
)
    requires
        me2_edited(player, me1_plot, plot, new_player, new_me1_plot, new_plot, Msg::Gender(g)),
        me1_plot.booleans@.len() > 4639,
        plot.booleans@.len() > 66,
    ensures
        new_player.is_female == (g != 0),
        new_player.class_name == player.class_name,
        new_player.origin == player.origin,
        new_player.notoriety == player.notoriety,
        new_me1_plot.booleans@.len() == me1_plot.booleans@.len(),
        new_plot.booleans@.len() == plot.booleans@.len(),
        new_me1_plot.booleans@[4639] == (g != 0),
        new_plot.booleans@[66] == (g != 0),
        forall|i: int| 0 <= i < me1_plot.booleans@.len() && i != 4639 ==> #[trigger] new_me1_plot.booleans@[i] == me1_plot.booleans@[i],
        forall|i: int| 0 <= i < plot.booleans@.len() && i != 66 ==> #[trigger] new_plot.booleans@[i] == plot.booleans@[i],
        new_me1_plot.integers@ == me1_plot.integers@,
        new_plot.integers@ == plot.integers@,
{
}

/// Law: choosing an origin or a notoriety (position `i` of its list, in
/// the order the variants are declared) records it on the player and in
/// the first (origin) or second (notoriety) integer of the imported plot.
pub proof fn law_me2_origin_notoriety_edit(
    player: Me2Player,
    me1_plot: Me2PlotTable,
    plot: Me2PlotTable,
    new_player: Me2Player,
    new_me1_plot: Me2PlotTable,
    new_plot: Me2PlotTable,
    msg: Msg,
)
    requires
        me2_edited(player, me1_plot, plot, new_player, new_me1_plot, new_plot, msg),
        msg_in_range(msg),
        me1_plot.integers@.len() > 2,
    ensures
        msg matches Msg::Origin(i) ==> {
            &&& new_player.origin == origin_variants()[i as int]
            &&& new_me1_plot.integers@[1] == i as i32
            &&& new_player.notoriety == player.notoriety
        },
        msg matches Msg::Notoriety(i) ==> {
            &&& new_player.notoriety == notoriety_variants()[i as int]
            &&& new_me1_plot.integers@[2] == i as i32
            &&& new_player.origin == player.origin
        },
{
}

/// An edit of the general page of a Mass Effect 2 save game.
pub enum Msg {
    /// Position in (male, female).
    Gender(usize),
    /// Position in (none, Spacer, Colonist, Earthborn).
    Origin(usize),
    /// Position in (none, Survivor, War hero, Ruthless).
    Notoriety(usize),
    /// Position in the class list (see `me2_class_name`).
    PlayerClass(usize),
}

/// What an edit asks of its position: one of the listed choices.
pub open spec fn msg_in_range(msg: Msg) -> bool {
    match msg {
        Msg::Gender(_) => true,
        Msg::Origin(i) => i < 4,
        Msg::Notoriety(i) => i < 4,
        Msg::PlayerClass(i) => i < 6,
    }
}

/// What an edit does to the player and the two plots of a Mass Effect 2
/// save game.
pub open spec fn me2_edited(
    player: Me2Player,
    me1_plot: Me2PlotTable,
    plot: Me2PlotTable,
    new_player: Me2Player,
    new_me1_plot: Me2PlotTable,
    new_plot: Me2PlotTable,
    msg: Msg,
) -> bool {
    match msg {
        Msg::Gender(g) => {
            &&& new_player == Me2Player { is_female: g != 0, ..player }
            &&& new_me1_plot.booleans@ == flag_set(me1_plot.booleans@, 4639, g != 0)
            &&& new_me1_plot.integers == me1_plot.integers
            &&& new_plot.booleans@ == flag_set(plot.booleans@, 66, g != 0)
            &&& new_plot.integers == plot.integers
        },
        Msg::Origin(i) => {
            &&& new_player == Me2Player { origin: origin_at(i as int), ..player }
            &&& new_plot.booleans@ == origin_flags(plot.booleans@, origin_at(i as int))
            &&& new_plot.integers == plot.integers
            &&& new_me1_plot.integers@ == int_set(me1_plot.integers@, 1, i as i32)
            &&& new_me1_plot.booleans == me1_plot.booleans
        },
        Msg::Notoriety(i) => {
            &&& new_player == Me2Player { notoriety: notoriety_at(i as int), ..player }
            &&& new_plot.booleans@ == notoriety_flags(plot.booleans@, notoriety_at(i as int))
            &&& new_plot.integers == plot.integers
            &&& new_me1_plot.integers@ == int_set(me1_plot.integers@, 2, i as i32)
            &&& new_me1_plot.booleans == me1_plot.booleans
        },
        Msg::PlayerClass(i) => {
            &&& new_player.class_name@ == me2_class_name(i as int)
            &&& new_player == Me2Player { class_name: new_player.class_name, ..player }
            &&& new_me1_plot == me1_plot
            &&& new_plot == plot
        },
    }
}

/// Applies an edit to the player and the two plots of a Mass Effect 2
/// save game (see `me2_edited`).
pub fn edit_me2(player: &mut Me2Player, me1_plot: &mut Me2PlotTable, plot: &mut Me2PlotTable, msg: Msg)
    requires
        msg_in_range(msg),
    ensures
        me2_edited(*old(player), *old(me1_plot), *old(plot), *final(player), *final(me1_plot), *final(plot), msg),
{
    match msg {
        Msg::Gender(g) => {
            let female = g != 0;
            player.is_female = female;
            set_plot_bool(&mut me1_plot.booleans, ME1_FEMALE_FLAG, female);
            set_plot_bool(&mut plot.booleans, ME2_FEMALE_FLAG, female);
        },
        Msg::Origin(i) => {
            let origin = origin_from_index(i);
            player.origin = origin;
            apply_origin_flags(&mut plot.booleans, origin);
            set_plot_int(&mut me1_plot.integers, 1, i as i32);
        },
        Msg::Notoriety(i) => {
            let notoriety = notoriety_from_index(i);
            player.notoriety = notoriety;
            apply_notoriety_flags(&mut plot.booleans, notoriety);
            set_plot_int(&mut me1_plot.integers, 2, i as i32);
        },
        Msg::PlayerClass(i) => {
            player.class_name = me2_class_name_str(i).to_owned();
        },
    }
}

/// The general page of a Mass Effect 2 save game.
pub struct Me2General;

impl Me2General {
    /// Applies an edit to the save game of either edition (see
    /// `me2_edited`); no redraw is asked.
    pub fn update(&mut self, save_game: &mut Me2Type, msg: Msg) -> (redraw: bool)
        requires
            msg_in_range(msg),
        ensures
            !redraw,
            match (*old(save_game), *final(save_game)) {
                (Me2Type::Vanilla(a), Me2Type::Vanilla(b)) => me2_edited(a.player, a.me1_plot, a.plot, b.player, b.me1_plot, b.plot, msg),
                (Me2Type::Legendary(a), Me2Type::Legendary(b)) => me2_edited(a.player, a.me1_plot, a.plot, b.player, b.me1_plot, b.plot, msg),
                _ => false,
            },
    {
        match save_game {
            Me2Type::Vanilla(me2) => edit_me2(&mut me2.player, &mut me2.me1_plot, &mut me2.plot, msg),
            Me2Type::Legendary(me2) => edit_me2(&mut me2.player, &mut me2.me1_plot, &mut me2.plot, msg),
        }
        false
    }
}


/// The length of the class name at position `idx` of the list.
pub open spec fn me2_class_name_len(idx: int) -> int {
    if idx == 0 {
        29
    } else if idx == 1 {
        30
    } else if idx == 2 {
        27
    } else if idx == 3 {
        33
    } else if idx == 4 {
        30
    } else {
        30
    }
}

/// The first letter of the class part (after `SFXGame.SFXPawn_Player`) of
/// the class name at position `idx` of the list.
pub open spec fn me2_class_key(idx: int) -> char {
    if idx == 0 {
        'S'
    } else if idx == 1 {
        'E'
    } else if idx == 2 {
        'A'
    } else if idx == 3 {
        'I'
    } else if idx == 4 {
        'S'
    } else {
        'V'
    }
}

/// The class name at position `idx` has the length and the class letter
/// above.
proof fn lemma_me2_class_name_shape(idx: int)
    requires
        0 <= idx < 6,
    ensures
        me2_class_name(idx).len() == me2_class_name_len(idx),
        me2_class_name(idx)[22] == me2_class_key(idx),
{
    if idx == 0 {
        reveal_strlit("SFXGame.SFXPawn_PlayerSoldier");
    } else if idx == 1 {
        reveal_strlit("SFXGame.SFXPawn_PlayerEngineer");
    } else if idx == 2 {
        reveal_strlit("SFXGame.SFXPawn_PlayerAdept");
    } else if idx == 3 {
        reveal_strlit("SFXGame.SFXPawn_PlayerInfiltrator");
    } else if idx == 4 {
        reveal_strlit("SFXGame.SFXPawn_PlayerSentinel");
    } else if idx == 5 {
        reveal_strlit("SFXGame.SFXPawn_PlayerVanguard");
    }
}

/// Law: no two class names of the list are equal, even with ASCII case
/// ignored.
pub proof fn law_me2_class_names_distinct(i: int, j: int)
    requires
        0 <= i < 6,
        0 <= j < 6,
        i != j,
    ensures
        !ascii_ci_eq(me2_class_name(i), me2_class_name(j)),
{
    lemma_me2_class_name_shape(i);
    lemma_me2_class_name_shape(j);
    if me2_class_name(i).len() == me2_class_name(j).len() {
        assert(ascii_lower_code(me2_class_name(i)[22]) != ascii_lower_code(me2_class_name(j)[22]));
    }
}

/// Law: the class chosen at position `i` is found again at position `i`
/// from its name: whatever position the class search gives for that name
/// (the first class equal to it with ASCII case ignored) is `i`.
pub proof fn law_me2_class_round_trip(i: int, idx: int)
    requires
        0 <= i < 6,
        0 <= idx < 6,
        ascii_ci_eq(me2_class_name(i), me2_class_name(idx)),
    ensures
        idx == i,
{
    if idx != i {
        law_me2_class_names_distinct(i, idx);
    }
}

} // verus!
