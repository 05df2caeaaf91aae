use vstd::prelude::*;

use crate::items::{item_views, unequip_item_and_mods, unequipped, Item, ItemView};
use crate::mass_effect_3::player::{Notoriety, Origin};
use crate::markup::same_text;
use crate::me3_general::{notoriety_at, notoriety_from_index, origin_at, origin_from_index};
use crate::plot::{flag_set, int_set, set_plot_bool, set_plot_int};
use crate::talents::{
    bonus_talent, bonus_talent_entry, contains_id, lemma_first_talent_in_found, BONUS_TALENT_COUNT,
    find_talent_in, first_talent_in, ranks_fit, reset_talents, respecialized, set_specialization,
    specialization_bonus, sum_ranks, unranked, ComplexTalent, SimpleTalent,
};

verus! {

/// The classes of Mass Effect 1 Legendary Edition.
#[derive(Clone, Copy, Debug, PartialEq, Eq, Structural)]
pub enum Me1LeClass {
    Soldier,
    Engineer,
    Adept,
    Infiltrator,
    Sentinel,
    Vanguard,
}

impl Me1LeClass {
    /// The talent ids of the class's specialization options: no
    /// specialization, then the two specializations.
    pub open spec fn spec_specialization_ids(self) -> Seq<i32> {
        match self {
            Me1LeClass::Soldier => seq![119i32, 137, 141],
            Me1LeClass::Engineer => seq![122i32, 145, 149],
            Me1LeClass::Adept => seq![126i32, 153, 157],
            Me1LeClass::Infiltrator => seq![128i32, 142, 146],
            Me1LeClass::Sentinel => seq![131i32, 150, 158],
            Me1LeClass::Vanguard => seq![134i32, 138, 154],
        }
    }

    /// The talent ids of the class's specialization options.
    pub fn specialization_ids(&self) -> (ids: [i32; 3])
        ensures
            ids@ == self.spec_specialization_ids(),
    {
        let ids = match self {
            Me1LeClass::Soldier => [119, 137, 141],
            Me1LeClass::Engineer => [122, 145, 149],
            Me1LeClass::Adept => [126, 153, 157],
            Me1LeClass::Infiltrator => [128, 142, 146],
            Me1LeClass::Sentinel => [131, 150, 158],
            Me1LeClass::Vanguard => [134, 138, 154],
        };
        assert(ids@ =~= self.spec_specialization_ids());
        ids
    }

    /// The position of the player's specialization among the class's
    /// options, the first option when the id is none of them.
    pub fn specialization_index(&self, specialization_bonus_id: i32) -> (idx: usize)
        ensures
            idx < 3,
            idx > 0 ==> self.spec_specialization_ids()[idx as int] == specialization_bonus_id,
            idx > 0 ==> forall|j: int| 0 <= j < idx ==> self.spec_specialization_ids()[j]
                != specialization_bonus_id,
            idx == 0 ==> (self.spec_specialization_ids()[0] == specialization_bonus_id || forall|
                j: int,
            | 0 <= j < 3 ==> self.spec_specialization_ids()[j] != specialization_bonus_id),
    {
        let ids = self.specialization_ids();
        let mut i: usize = 0;
        while i < 3
            invariant
                i <= 3,
                ids@ == self.spec_specialization_ids(),
                forall|j: int| 0 <= j < i ==> ids@[j] != specialization_bonus_id,
            decreases 3 - i,
        {
            if ids[i] == specialization_bonus_id {
                return i;
            }
            i = i + 1;
        }
        0
    }
}

/// What a class starts with (from the class database).
pub struct Me1LePlayerClass {
    pub player_class: Me1LeClass,
    pub localized_class_name: i32,
    pub auto_levelup_template_id: i32,
    pub simple_talents: Vec<SimpleTalent>,
    pub complex_talents: Vec<ComplexTalent>,
    pub armor: Item,
    pub omni_tool: Item,
    pub bio_amp: Item,
    pub bonus_talents: Vec<i32>,
}

/// The parts of the player of a Mass Effect 1 Legendary Edition save game
/// that the general editor changes.
pub struct Me1LePlayer {
    pub is_female: bool,
    pub origin: Origin,
    pub notoriety: Notoriety,
    pub player_class: Me1LeClass,
    pub specialization_bonus_id: i32,
    pub localized_class_name: i32,
    pub auto_levelup_template_id: i32,
    pub talent_points: i32,
    pub simple_talents: Vec<SimpleTalent>,
    pub complex_talents: Vec<ComplexTalent>,
    /// The game options; the first one is the difficulty.
    pub game_options: Vec<i32>,
    pub equipment: Vec<Item>,
    pub inventory: Vec<Item>,
}

/// Talents a class change keeps: Charm, Intimidate and Spectre.
pub open spec fn is_kept_talent(talent: ComplexTalent) -> bool {
    talent.talent_id == 108 || talent.talent_id == 109 || talent.talent_id == 259
}

/// Equipment slot of the armor.
pub const ARMOR_SLOT: usize = 1;

/// Equipment slot of the omni-tool.
pub const OMNI_TOOL_SLOT: usize = 3;

/// Equipment slot of the biotic amp.
pub const BIO_AMP_SLOT: usize = 4;

/// `equipment` with `item` in `slot` when the slot is there.
pub open spec fn slot_set(equipment: Seq<ItemView>, slot: int, item: ItemView) -> Seq<ItemView> {
    if 0 <= slot < equipment.len() {
        equipment.update(slot, item)
    } else {
        equipment
    }
}

/// What leaves `slot` of `equipment` (nothing when the slot is not there).
pub open spec fn slot_unequipped(equipment: Seq<ItemView>, slot: int) -> Seq<ItemView> {
    if 0 <= slot < equipment.len() {
        unequipped(equipment[slot])
    } else {
        Seq::empty()
    }
}

/// Replaces the item in `slot` (when the slot is there) and moves the old
/// one, with its mods, to the end of `unequipped_items`.
fn swap_gear(equipment: &mut Vec<Item>, slot: usize, item: Item, unequipped_items: &mut Vec<Item>)
    ensures
        item_views(final(equipment)@) == slot_set(item_views(old(equipment)@), slot as int, item@),
        item_views(final(unequipped_items)@) == item_views(old(unequipped_items)@) + slot_unequipped(
            item_views(old(equipment)@),
            slot as int,
        ),
{
    if slot < equipment.len() {
        let ghost before = item_views(equipment@);
        let old_item = equipment.remove(slot);
        let ghost old_view = old_item@;
        equipment.insert(slot, item);
        proof {
            assert(before[slot as int] == old_view);
            assert(item_views(equipment@) =~= before.update(slot as int, equipment@[slot as int]@));
        }
        unequip_item_and_mods(old_item, unequipped_items);
    } else {
        proof {
            assert(item_views(unequipped_items@) =~= item_views(unequipped_items@) + Seq::empty());
        }
    }
}

/// A copy of `talents`.
fn copy_simple_talents(talents: &Vec<SimpleTalent>) -> (copy: Vec<SimpleTalent>)
    ensures
        copy@ == talents@,
{
    let mut copy: Vec<SimpleTalent> = Vec::new();
    let mut i: usize = 0;
    while i < talents.len()
        invariant
            i <= talents@.len(),
            copy@ == talents@.take(i as int),
        decreases talents@.len() - i,
    {
        copy.push(talents[i]);
        i = i + 1;
        proof {
            assert(copy@ =~= talents@.take(i as int));
        }
    }
    proof {
        assert(copy@ =~= talents@);
    }
    copy
}

/// Keeps only the talents that every class has, gives back the points of
/// the others, and appends `class_talents`.
fn replace_complex_talents(
    talents: &mut Vec<ComplexTalent>,
    talent_points: &mut i32,
    class_talents: &Vec<ComplexTalent>,
)
    requires
        ranks_fit(
            *old(talent_points) as int,
            old(talents)@.filter(|t: ComplexTalent| !is_kept_talent(t)),
        ),
    ensures
        final(talents)@ == old(talents)@.filter(|t: ComplexTalent| is_kept_talent(t))
            + class_talents@,
        *final(talent_points) == *old(talent_points) + sum_ranks(
            old(talents)@.filter(|t: ComplexTalent| !is_kept_talent(t)),
        ),
{
    let ghost start = talents@;
    let ghost start_points = *talent_points as int;
    let ghost kept_pred = |t: ComplexTalent| is_kept_talent(t);
    let ghost dropped_pred = |t: ComplexTalent| !is_kept_talent(t);
    let mut kept: Vec<ComplexTalent> = Vec::new();
    let mut j: usize = 0;
    while j < talents.len()
        invariant
            j <= talents@.len(),
            talents@ == start,
            kept_pred == (|t: ComplexTalent| is_kept_talent(t)),
            dropped_pred == (|t: ComplexTalent| !is_kept_talent(t)),
            ranks_fit(start_points, start.filter(dropped_pred)),
            kept@ == start.take(j as int).filter(kept_pred),
            *talent_points == start_points + sum_ranks(start.take(j as int).filter(dropped_pred)),
            start.take(j as int).filter(dropped_pred).len() <= start.filter(dropped_pred).len(),
            start.take(j as int).filter(dropped_pred) == start.filter(dropped_pred).take(
                start.take(j as int).filter(dropped_pred).len() as int,
            ),
        decreases talents@.len() - j,
    {
        let talent = talents[j];
        let keep = talent.talent_id == 108 || talent.talent_id == 109 || talent.talent_id == 259;
        proof {
            assert(start.take(j + 1) =~= start.take(j as int).push(talent));
            start.take(j as int).lemma_filter_push(talent, kept_pred);
            start.take(j as int).lemma_filter_push(talent, dropped_pred);
            lemma_filter_prefix(start, j as int + 1, dropped_pred);
        }
        if keep {
            kept.push(talent);
        } else {
            proof {
                let d = start.take(j as int).filter(dropped_pred);
                let k = d.len() as int;
                let all = start.filter(dropped_pred);
                assert(d.push(talent) == all.take(k + 1));
                assert(all.take(k + 1).drop_last() =~= all.take(k));
                assert(sum_ranks(all.take(k + 1)) == sum_ranks(all.take(k)) + talent.current_rank);
                assert(all.take(k) == d);
            }
            *talent_points = *talent_points + talent.current_rank;
        }
        j = j + 1;
    }
    proof {
        assert(start.take(start.len() as int) =~= start);
    }
    let mut k: usize = 0;
    let ghost kept_view = kept@;
    while k < class_talents.len()
        invariant
            k <= class_talents@.len(),
            kept@ == kept_view + class_talents@.take(k as int),
        decreases class_talents@.len() - k,
    {
        kept.push(class_talents[k]);
        k = k + 1;
        proof {
            assert(kept@ =~= kept_view + class_talents@.take(k as int));
        }
    }
    proof {
        assert(class_talents@.take(class_talents@.len() as int) =~= class_talents@);
    }
    *talents = kept;
}

/// Puts the class's armor, omni-tool and biotic amp in their slots and
/// moves what they replace, with its mods, to the end of `inventory`.
fn equip_class_gear(equipment: &mut Vec<Item>, inventory: &mut Vec<Item>, class: &Me1LePlayerClass)
    ensures
        item_views(final(equipment)@) == slot_set(
            slot_set(
                slot_set(item_views(old(equipment)@), 1, class.armor@),
                3,
                class.omni_tool@,
            ),
            4,
            class.bio_amp@,
        ),
        item_views(final(inventory)@) == item_views(old(inventory)@) + slot_unequipped(
            item_views(old(equipment)@),
            1,
        ) + slot_unequipped(item_views(old(equipment)@), 3) + slot_unequipped(
            item_views(old(equipment)@),
            4,
        ),
{
    let ghost old_equipment = item_views(equipment@);
    let mut unequipped_items: Vec<Item> = Vec::new();
    swap_gear(equipment, ARMOR_SLOT, class.armor.duplicate(), &mut unequipped_items);
    let ghost e1 = item_views(equipment@);
    proof {
        assert(e1 == slot_set(old_equipment, 1, class.armor@));
        assert(slot_unequipped(e1, 3) == slot_unequipped(old_equipment, 3));
        assert(slot_unequipped(e1, 4) == slot_unequipped(old_equipment, 4));
    }
    swap_gear(equipment, OMNI_TOOL_SLOT, class.omni_tool.duplicate(), &mut unequipped_items);
    let ghost e2 = item_views(equipment@);
    proof {
        assert(slot_unequipped(e2, 4) == slot_unequipped(old_equipment, 4));
    }
    swap_gear(equipment, BIO_AMP_SLOT, class.bio_amp.duplicate(), &mut unequipped_items);
    let ghost old_inventory = item_views(inventory@);
    let ghost gear = item_views(unequipped_items@);
    inventory.append(&mut unequipped_items);
    proof {
        assert(item_views(inventory@) =~= old_inventory + gear);
        assert(gear =~= Seq::<ItemView>::empty() + slot_unequipped(old_equipment, 1)
            + slot_unequipped(old_equipment, 3) + slot_unequipped(old_equipment, 4));
        assert(item_views(inventory@) =~= old_inventory + slot_unequipped(old_equipment, 1)
            + slot_unequipped(old_equipment, 3) + slot_unequipped(old_equipment, 4));
    }
}

impl Me1LePlayer {
    /// Changes the player's class to `class`: the class, its names and its
    /// simple talents are taken over, the specialization is cleared, every
    /// complex talent but Charm, Intimidate and Spectre is removed (its
    /// points coming back) and the class's talents are appended, and the
    /// class's armor, omni-tool and biotic amp replace the equipped ones,
    /// which go to the inventory with their mods.
    pub fn change_class(&mut self, class: &Me1LePlayerClass)
        requires
            ranks_fit(
                old(self).talent_points as int,
                old(self).complex_talents@.filter(|t: ComplexTalent| !is_kept_talent(t)),
            ),
        ensures
            final(self).player_class == class.player_class,
            final(self).specialization_bonus_id == -1,
            final(self).localized_class_name == class.localized_class_name,
            final(self).auto_levelup_template_id == class.auto_levelup_template_id,
            final(self).simple_talents@ == class.simple_talents@,
            final(self).complex_talents@ == old(self).complex_talents@.filter(
                |t: ComplexTalent| is_kept_talent(t),
            ) + class.complex_talents@,
            final(self).talent_points == old(self).talent_points + sum_ranks(
                old(self).complex_talents@.filter(|t: ComplexTalent| !is_kept_talent(t)),
            ),
            item_views(final(self).equipment@) == slot_set(
                slot_set(
                    slot_set(item_views(old(self).equipment@), 1, class.armor@),
                    3,
                    class.omni_tool@,
                ),
                4,
                class.bio_amp@,
            ),
            item_views(final(self).inventory@) == item_views(old(self).inventory@) + slot_unequipped(
                item_views(old(self).equipment@),
                1,
            ) + slot_unequipped(item_views(old(self).equipment@), 3) + slot_unequipped(
                item_views(old(self).equipment@),
                4,
            ),
            final(self).is_female == old(self).is_female,
            final(self).origin == old(self).origin,
            final(self).notoriety == old(self).notoriety,
            final(self).game_options == old(self).game_options,
    {
        self.player_class = class.player_class;
        self.specialization_bonus_id = -1;
        self.localized_class_name = class.localized_class_name;
        self.auto_levelup_template_id = class.auto_levelup_template_id;
        self.simple_talents = copy_simple_talents(&class.simple_talents);
        replace_complex_talents(&mut self.complex_talents, &mut self.talent_points, &class.complex_talents);
        equip_class_gear(&mut self.equipment, &mut self.inventory, class);
    }
}

/// A squad member of a Mass Effect 1 Legendary Edition save game, as far
/// as the general editor reads it.
pub struct Me1LeHenchman {
    pub tag: String,
    pub talent_points: i32,
    pub complex_talents: Vec<ComplexTalent>,
}

/// The plot of a Mass Effect 1 Legendary Edition save game.
pub struct Me1LePlot {
    pub booleans: Vec<bool>,
    pub integers: Vec<i32>,
}

/// The parts of a Mass Effect 1 Legendary Edition save game that the
/// general editor changes.
pub struct Me1LeSaveData {
    pub player: Me1LePlayer,
    pub squad: Vec<Me1LeHenchman>,
    pub plot: Me1LePlot,
}

/// Plot flag: Shepard is a woman.
pub const FEMALE_FLAG: usize = 4639;

/// Plot integer holding the origin.
pub const ORIGIN_INTEGER: usize = 1;

/// Plot integer holding the notoriety.
pub const NOTORIETY_INTEGER: usize = 2;

/// An edit of the general page of a Mass Effect 1 Legendary Edition save.
pub enum Msg {
    /// The class database has been loaded.
    PlayerClassDb(Vec<Me1LePlayerClass>),
    /// Position in (male, female).
    Gender(usize),
    /// Position in (none, Spacer, Colonist, Earthborn).
    Origin(usize),
    /// Position in (none, Survivor, War hero, Ruthless).
    Notoriety(usize),
    /// Position in the difficulty list.
    Difficulty(usize),
    /// New count of unspent talent points.
    TalentPoints(i32),
    /// Takes back the talent points of the squad member with this tag, or
    /// of the player.
    ResetTalents(Option<String>),
    /// Position of the new class in the class database.
    PlayerClass(usize),
    /// Position of the specialization among the class's options.
    PlayerSpecialization(usize),
    /// A bonus talent was toggled; when it was removed, the points that had
    /// been spent in it.
    BonusTalent(Option<i32>),
}

/// The first squad member with tag `tag`, if any.
pub open spec fn is_first_with_tag(squad: Seq<Me1LeHenchman>, tag: Seq<char>, i: int) -> bool {
    &&& 0 <= i < squad.len()
    &&& squad[i].tag@ == tag
    &&& forall|j: int| 0 <= j < i ==> #[trigger] squad[j].tag@ != tag
}

/// Finds the first squad member with tag `tag`.
pub fn find_squad_member(squad: &Vec<Me1LeHenchman>, tag: &String) -> (res: Option<usize>)
    ensures
        res matches Some(i) ==> is_first_with_tag(squad@, tag@, i as int),
        res is None ==> forall|j: int| 0 <= j < squad@.len() ==> #[trigger] squad@[j].tag@ != tag@,
{
    let mut i: usize = 0;
    while i < squad.len()
        invariant
            i <= squad@.len(),
            forall|j: int| 0 <= j < i ==> #[trigger] squad@[j].tag@ != tag@,
        decreases squad@.len() - i,
    {
        if squad[i].tag == *tag {
            return Some(i);
        }
        i = i + 1;
    }
    None
}

/// The specialization talent found, if any, can be switched: the option
/// is one of the three and the returned points fit.
pub open spec fn specialization_fits(player: Me1LePlayer, spec_idx: int) -> bool {
    first_talent_in(player.complex_talents@, player.player_class.spec_specialization_ids()) matches Some(i)
        ==> {
        &&& spec_idx < 3
        &&& i32::MIN <= player.talent_points + player.complex_talents@[i].current_rank <= i32::MAX
    }
}

/// The state in which an edit can be applied: a listed choice, points
/// that fit, and an existing squad member for a squad reset.
pub open spec fn update_allowed(db: Option<Vec<Me1LePlayerClass>>, save: Me1LeSaveData, msg: Msg) -> bool {
    match msg {
        Msg::Origin(i) => i < 4,
        Msg::Notoriety(i) => i < 4,
        Msg::ResetTalents(Some(tag)) => exists|i: int| #[trigger] is_first_with_tag(save.squad@, tag@, i)
            && ranks_fit(save.squad@[i].talent_points as int, save.squad@[i].complex_talents@),
        Msg::ResetTalents(None) => ranks_fit(save.player.talent_points as int, save.player.complex_talents@),
        Msg::PlayerClass(i) => db matches Some(classes) && i < classes@.len() ==> ranks_fit(
            save.player.talent_points as int,
            save.player.complex_talents@.filter(|t: ComplexTalent| !is_kept_talent(t)),
        ),
        Msg::PlayerSpecialization(i) => specialization_fits(save.player, i as int),
        Msg::BonusTalent(Some(points)) => i32::MIN <= save.player.talent_points + points <= i32::MAX,
        _ => true,
    }
}

/// The general page of a Mass Effect 1 Legendary Edition save game, with
/// the class database once loaded.
pub struct Me1LeGeneral {
    pub player_class_db: Option<Vec<Me1LePlayerClass>>,
}

impl Me1LeGeneral {
    /// A page whose class database is not loaded yet.
    pub fn create() -> (page: Me1LeGeneral)
        ensures
            page.player_class_db is None,
    {
        Me1LeGeneral { player_class_db: None }
    }

    /// Applies an edit and says whether the page must be drawn again.
    pub fn update(&mut self, save: &mut Me1LeSaveData, msg: Msg) -> (redraw: bool)
        requires
            update_allowed(old(self).player_class_db, *old(save), msg),
        ensures
            match msg {
                Msg::PlayerClassDb(db) => {
                    &&& redraw
                    &&& final(self).player_class_db == Some(db)
                    &&& *final(save) == *old(save)
                },
                Msg::Gender(g) => {
                    &&& !redraw
                    &&& *final(self) == *old(self)
                    &&& final(save).player == Me1LePlayer { is_female: g != 0, ..old(save).player }
                    &&& final(save).plot.booleans@ == flag_set(old(save).plot.booleans@, 4639, g != 0)
                    &&& final(save).plot.integers == old(save).plot.integers
                    &&& final(save).squad == old(save).squad
                },
                Msg::Origin(i) => {
                    &&& !redraw
                    &&& *final(self) == *old(self)
                    &&& final(save).player == Me1LePlayer { origin: origin_at(i as int), ..old(save).player }
                    &&& final(save).plot.integers@ == int_set(old(save).plot.integers@, 1, i as i32)
                    &&& final(save).plot.booleans == old(save).plot.booleans
                    &&& final(save).squad == old(save).squad
                },
                Msg::Notoriety(i) => {
                    &&& !redraw
                    &&& *final(self) == *old(self)
                    &&& final(save).player == Me1LePlayer { notoriety: notoriety_at(i as int), ..old(save).player }
                    &&& final(save).plot.integers@ == int_set(old(save).plot.integers@, 2, i as i32)
                    &&& final(save).plot.booleans == old(save).plot.booleans
                    &&& final(save).squad == old(save).squad
                },
                Msg::Difficulty(i) => {
                    &&& !redraw
                    &&& *final(self) == *old(self)
                    &&& final(save).player.game_options@ == int_set(old(save).player.game_options@, 0, i as i32)
                    &&& final(save).player == Me1LePlayer { game_options: final(save).player.game_options, ..old(save).player }
                    &&& final(save).plot == old(save).plot
                    &&& final(save).squad == old(save).squad
                },
                Msg::TalentPoints(points) => {
                    &&& redraw
                    &&& *final(self) == *old(self)
                    &&& final(save).player == Me1LePlayer { talent_points: points, ..old(save).player }
                    &&& final(save).plot == old(save).plot
                    &&& final(save).squad == old(save).squad
                },
                Msg::ResetTalents(None) => {
                    &&& redraw
                    &&& *final(self) == *old(self)
                    &&& final(save).player.talent_points == old(save).player.talent_points + sum_ranks(old(save).player.complex_talents@)
                    &&& final(save).player.complex_talents@ == old(save).player.complex_talents@.map_values(|t: ComplexTalent| unranked(t))
                    &&& final(save).player == Me1LePlayer {
                        talent_points: final(save).player.talent_points,
                        complex_talents: final(save).player.complex_talents,
                        ..old(save).player
                    }
                    &&& final(save).plot == old(save).plot
                    &&& final(save).squad == old(save).squad
                },
                Msg::ResetTalents(Some(tag)) => {
                    &&& redraw
                    &&& *final(self) == *old(self)
                    &&& exists|i: int| {
                        &&& #[trigger] is_first_with_tag(old(save).squad@, tag@, i)
                        &&& final(save).squad@.len() == old(save).squad@.len()
                        &&& forall|j: int| 0 <= j < old(save).squad@.len() && j != i ==> #[trigger] final(save).squad@[j] == old(save).squad@[j]
                        &&& final(save).squad@[i].tag == old(save).squad@[i].tag
                        &&& final(save).squad@[i].talent_points == old(save).squad@[i].talent_points + sum_ranks(old(save).squad@[i].complex_talents@)
                        &&& final(save).squad@[i].complex_talents@ == old(save).squad@[i].complex_talents@.map_values(|t: ComplexTalent| unranked(t))
                    }
                    &&& final(save).player == old(save).player
                    &&& final(save).plot == old(save).plot
                },
                Msg::PlayerClass(i) => {
                    &&& redraw
                    &&& *final(self) == *old(self)
                    &&& final(save).plot == old(save).plot
                    &&& final(save).squad == old(save).squad
                    &&& match old(self).player_class_db {
                        Some(classes) if i < classes@.len() => class_changed(old(save).player, final(save).player, classes@[i as int]),
                        _ => final(save).player == old(save).player,
                    }
                },
                Msg::PlayerSpecialization(i) => {
                    &&& redraw
                    &&& *final(self) == *old(self)
                    &&& final(save).plot == old(save).plot
                    &&& final(save).squad == old(save).squad
                    &&& final(save).player == Me1LePlayer {
                        talent_points: final(save).player.talent_points,
                        specialization_bonus_id: final(save).player.specialization_bonus_id,
                        complex_talents: final(save).player.complex_talents,
                        ..old(save).player
                    }
                    &&& specialization_set(old(save).player, final(save).player, i as int)
                },
                Msg::BonusTalent(points) => {
                    &&& redraw
                    &&& *final(self) == *old(self)
                    &&& final(save).player == Me1LePlayer {
                        talent_points: match points {
                            Some(p) => (old(save).player.talent_points + p) as i32,
                            None => old(save).player.talent_points,
                        },
                        ..old(save).player
                    }
                    &&& final(save).plot == old(save).plot
                    &&& final(save).squad == old(save).squad
                },
            },
    {
        match msg {
            Msg::PlayerClassDb(db) => {
                self.player_class_db = Some(db);
                true
            },
            Msg::Gender(g) => {
                let female = g != 0;
                save.player.is_female = female;
                set_plot_bool(&mut save.plot.booleans, FEMALE_FLAG, female);
                false
            },
            Msg::Origin(i) => {
                save.player.origin = origin_from_index(i);
                set_plot_int(&mut save.plot.integers, ORIGIN_INTEGER, i as i32);
                false
            },
            Msg::Notoriety(i) => {
                save.player.notoriety = notoriety_from_index(i);
                set_plot_int(&mut save.plot.integers, NOTORIETY_INTEGER, i as i32);
                false
            },
            Msg::Difficulty(i) => {
                set_plot_int(&mut save.player.game_options, 0, i as i32);
                false
            },
            Msg::TalentPoints(points) => {
                save.player.talent_points = points;
                true
            },
            Msg::ResetTalents(tag) => {
                match tag {
                    Some(tag) => {
                        let found = find_squad_member(&save.squad, &tag);
                        let i = match found {
                            Some(i) => i,
                            None => {
                                proof {
                                    let k = choose|k: int| #[trigger] is_first_with_tag(old(save).squad@, tag@, k)
                                        && ranks_fit(old(save).squad@[k].talent_points as int, old(save).squad@[k].complex_talents@);
                                    assert(save.squad@[k].tag@ != tag@);
                                }
                                return true;
                            },
                        };
                        proof {
                            let k = choose|k: int| #[trigger] is_first_with_tag(old(save).squad@, tag@, k)
                                && ranks_fit(old(save).squad@[k].talent_points as int, old(save).squad@[k].complex_talents@);
                            if k < i {
                                assert(save.squad@[k].tag@ != tag@);
                            } else if k > i {
                                assert(save.squad@[i as int].tag@ != tag@);
                            }
                        }
                        let mut member = save.squad.remove(i);
                        reset_talents(&mut member.talent_points, &mut member.complex_talents);
                        save.squad.insert(i, member);
                        proof {
                            assert(is_first_with_tag(old(save).squad@, tag@, i as int));
                        }
                    },
                    None => {
                        reset_talents(&mut save.player.talent_points, &mut save.player.complex_talents);
                    },
                }
                true
            },
            Msg::PlayerClass(i) => {
                match &self.player_class_db {
                    Some(classes) => {
                        if i < classes.len() {
                            save.player.change_class(&classes[i]);
                        }
                    },
                    None => {},
                }
                true
            },
            Msg::PlayerSpecialization(i) => {
                let ids = save.player.player_class.specialization_ids();
                set_specialization(
                    &mut save.player.talent_points,
                    &mut save.player.specialization_bonus_id,
                    &mut save.player.complex_talents,
                    &ids,
                    i,
                );
                true
            },
            Msg::BonusTalent(points) => {
                match points {
                    Some(p) => {
                        save.player.talent_points = save.player.talent_points + p;
                    },
                    None => {},
                }
                true
            },
        }
    }
}

/// `after` is `before` with the class `class` taken (see `change_class`).
pub open spec fn class_changed(before: Me1LePlayer, after: Me1LePlayer, class: Me1LePlayerClass) -> bool {
    &&& after.player_class == class.player_class
    &&& after.specialization_bonus_id == -1
    &&& after.localized_class_name == class.localized_class_name
    &&& after.auto_levelup_template_id == class.auto_levelup_template_id
    &&& after.simple_talents@ == class.simple_talents@
    &&& after.complex_talents@ == before.complex_talents@.filter(|t: ComplexTalent| is_kept_talent(t))
        + class.complex_talents@
    &&& after.talent_points == before.talent_points + sum_ranks(
        before.complex_talents@.filter(|t: ComplexTalent| !is_kept_talent(t)),
    )
    &&& item_views(after.equipment@) == slot_set(
        slot_set(slot_set(item_views(before.equipment@), 1, class.armor@), 3, class.omni_tool@),
        4,
        class.bio_amp@,
    )
    &&& item_views(after.inventory@) == item_views(before.inventory@) + slot_unequipped(
        item_views(before.equipment@),
        1,
    ) + slot_unequipped(item_views(before.equipment@), 3) + slot_unequipped(item_views(before.equipment@), 4)
    &&& after.is_female == before.is_female
    &&& after.origin == before.origin
    &&& after.notoriety == before.notoriety
    &&& after.game_options == before.game_options
}

/// Law: a class change keeps, in their order and with their ranks, exactly
/// the Charm (108), Intimidate (109) and Spectre (259) talents, follows them
/// with the new class's talents, and gives back the ranks of every other
/// talent.
pub proof fn law_class_change_keeps_charm_intimidate_spectre(
    before: Me1LePlayer,
    after: Me1LePlayer,
    class: Me1LePlayerClass,
)
    requires
        class_changed(before, after, class),
    ensures
        after.complex_talents@ == before.complex_talents@.filter(
            |t: ComplexTalent| t.talent_id == 108 || t.talent_id == 109 || t.talent_id == 259,
        ) + class.complex_talents@,
        after.talent_points == before.talent_points + sum_ranks(
            before.complex_talents@.filter(
                |t: ComplexTalent| t.talent_id != 108 && t.talent_id != 109 && t.talent_id != 259,
            ),
        ),
{
    let kept = |t: ComplexTalent| t.talent_id == 108 || t.talent_id == 109 || t.talent_id == 259;
    let dropped = |t: ComplexTalent| t.talent_id != 108 && t.talent_id != 109 && t.talent_id != 259;
    assert((|t: ComplexTalent| is_kept_talent(t)) =~= kept);
    assert((|t: ComplexTalent| !is_kept_talent(t)) =~= dropped);
}

/// What unequipping an item adds to the inventory: nothing for an empty
/// slot (item id 0), else one item per attached mod and the item itself.
pub open spec fn unequipped_count(item: ItemView) -> int {
    if item.item_id == 0 {
        0
    } else {
        item.attached_mods.len() as int + 1
    }
}

/// Law: a class change puts the class's armor in equipment slot 1, its
/// omni-tool in slot 3 and its biotic amp in slot 4, leaves the other slots
/// alone, and appends to the inventory what those three slots held: for
/// each slot that was not empty, its mods then the item itself, marked new
/// and without mods.
pub proof fn law_class_change_swaps_gear(before: Me1LePlayer, after: Me1LePlayer, class: Me1LePlayerClass)
    requires
        class_changed(before, after, class),
        before.equipment@.len() > 4,
    ensures
        item_views(after.equipment@).len() == item_views(before.equipment@).len(),
        item_views(after.equipment@)[1] == class.armor@,
        item_views(after.equipment@)[3] == class.omni_tool@,
        item_views(after.equipment@)[4] == class.bio_amp@,
        forall|k: int| 0 <= k < before.equipment@.len() && k != 1 && k != 3 && k != 4
            ==> #[trigger] item_views(after.equipment@)[k] == item_views(before.equipment@)[k],
        item_views(after.inventory@).len() == item_views(before.inventory@).len()
            + unequipped_count(item_views(before.equipment@)[1])
            + unequipped_count(item_views(before.equipment@)[3])
            + unequipped_count(item_views(before.equipment@)[4]),
        item_views(after.inventory@).take(item_views(before.inventory@).len() as int) == item_views(before.inventory@),
        item_views(before.equipment@)[4].item_id != 0 ==> item_views(after.inventory@).last() == (ItemView {
            new_item: true,
            attached_mods: Seq::empty(),
            ..item_views(before.equipment@)[4]
        }),
{
    let inv = item_views(before.inventory@);
    let eq = item_views(before.equipment@);
    let added = slot_unequipped(eq, 1) + slot_unequipped(eq, 3) + slot_unequipped(eq, 4);
    assert(inv + slot_unequipped(eq, 1) + slot_unequipped(eq, 3) + slot_unequipped(eq, 4) =~= inv + added);
    assert((inv + added).take(inv.len() as int) =~= inv);
}

/// `after` is `before` with its specialization switched to option
/// `spec_idx` of its class (see `set_specialization`).
pub open spec fn specialization_set(before: Me1LePlayer, after: Me1LePlayer, spec_idx: int) -> bool {
    let ids = before.player_class.spec_specialization_ids();
    match first_talent_in(before.complex_talents@, ids) {
        Some(i) => {
            &&& after.talent_points == before.talent_points + before.complex_talents@[i].current_rank
            &&& after.specialization_bonus_id == specialization_bonus(ids, spec_idx)
            &&& after.complex_talents@ == before.complex_talents@.update(
                i,
                respecialized(before.complex_talents@[i], ids[spec_idx], if spec_idx == 0 { 6i32 } else { 12i32 }),
            )
        },
        None => {
            &&& after.talent_points == before.talent_points
            &&& after.specialization_bonus_id == before.specialization_bonus_id
            &&& after.complex_talents@ == before.complex_talents@
        },
    }
}

/// The talent id of specialization option `option` of `class`, as the
/// game numbers them: first no specialization, then the two
/// specializations (Soldier: Shock Trooper, Commando; Engineer: Operative,
/// Medic; Adept: Nemesis, Bastion; Infiltrator: Commando, Operative;
/// Sentinel: Medic, Bastion; Vanguard: Shock Trooper, Nemesis).
pub open spec fn specialization_option_talent(class: Me1LeClass, option: int) -> i32 {
    let (none, first, second) = match class {
        Me1LeClass::Soldier => (119i32, 137i32, 141i32),
        Me1LeClass::Engineer => (122i32, 145i32, 149i32),
        Me1LeClass::Adept => (126i32, 153i32, 157i32),
        Me1LeClass::Infiltrator => (128i32, 142i32, 146i32),
        Me1LeClass::Sentinel => (131i32, 150i32, 158i32),
        Me1LeClass::Vanguard => (134i32, 138i32, 154i32),
    };
    if option == 0 {
        none
    } else if option == 1 {
        first
    } else {
        second
    }
}

/// Law: choosing specialization option `spec_idx` replaces the player's
/// specialization talent (one of the class's option talents) by the talent
/// of that option, unranked (with a top rank of 6 for no specialization,
/// 12 for a specialization) and with its points given back, and records
/// that talent as the specialization bonus (none, `-1`, for the first
/// option).
pub proof fn law_specialization_choice(before: Me1LePlayer, after: Me1LePlayer, spec_idx: int)
    requires
        0 <= spec_idx < 3,
        specialization_set(before, after, spec_idx),
    ensures
        forall|k: int| 0 <= k < 3 ==> #[trigger] before.player_class.spec_specialization_ids()[k]
            == specialization_option_talent(before.player_class, k),
        first_talent_in(before.complex_talents@, before.player_class.spec_specialization_ids()) matches Some(i) ==> {
            &&& after.complex_talents@[i].talent_id == specialization_option_talent(before.player_class, spec_idx)
            &&& after.complex_talents@[i].current_rank == 0
            &&& after.complex_talents@[i].max_rank == if spec_idx == 0 { 6i32 } else { 12i32 }
            &&& after.complex_talents@.len() == before.complex_talents@.len()
            &&& forall|j: int| 0 <= j < before.complex_talents@.len() && j != i
                ==> #[trigger] after.complex_talents@[j] == before.complex_talents@[j]
            &&& after.specialization_bonus_id == if spec_idx == 0 {
                -1i32
            } else {
                specialization_option_talent(before.player_class, spec_idx)
            }
            &&& after.talent_points == before.talent_points + before.complex_talents@[i].current_rank
        },
{
    let ids = before.player_class.spec_specialization_ids();
    lemma_first_talent_in_found(before.complex_talents@, ids);
}

/// Filtering a prefix gives a prefix of the filtered sequence.
pub proof fn lemma_filter_prefix(s: Seq<ComplexTalent>, j: int, pred: spec_fn(ComplexTalent) -> bool)
    requires
        0 <= j <= s.len(),
    ensures
        s.take(j).filter(pred).len() <= s.filter(pred).len(),
        s.take(j).filter(pred) == s.filter(pred).take(s.take(j).filter(pred).len() as int),
    decreases s.len() - j,
{
    if j < s.len() {
        lemma_filter_prefix(s, j + 1, pred);
        assert(s.take(j + 1) =~= s.take(j).push(s[j]));
        s.take(j).lemma_filter_push(s[j], pred);
        let a = s.take(j).filter(pred);
        let b = s.take(j + 1).filter(pred);
        let all = s.filter(pred);
        if pred(s[j]) {
            assert(b == a.push(s[j]));
            assert(all.take(b.len() as int) == b);
            assert(all.take(a.len() as int) =~= all.take(b.len() as int).drop_last());
            assert(b.drop_last() =~= a);
        }
    } else {
        assert(s.take(j) =~= s);
        assert(s.filter(pred).take(s.filter(pred).len() as int) =~= s.filter(pred));
    }
}

/// The bonus talents of the class `class` in the class database: those
/// of its first entry for that class, none when it has no entry.
pub open spec fn class_bonus_talents(db: Seq<Me1LePlayerClass>, class: Me1LeClass) -> Seq<i32> {
    if exists|i: int| 0 <= i < db.len() && #[trigger] db[i].player_class == class {
        db[choose|i: int| 0 <= i < db.len() && #[trigger] db[i].player_class == class && forall|j: int| 0 <= j < i ==> db[j].player_class != class].bonus_talents@
    } else {
        Seq::empty()
    }
}

/// The bonus talents that the class database offers to `class`.
pub fn bonus_talent_list(db: &Vec<Me1LePlayerClass>, class: Me1LeClass) -> (list: Vec<i32>)
    ensures
        list@ == class_bonus_talents(db@, class),
{
    let mut i: usize = 0;
    while i < db.len()
        invariant
            i <= db@.len(),
            forall|j: int| 0 <= j < i ==> #[trigger] db@[j].player_class != class,
        decreases db@.len() - i,
    {
        if db[i].player_class == class {
            proof {
                let k = choose|k: int| 0 <= k < db@.len() && #[trigger] db@[k].player_class == class && forall|j: int| 0 <= j < k ==> db@[j].player_class != class;
                if k < i {
                } else if k > i {
                    assert(db@[i as int].player_class != class);
                }
            }
            let mut list: Vec<i32> = Vec::new();
            let talents = &db[i].bonus_talents;
            let mut k: usize = 0;
            while k < talents.len()
                invariant
                    k <= talents@.len(),
                    list@ == talents@.take(k as int),
                decreases talents@.len() - k,
            {
                list.push(talents[k]);
                k = k + 1;
                proof {
                    assert(list@ =~= talents@.take(k as int));
                }
            }
            proof {
                assert(talents@.take(k as int) =~= talents@);
            }
            return list;
        }
        i = i + 1;
    }
    Vec::new()
}

/// The difficulty shown: the first game option, 0 when there is none.
pub fn current_difficulty(game_options: &Vec<i32>) -> (idx: usize)
    ensures
        idx == (if game_options@.len() > 0 { game_options@[0] as usize } else { 0usize }),
{
    if game_options.len() > 0 {
        game_options[0] as usize
    } else {
        0
    }
}

/// The bonus talents offered to the player, each with whether the player
/// has it: the positions in the bonus talent list of those whose complex
/// talent the class offers.
pub fn bonus_talent_rows(talent_list: &Vec<i32>, complex_talents: &Vec<ComplexTalent>) -> (rows: Vec<(usize, bool)>)
    ensures
        forall|r: int| 0 <= r < rows@.len() ==> {
            &&& (#[trigger] rows@[r]).0 < BONUS_TALENT_COUNT
            &&& talent_list@.contains(bonus_talent(rows@[r].0 as int).0)
            &&& rows@[r].1 == (first_talent_in(complex_talents@, seq![bonus_talent(rows@[r].0 as int).0]) is Some)
        },
        forall|r: int, q: int| 0 <= r < q < rows@.len() ==> rows@[r].0 < rows@[q].0,
        forall|t: int| 0 <= t < BONUS_TALENT_COUNT && talent_list@.contains(bonus_talent(t).0) ==> exists|r: int|
            0 <= r < rows@.len() && (#[trigger] rows@[r]).0 == t,
{
    let mut rows: Vec<(usize, bool)> = Vec::new();
    let mut t: usize = 0;
    while t < BONUS_TALENT_COUNT
        invariant
            t <= BONUS_TALENT_COUNT,
            forall|r: int| 0 <= r < rows@.len() ==> {
                &&& (#[trigger] rows@[r]).0 < t
                &&& talent_list@.contains(bonus_talent(rows@[r].0 as int).0)
                &&& rows@[r].1 == (first_talent_in(complex_talents@, seq![bonus_talent(rows@[r].0 as int).0]) is Some)
            },
            forall|r: int, q: int| 0 <= r < q < rows@.len() ==> rows@[r].0 < rows@[q].0,
            forall|x: int| 0 <= x < t && talent_list@.contains(bonus_talent(x).0) ==> exists|r: int|
                0 <= r < rows@.len() && (#[trigger] rows@[r]).0 == x,
        decreases BONUS_TALENT_COUNT - t,
    {
        let (complex_id, _) = bonus_talent_entry(t);
        if contains_id(talent_list.as_slice(), complex_id) {
            let ids = [complex_id];
            proof {
                assert(ids@ =~= seq![complex_id]);
            }
            let selected = find_talent_in(complex_talents, &ids).is_some();
            let ghost before = rows@;
            rows.push((t, selected));
            proof {
                assert forall|x: int| 0 <= x < t + 1 && talent_list@.contains(bonus_talent(x).0) implies exists|r: int|
                    0 <= r < rows@.len() && (#[trigger] rows@[r]).0 == x by {
                    if x < t {
                        let r = choose|r: int| 0 <= r < before.len() && (#[trigger] before[r]).0 == x;
                        assert(rows@[r] == before[r]);
                    } else {
                        assert(rows@[before.len() as int].0 == x);
                    }
                }
            }
        }
        t = t + 1;
    }
    rows
}

/// The name of the squad member with tag `tag`, if it is one of the six.
pub open spec fn squad_member_name(tag: Seq<char>) -> Option<Seq<char>> {
    if tag == "hench_asari"@ {
        Some("Liara"@)
    } else if tag == "hench_humanfemale"@ {
        Some("Ashley"@)
    } else if tag == "hench_humanmale"@ {
        Some("Kaidan"@)
    } else if tag == "hench_krogan"@ {
        Some("Wrex"@)
    } else if tag == "hench_quarian"@ {
        Some("Tali"@)
    } else if tag == "hench_turian"@ {
        Some("Garrus"@)
    } else {
        None
    }
}

/// Law: the six squad members, by tag: asari Liara, human female Ashley,
/// human male Kaidan, krogan Wrex, quarian Tali, turian Garrus; any
/// other tag has no name (its inventory is Jenkins's).
pub proof fn law_squad_member_names(tag: Seq<char>)
    ensures
        squad_member_name("hench_asari"@) == Some("Liara"@),
        squad_member_name("hench_humanfemale"@) == Some("Ashley"@),
        squad_member_name("hench_humanmale"@) == Some("Kaidan"@),
        squad_member_name("hench_krogan"@) == Some("Wrex"@),
        squad_member_name("hench_quarian"@) == Some("Tali"@),
        squad_member_name("hench_turian"@) == Some("Garrus"@),
        (tag != "hench_asari"@ && tag != "hench_humanfemale"@ && tag != "hench_humanmale"@ && tag != "hench_krogan"@ && tag != "hench_quarian"@ && tag != "hench_turian"@) ==> squad_member_name(tag) is None,
{
    reveal_strlit("hench_asari");
    reveal_strlit("hench_humanfemale");
    reveal_strlit("hench_humanmale");
    reveal_strlit("hench_krogan");
    reveal_strlit("hench_quarian");
    reveal_strlit("hench_turian");
    assert("hench_humanfemale"@[6] != "hench_asari"@[6]);
    assert("hench_humanmale"@[6] != "hench_asari"@[6]);
    assert("hench_humanmale"@[11] != "hench_humanfemale"@[11]);
    assert("hench_krogan"@[6] != "hench_asari"@[6]);
    assert("hench_krogan"@[6] != "hench_humanfemale"@[6]);
    assert("hench_krogan"@[6] != "hench_humanmale"@[6]);
    assert("hench_quarian"@[6] != "hench_asari"@[6]);
    assert("hench_quarian"@[6] != "hench_humanfemale"@[6]);
    assert("hench_quarian"@[6] != "hench_humanmale"@[6]);
    assert("hench_quarian"@[6] != "hench_krogan"@[6]);
    assert("hench_turian"@[6] != "hench_asari"@[6]);
    assert("hench_turian"@[6] != "hench_humanfemale"@[6]);
    assert("hench_turian"@[6] != "hench_humanmale"@[6]);
    assert("hench_turian"@[6] != "hench_krogan"@[6]);
    assert("hench_turian"@[6] != "hench_quarian"@[6]);
}

/// The name of the squad member with tag `tag`, if it is one of the six.
pub fn squad_member(tag: &str) -> (name: Option<&'static str>)
    ensures
        name is Some <==> squad_member_name(tag@) is Some,
        name matches Some(n) ==> squad_member_name(tag@) == Some(n@),
{
    if same_text(tag, "hench_asari") {
        Some("Liara")
    } else if same_text(tag, "hench_humanfemale") {
        Some("Ashley")
    } else if same_text(tag, "hench_humanmale") {
        Some("Kaidan")
    } else if same_text(tag, "hench_krogan") {
        Some("Wrex")
    } else if same_text(tag, "hench_quarian") {
        Some("Tali")
    } else if same_text(tag, "hench_turian") {
        Some("Garrus")
    } else {
        None
    }
}

/// The name shown for a squad member's inventory: its name, or Jenkins
/// for a tag that is none of the six.
pub fn inventory_owner_name(tag: &str) -> (name: &'static str)
    ensures
        name@ == match squad_member_name(tag@) {
            Some(n) => n,
            None => "Jenkins"@,
        },
{
    match squad_member(tag) {
        Some(n) => n,
        None => "Jenkins",
    }
}

} // verus!
