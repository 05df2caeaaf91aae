use trilogy_save::inventory::{
    item_name, DbItem, DropDownLayout, ItemSelect, Me1LeInventory, Msg as InventoryMsg, SelectCommand, SelectMsg,
};
use trilogy_save::items::{Item, ItemMod};
use trilogy_save::mass_effect_3::player::{Notoriety, Origin};
use trilogy_save::me1_le::{
    bonus_talent_list, bonus_talent_rows, current_difficulty, Me1LeClass, Me1LeGeneral, Me1LeHenchman,
    Me1LePlayer, Me1LePlayerClass, Me1LePlot, Me1LeSaveData, Msg,
};
use trilogy_save::talents::{reset_talents, BonusTalents, ComplexTalent, SimpleTalent};

fn talent(id: i32, rank: i32) -> ComplexTalent {
    ComplexTalent { talent_id: id, current_rank: rank, max_rank: 12, level_offset: 0, levels_per_rank: 1, visual_order: 0 }
}

fn item(id: i32) -> Item {
    Item { item_id: id, item_level: 1, manufacturer_id: 2, plot_conditional_id: 0, new_item: false, attached_mods: vec![] }
}

fn player() -> Me1LePlayer {
    Me1LePlayer {
        is_female: false,
        origin: Origin::NotSet,
        notoriety: Notoriety::NotSet,
        player_class: Me1LeClass::Soldier,
        specialization_bonus_id: -1,
        localized_class_name: 1,
        auto_levelup_template_id: 1,
        talent_points: 5,
        simple_talents: vec![SimpleTalent { talent_id: 1, current_rank: 1 }],
        complex_talents: vec![talent(108, 2), talent(7, 3), talent(119, 4)],
        game_options: vec![1, 0],
        equipment: vec![item(0), item(10), item(0), item(30), item(0)],
        inventory: vec![],
    }
}

fn save() -> Me1LeSaveData {
    Me1LeSaveData {
        player: player(),
        squad: vec![Me1LeHenchman { tag: "hench_tali".to_string(), talent_points: 1, complex_talents: vec![talent(5, 2)] }],
        plot: Me1LePlot { booleans: vec![false; 5000], integers: vec![0; 10] },
    }
}

fn adept_class() -> Me1LePlayerClass {
    Me1LePlayerClass {
        player_class: Me1LeClass::Adept,
        localized_class_name: 93954,
        auto_levelup_template_id: 20,
        simple_talents: vec![SimpleTalent { talent_id: 2, current_rank: 1 }],
        complex_talents: vec![talent(126, 0), talent(50, 0)],
        armor: item(100),
        omni_tool: item(300),
        bio_amp: item(400),
        bonus_talents: vec![49, 56],
    }
}

#[test]
fn gender_origin_notoriety_difficulty() {
    let mut page = Me1LeGeneral::create();
    let mut s = save();
    assert!(!page.update(&mut s, Msg::Gender(1)));
    assert!(s.player.is_female);
    assert!(s.plot.booleans[4639]);
    page.update(&mut s, Msg::Origin(3));
    assert_eq!(s.player.origin, Origin::Earthborn);
    assert_eq!(s.plot.integers[1], 3);
    page.update(&mut s, Msg::Notoriety(2));
    assert_eq!(s.player.notoriety, Notoriety::Warhero);
    assert_eq!(s.plot.integers[2], 2);
    page.update(&mut s, Msg::Difficulty(4));
    assert_eq!(s.player.game_options, vec![4, 0]);
    assert_eq!(current_difficulty(&s.player.game_options), 4);
    assert_eq!(current_difficulty(&vec![]), 0);
}

#[test]
fn reset_player_talents_returns_points() {
    let mut page = Me1LeGeneral::create();
    let mut s = save();
    assert!(page.update(&mut s, Msg::ResetTalents(None)));
    assert_eq!(s.player.talent_points, 5 + 2 + 3 + 4);
    assert!(s.player.complex_talents.iter().all(|t| t.current_rank == 0));
    // A second reset gives nothing back.
    page.update(&mut s, Msg::ResetTalents(None));
    assert_eq!(s.player.talent_points, 14);
}

#[test]
fn reset_squad_member_talents() {
    let mut page = Me1LeGeneral::create();
    let mut s = save();
    page.update(&mut s, Msg::ResetTalents(Some("hench_tali".to_string())));
    assert_eq!(s.squad[0].talent_points, 3);
    assert_eq!(s.squad[0].complex_talents[0].current_rank, 0);
    assert_eq!(s.player.talent_points, 5);
}

#[test]
fn reset_talents_conserves_points() {
    let mut points = 10;
    let mut talents = vec![talent(1, 3), talent(2, 0), talent(3, 6)];
    reset_talents(&mut points, &mut talents);
    assert_eq!(points, 19);
    assert_eq!(talents, vec![talent(1, 0), talent(2, 0), talent(3, 0)]);
}

#[test]
fn class_change_keeps_charm_and_moves_gear() {
    let mut page = Me1LeGeneral::create();
    let mut s = save();
    // Without the database nothing changes.
    assert!(page.update(&mut s, Msg::PlayerClass(0)));
    assert_eq!(s.player.player_class, Me1LeClass::Soldier);
    page.update(&mut s, Msg::PlayerClassDb(vec![adept_class()]));
    page.update(&mut s, Msg::PlayerClass(0));
    let p = &s.player;
    assert_eq!(p.player_class, Me1LeClass::Adept);
    assert_eq!(p.specialization_bonus_id, -1);
    assert_eq!(p.localized_class_name, 93954);
    assert_eq!(p.simple_talents, vec![SimpleTalent { talent_id: 2, current_rank: 1 }]);
    assert_eq!(p.complex_talents, vec![talent(108, 2), talent(126, 0), talent(50, 0)]);
    assert_eq!(p.talent_points, 5 + 3 + 4);
    let equipped: Vec<i32> = p.equipment.iter().map(|i| i.item_id).collect();
    assert_eq!(equipped, vec![0, 100, 0, 300, 400]);
    // The old armor and omni-tool go to the inventory, the empty amp slot does not.
    let moved: Vec<i32> = p.inventory.iter().map(|i| i.item_id).collect();
    assert_eq!(moved, vec![10, 30]);
    assert!(p.inventory.iter().all(|i| i.new_item));
}

#[test]
fn unequipped_mods_become_items() {
    let mut page = Me1LeGeneral::create();
    let mut s = save();
    s.player.equipment[1].attached_mods =
        vec![ItemMod { item_id: 77, item_level: 3, manufacturer_id: 4, plot_conditional_id: 5 }];
    page.update(&mut s, Msg::PlayerClassDb(vec![adept_class()]));
    page.update(&mut s, Msg::PlayerClass(0));
    let moved: Vec<(i32, usize)> = s.player.inventory.iter().map(|i| (i.item_id, i.attached_mods.len())).collect();
    assert_eq!(moved, vec![(77, 0), (10, 0), (30, 0)]);
}

#[test]
fn specialization_switch() {
    let mut page = Me1LeGeneral::create();
    let mut s = save();
    assert!(page.update(&mut s, Msg::PlayerSpecialization(2)));
    let spec = s.player.complex_talents[2];
    assert_eq!(spec.talent_id, 141);
    assert_eq!(spec.current_rank, 0);
    assert_eq!(spec.max_rank, 12);
    assert_eq!(s.player.specialization_bonus_id, 141);
    assert_eq!(s.player.talent_points, 9);
    assert_eq!(s.player.player_class.specialization_index(141), 2);
    page.update(&mut s, Msg::PlayerSpecialization(0));
    assert_eq!(s.player.complex_talents[2].talent_id, 119);
    assert_eq!(s.player.complex_talents[2].max_rank, 6);
    assert_eq!(s.player.specialization_bonus_id, -1);
    assert_eq!(s.player.player_class.specialization_index(-1), 0);
}

#[test]
fn specialization_without_talent_changes_nothing() {
    let mut page = Me1LeGeneral::create();
    let mut s = save();
    s.player.complex_talents = vec![talent(7, 1)];
    page.update(&mut s, Msg::PlayerSpecialization(1));
    assert_eq!(s.player.complex_talents, vec![talent(7, 1)]);
    assert_eq!(s.player.talent_points, 5);
}

#[test]
fn bonus_talent_toggle_and_points() {
    let mut simple = vec![SimpleTalent { talent_id: 1, current_rank: 1 }];
    let mut complex = vec![talent(7, 0)];
    // Medicine: complex 99 with simple talents 257 and 258.
    let (_, spent) = BonusTalents.update(&mut simple, &mut complex, 11);
    assert_eq!(spent, None);
    assert_eq!(complex.last().unwrap().talent_id, 99);
    assert_eq!(complex.last().unwrap().max_rank, 12);
    assert_eq!(complex.last().unwrap().visual_order, 85);
    assert_eq!(simple.len(), 3);
    complex.last_mut().unwrap().current_rank = 4;
    let (_, spent) = BonusTalents.update(&mut simple, &mut complex, 11);
    assert_eq!(spent, Some(4));
    assert_eq!(simple, vec![SimpleTalent { talent_id: 1, current_rank: 1 }]);
    assert_eq!(complex, vec![talent(7, 0)]);
    let mut page = Me1LeGeneral::create();
    let mut s = save();
    page.update(&mut s, Msg::BonusTalent(Some(4)));
    assert_eq!(s.player.talent_points, 9);
    page.update(&mut s, Msg::BonusTalent(None));
    assert_eq!(s.player.talent_points, 9);
}

#[test]
fn bonus_talents_offered_by_class() {
    let db = vec![adept_class()];
    assert_eq!(bonus_talent_list(&db, Me1LeClass::Adept), vec![49, 56]);
    assert_eq!(bonus_talent_list(&db, Me1LeClass::Soldier), Vec::<i32>::new());
    let rows = bonus_talent_rows(&vec![49, 56], &vec![talent(56, 0)]);
    assert_eq!(rows, vec![(1, false), (2, true)]);
}

#[test]
fn talent_points_are_set() {
    let mut page = Me1LeGeneral::create();
    let mut s = save();
    assert!(page.update(&mut s, Msg::TalentPoints(42)));
    assert_eq!(s.player.talent_points, 42);
}

#[test]
fn inventory_edits() {
    let mut page = Me1LeInventory::create();
    let mut items = vec![item(1), item(2)];
    assert!(!page.update(&mut items, InventoryMsg::ChangeItem(1, DbItem { item_id: 9, manufacturer_id: 8 })));
    assert_eq!((items[1].item_id, items[1].manufacturer_id, items[1].item_level), (9, 8, 1));
    page.update(&mut items, InventoryMsg::ChangeItemLevel(0, 6));
    assert_eq!(items[0].item_level, 6);
    assert!(page.update(&mut items, InventoryMsg::AddItem));
    assert_eq!(items.len(), 3);
    assert_eq!(items[2].item_id, 0);
    assert!(page.update(&mut items, InventoryMsg::RemoveItem(0)));
    let ids: Vec<i32> = items.iter().map(|i| i.item_id).collect();
    assert_eq!(ids, vec![9, 0]);
    assert!(page.update(&mut items, InventoryMsg::ItemDb(vec![])));
    assert!(page.item_db.is_some());
}

#[test]
fn item_picker_filters_and_scrolls() {
    let db: Vec<(DbItem, String)> = (0..30)
        .map(|i| (DbItem { item_id: i, manufacturer_id: 0 }, if i % 3 == 0 { format!("Pistol {}", i) } else { format!("Armor {}", i) }))
        .collect();
    let mut picker = ItemSelect::create(DbItem { item_id: 0, manufacturer_id: 0 });
    let (redraw, _) = picker.update(&db, SelectMsg::Scrolled(Some(45)));
    assert!(redraw);
    assert_eq!((picker.skip, picker.take), (2, 17));
    let (_, commands) = picker.update(&db, SelectMsg::Filter("PIST".to_string()));
    assert!(matches!(commands.as_slice(), [SelectCommand::Measure]));
    assert_eq!(picker.filtered_list.as_ref().unwrap().len(), 10);
    assert_eq!(picker.filter, "PIST");
    picker.update(&db, SelectMsg::Scrolled(Some(-5)));
    assert_eq!((picker.skip, picker.take), (0, 10));
    picker.update(&db, SelectMsg::Filter(String::new()));
    assert!(picker.filtered_list.is_none());
}

#[test]
fn item_picker_open_and_close() {
    let db: Vec<(DbItem, String)> = vec![];
    let mut picker = ItemSelect::create(DbItem { item_id: 0, manufacturer_id: 0 });
    picker.update(&db, SelectMsg::Open);
    assert!(picker.opened && picker.is_opening);
    picker.update(&db, SelectMsg::Focused);
    let (redraw, _) = picker.update(&db, SelectMsg::ShouldClose);
    assert!(!redraw && picker.opened);
    let (_, commands) = picker.update(&db, SelectMsg::Blurred);
    assert!(matches!(commands.as_slice(), [SelectCommand::CheckCloseLater]));
    let (redraw, commands) = picker.update(&db, SelectMsg::ShouldClose);
    assert!(redraw && !picker.opened);
    assert!(matches!(commands.as_slice(), [SelectCommand::ResetDropDown]));
    let chosen = DbItem { item_id: 5, manufacturer_id: 1 };
    let (_, commands) = picker.update(&db, SelectMsg::Select(chosen));
    assert_eq!(picker.current_item, chosen);
    assert!(matches!(commands.as_slice(), [SelectCommand::Selected(i), SelectCommand::BlurAll] if *i == chosen));
}

#[test]
fn item_names_and_unknown_items() {
    let db = vec![(DbItem { item_id: 1, manufacturer_id: 2 }, "Colossus X".to_string())];
    assert_eq!(item_name(&db, DbItem { item_id: 1, manufacturer_id: 2 }), "Colossus X");
    assert_eq!(item_name(&db, DbItem { item_id: 1, manufacturer_id: 3 }), "Unknown item");
}

#[test]
fn opened_picker_places_its_drop_down() {
    let db: Vec<(DbItem, String)> = vec![];
    let mut picker = ItemSelect::create(DbItem { item_id: 0, manufacturer_id: 0 });
    assert!(picker.rendered(None).is_empty());
    picker.update(&db, SelectMsg::Open);
    let layout = DropDownLayout {
        top: 600,
        bottom: 900,
        left: 700,
        width: 300,
        viewport_height: 905,
        viewport_width: 1000,
        select_height: Some(24),
    };
    let commands = picker.rendered(Some(layout));
    assert!(matches!(
        commands.as_slice(),
        [SelectCommand::FocusFilter, SelectCommand::OpenUpward(24), SelectCommand::AlignRight, SelectCommand::Measure]
    ));
    assert!(!picker.is_opening);
    assert!(picker.rendered(None).is_empty());
}
