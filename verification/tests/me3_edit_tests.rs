use indexmap::IndexMap;
use trilogy_save::bonus_powers::{BonusPowerType, BonusPowers, Me2Power};
use trilogy_save::cursor::SaveCursor;
use trilogy_save::mass_effect_3::player::{Notoriety, Origin, Power};
use trilogy_save::mass_effect_3::Me3SaveGame;
use trilogy_save::me3_general::{me3_class_index, me3_class_name_str, toggle_bonus_power, Me3General, Msg};
use trilogy_save::save_data::SaveData;

fn empty_save() -> Me3SaveGame {
    let mut bytes = 59i32.to_le_bytes().to_vec();
    bytes.extend(std::iter::repeat(0u8).take(4096));
    Me3SaveGame::deserialize(&mut SaveCursor::new(bytes)).unwrap()
}

fn save_with_plots() -> Me3SaveGame {
    let mut save = empty_save();
    save.plot.bool_variables.variables = vec![false; 20000];
    let mut ints = IndexMap::new();
    ints.insert(10001, 0);
    ints.insert(10002, 0);
    save.plot.int_variables = ints;
    save
}

#[test]
fn gender_sets_player_and_three_games() {
    let mut save = save_with_plots();
    let redraw = Me3General.update(&mut save, Msg::Gender(1));
    assert!(!redraw);
    assert!(save.player.is_female);
    let flags = &save.plot.bool_variables.variables;
    assert!(flags[14639] && flags[66] && flags[17662]);
    assert!(!flags[19578] && !flags[19579]);
}

#[test]
fn gender_switches_nickname_when_there_is_one() {
    let mut save = save_with_plots();
    save.plot.bool_variables.variables[19578] = true;
    Me3General.update(&mut save, Msg::Gender(1));
    assert!(!save.plot.bool_variables.variables[19578]);
    assert!(save.plot.bool_variables.variables[19579]);
    Me3General.update(&mut save, Msg::Gender(0));
    assert!(save.plot.bool_variables.variables[19578]);
    assert!(!save.plot.bool_variables.variables[19579]);
}

#[test]
fn gender_twice_is_gender_once() {
    let mut once = save_with_plots();
    once.plot.bool_variables.variables[19579] = true;
    let mut twice = save_with_plots();
    twice.plot.bool_variables.variables[19579] = true;
    Me3General.update(&mut once, Msg::Gender(0));
    Me3General.update(&mut twice, Msg::Gender(0));
    Me3General.update(&mut twice, Msg::Gender(0));
    assert_eq!(once.plot.bool_variables.variables, twice.plot.bool_variables.variables);
}

#[test]
fn gender_on_short_plot_table_touches_nothing_missing() {
    let mut save = empty_save();
    save.plot.bool_variables.variables = vec![false; 100];
    Me3General.update(&mut save, Msg::Gender(1));
    assert_eq!(save.plot.bool_variables.variables.len(), 100);
    assert!(save.plot.bool_variables.variables[66]);
}

#[test]
fn origin_sets_flags_and_imported_variable() {
    let mut save = save_with_plots();
    Me3General.update(&mut save, Msg::Origin(2));
    assert_eq!(save.player.origin, Origin::Colonist);
    let flags = &save.plot.bool_variables.variables;
    assert!(!flags[1533] && flags[1535] && !flags[1534]);
    assert_eq!(save.plot.int_variables.get(&10001), Some(&2));
    Me3General.update(&mut save, Msg::Origin(1));
    let flags = &save.plot.bool_variables.variables;
    assert!(flags[1533] && !flags[1535] && !flags[1534]);
    assert_eq!(save.plot.int_variables.get(&10001), Some(&1));
}

#[test]
fn no_origin_keeps_flags() {
    let mut save = save_with_plots();
    save.plot.bool_variables.variables[1534] = true;
    Me3General.update(&mut save, Msg::Origin(0));
    assert_eq!(save.player.origin, Origin::NotSet);
    assert!(save.plot.bool_variables.variables[1534]);
    assert_eq!(save.plot.int_variables.get(&10001), Some(&0));
}

#[test]
fn missing_imported_variable_is_not_added() {
    let mut save = empty_save();
    save.plot.bool_variables.variables = vec![false; 2000];
    Me3General.update(&mut save, Msg::Notoriety(3));
    assert_eq!(save.player.notoriety, Notoriety::Ruthless);
    assert!(save.plot.bool_variables.variables[1539]);
    assert!(save.plot.int_variables.is_empty());
}

#[test]
fn notoriety_sets_flags_and_imported_variable() {
    let mut save = save_with_plots();
    Me3General.update(&mut save, Msg::Notoriety(1));
    let flags = &save.plot.bool_variables.variables;
    assert!(flags[1537] && !flags[1538] && !flags[1539]);
    assert_eq!(save.plot.int_variables.get(&10002), Some(&1));
}

#[test]
fn class_is_set_by_name() {
    let mut save = empty_save();
    Me3General.update(&mut save, Msg::PlayerClass(5));
    assert_eq!(save.player.class_name.text, "SFXGame.SFXPawn_PlayerAdeptNonCombat");
    assert_eq!(me3_class_index(&save.player.class_name.text), 5);
}

#[test]
fn class_index_ignores_ascii_case_and_defaults_to_soldier() {
    assert_eq!(me3_class_index("sfxgame.sfxpawn_playervanguard"), 10);
    assert_eq!(me3_class_index("SFXGame.SFXPawn_PlayerVanguardNonCombat"), 11);
    assert_eq!(me3_class_index("Unknown"), 0);
    assert_eq!(me3_class_name_str(0), "SFXGame.SFXPawn_PlayerSoldier");
}

#[test]
fn bonus_power_toggled_on_then_off() {
    let mut powers: Vec<Power> = Vec::new();
    let name = "SFXGameContent.SFXPowerCustomAction_Reave";
    toggle_bonus_power(&mut powers, name.to_string());
    assert_eq!(powers.len(), 1);
    assert_eq!(powers[0].power_class_name.text, name);
    assert_eq!(powers[0].name.text, "");
    toggle_bonus_power(&mut powers, name.to_ascii_lowercase());
    assert!(powers.is_empty());
}

#[test]
fn bonus_power_removes_only_the_first_match() {
    let mut powers = vec![
        Power::with_class_name("A".to_string()),
        Power::with_class_name("B".to_string()),
        Power::with_class_name("a".to_string()),
    ];
    toggle_bonus_power(&mut powers, "a".to_string());
    let names: Vec<&str> = powers.iter().map(|p| p.power_class_name.text.as_str()).collect();
    assert_eq!(names, vec!["B", "a"]);
}

#[test]
fn bonus_powers_panel_for_both_games() {
    let mut me2 = BonusPowerType::Me2(vec![]);
    assert!(BonusPowers.update(&mut me2, "SFXGameContent_Powers.SFXPower_Barrier".to_string()));
    match &me2 {
        BonusPowerType::Me2(list) => {
            assert_eq!(list.len(), 1);
            assert_eq!(list[0].power_class_name, "SFXGameContent_Powers.SFXPower_Barrier");
        }
        _ => panic!("kind changed"),
    }
    let mut me3 = BonusPowerType::Me3(vec![Power::with_class_name("X".to_string())]);
    BonusPowers.update(&mut me3, "x".to_string());
    match &me3 {
        BonusPowerType::Me3(list) => assert!(list.is_empty()),
        _ => panic!("kind changed"),
    }
    let p = Me2Power::with_class_name("Y".to_string());
    assert_eq!(p.wheel_display_index, 0);
}

#[test]
fn added_bonus_power_is_empty() {
    let mut powers: Vec<Power> = Vec::new();
    toggle_bonus_power(&mut powers, "P".to_string());
    let p = &powers[0];
    assert_eq!(p.current_rank.bits, 0);
    assert_eq!(
        [p.evolved_choice_0, p.evolved_choice_1, p.evolved_choice_2, p.evolved_choice_3, p.evolved_choice_4, p.evolved_choice_5],
        [0; 6]
    );
    assert_eq!(p.wheel_display_index, 0);
    assert_eq!(p.name.text, "");
}

#[test]
fn me3_class_round_trip_for_every_class() {
    for i in 0..12 {
        assert_eq!(me3_class_index(me3_class_name_str(i)), i);
        assert_eq!(me3_class_index(&me3_class_name_str(i).to_lowercase()), i);
    }
}
