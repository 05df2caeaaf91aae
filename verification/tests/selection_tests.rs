use trilogy_save::bonus_powers::Me2Power;
use trilogy_save::mass_effect_3::player::Power;
use trilogy_save::plot_filter::{decimal_chars, is_usize_number};
use trilogy_save::selection::{
    bonus_power_ticked, me2_bonus_power_ticked, me2_listed_class, me3_listed_class, me3_listed_class_str,
    set_bonus_power_ticked, set_me2_bonus_power_ticked,
};

#[test]
fn listed_classes_fold_case() {
    assert_eq!(me3_listed_class("sfxgame.sfxpawn_playeradept"), Some(0));
    assert_eq!(me3_listed_class("SFXGame.SFXPawn_PlayerVanguardNonCombat"), Some(11));
    assert_eq!(me3_listed_class("SFXGame.SFXPawn_PlayerSoldier"), Some(8));
    assert_eq!(me3_listed_class("Nobody"), None);
    assert_eq!(me3_listed_class_str(2), "SFXGame.SFXPawn_PlayerEngineer");
    assert_eq!(me2_listed_class("SFXGAME.SFXPAWN_PLAYERSENTINEL"), Some(3));
    assert_eq!(me2_listed_class(""), None);
}

#[test]
fn ticking_bonus_powers() {
    let mut powers: Vec<Power> = vec![];
    let name = "SFXGameContent.SFXPowerCustomAction_Carnage";
    assert!(!bonus_power_ticked(&powers, name));
    set_bonus_power_ticked(&mut powers, name, true);
    assert!(bonus_power_ticked(&powers, &name.to_uppercase()));
    set_bonus_power_ticked(&mut powers, &name.to_lowercase(), false);
    assert!(powers.is_empty());
    set_bonus_power_ticked(&mut powers, name, false);
    assert!(powers.is_empty());
}

#[test]
fn ticking_me2_bonus_powers() {
    let mut powers: Vec<Me2Power> = vec![Me2Power::with_class_name("Other".to_string())];
    let name = "SFXGameContent_Powers.SFXPower_Reave_Player";
    set_me2_bonus_power_ticked(&mut powers, name, true);
    assert_eq!(powers.len(), 2);
    assert!(me2_bonus_power_ticked(&powers, name));
    set_me2_bonus_power_ticked(&mut powers, name, false);
    assert_eq!(powers.len(), 1);
    assert_eq!(powers[0].power_class_name, "Other");
}

#[test]
fn decimal_ids_read_back() {
    for id in [0usize, 7, 10, 4096, usize::MAX] {
        let digits = decimal_chars(id);
        assert!(is_usize_number(&digits));
        let text: String = digits.iter().collect();
        assert_eq!(text.parse::<usize>().unwrap(), id);
    }
}
