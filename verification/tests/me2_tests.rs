use trilogy_save::mass_effect_3::player::{Notoriety, Origin};
use trilogy_save::me2_general::{
    me2_class_index, me2_class_name_str, Me2General, Me2LeSaveGame, Me2Player, Me2PlotTable, Me2SaveGame, Me2Type, Msg,
};

fn me2_player() -> Me2Player {
    Me2Player {
        is_female: false,
        origin: Origin::NotSet,
        notoriety: Notoriety::NotSet,
        class_name: "SFXGame.SFXPawn_PlayerSoldier".to_string(),
    }
}

fn plots() -> (Me2PlotTable, Me2PlotTable) {
    (
        Me2PlotTable { booleans: vec![false; 5000], integers: vec![0; 5] },
        Me2PlotTable { booleans: vec![false; 2000], integers: vec![] },
    )
}

#[test]
fn vanilla_gender_sets_both_plots() {
    let (me1_plot, plot) = plots();
    let mut save = Me2Type::Vanilla(Me2SaveGame { player: me2_player(), me1_plot, plot });
    assert!(!Me2General.update(&mut save, Msg::Gender(1)));
    match &save {
        Me2Type::Vanilla(s) => {
            assert!(s.player.is_female);
            assert!(s.me1_plot.booleans[4639]);
            assert!(s.plot.booleans[66]);
        }
        _ => panic!("edition changed"),
    }
}

#[test]
fn legendary_origin_and_notoriety() {
    let (me1_plot, plot) = plots();
    let mut save = Me2Type::Legendary(Me2LeSaveGame { player: me2_player(), me1_plot, plot });
    Me2General.update(&mut save, Msg::Origin(1));
    Me2General.update(&mut save, Msg::Notoriety(2));
    match &save {
        Me2Type::Legendary(s) => {
            assert_eq!(s.player.origin, Origin::Spacer);
            assert_eq!(s.player.notoriety, Notoriety::Warhero);
            assert!(s.plot.booleans[1533] && !s.plot.booleans[1534] && !s.plot.booleans[1535]);
            assert!(!s.plot.booleans[1537] && s.plot.booleans[1538] && !s.plot.booleans[1539]);
            assert_eq!(s.me1_plot.integers[1], 1);
            assert_eq!(s.me1_plot.integers[2], 2);
        }
        _ => panic!("edition changed"),
    }
}

#[test]
fn class_names() {
    let (me1_plot, plot) = plots();
    let mut save = Me2Type::Vanilla(Me2SaveGame { player: me2_player(), me1_plot, plot });
    Me2General.update(&mut save, Msg::PlayerClass(3));
    match &save {
        Me2Type::Vanilla(s) => {
            assert_eq!(s.player.class_name, "SFXGame.SFXPawn_PlayerInfiltrator");
            assert_eq!(me2_class_index(&s.player.class_name), 3);
        }
        _ => panic!("edition changed"),
    }
    assert_eq!(me2_class_index("sfxgame.sfxpawn_playervanguard"), 5);
    assert_eq!(me2_class_index("nothing"), 0);
}

#[test]
fn me2_class_round_trip_for_every_class() {
    for i in 0..6 {
        assert_eq!(me2_class_index(me2_class_name_str(i)), i);
        assert_eq!(me2_class_index(&me2_class_name_str(i).to_uppercase()), i);
    }
}
