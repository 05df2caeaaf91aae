use trilogy_save::mass_effect_3::player::{Notoriety, Origin};
use trilogy_save::me1_leg::{edit_me1_leg, squad_name, Me1LegHenchman, Me1LegPlayer, Me1LegSaveData, Msg};
use trilogy_save::talents::ComplexTalent;
use trilogy_save::text::property_label;

fn talent(rank: i32) -> ComplexTalent {
    ComplexTalent { talent_id: 1, current_rank: rank, max_rank: 12, level_offset: 0, levels_per_rank: 1, visual_order: 0 }
}

fn save() -> Me1LegSaveData {
    Me1LegSaveData {
        player: Me1LegPlayer {
            is_female: false,
            origin: Origin::NotSet,
            notoriety: Notoriety::NotSet,
            talent_points: 2,
            complex_talents: vec![talent(3)],
        },
        squad: vec![Me1LegHenchman { tag: "hench_quarian".to_string(), talent_points: 0, complex_talents: vec![talent(5)] }],
        int_variables: vec![0; 3],
    }
}

#[test]
fn legacy_general_edits() {
    let mut s = save();
    edit_me1_leg(&mut s, Msg::Gender(1));
    assert!(s.player.is_female);
    edit_me1_leg(&mut s, Msg::Origin(2));
    assert_eq!(s.player.origin, Origin::Colonist);
    assert_eq!(s.int_variables, vec![0, 2, 0]);
    edit_me1_leg(&mut s, Msg::Notoriety(1));
    assert_eq!(s.player.notoriety, Notoriety::Survivor);
    assert_eq!(s.int_variables, vec![0, 2, 1]);
    edit_me1_leg(&mut s, Msg::ResetPlayerTalents);
    assert_eq!(s.player.talent_points, 5);
    edit_me1_leg(&mut s, Msg::ResetSquadTalents(0));
    assert_eq!(s.squad[0].talent_points, 5);
    assert_eq!(s.squad[0].complex_talents[0].current_rank, 0);
    assert_eq!(squad_name(&s.squad[0].tag), Some("Tali'Zorah"));
    assert_eq!(squad_name("hench_other"), None);
}

#[test]
fn property_labels_lose_their_prefix() {
    assert_eq!(property_label(None, "m_nCombatDifficulty"), "CombatDifficulty");
    assert_eq!(property_label(None, "m_m_Name"), "Name");
    assert_eq!(property_label(None, "m_am_aList"), "List");
    assert_eq!(property_label(None, "Plain"), "Plain");
    assert_eq!(property_label(Some("Given"), "m_bFlag"), "Given");
}
