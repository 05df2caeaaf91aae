use vstd::prelude::*;

use crate::cursor::SaveCursor;
use crate::error::SaveError;
use crate::mass_effect_3::player::{Power, Weapon, WeaponLoadout, WeaponMod};
use crate::save_data::{then_extent, ImguiString, SaveData};

verus! {

broadcast use crate::seq_lemmas::lemma_skip_skip;

/// A squad member.
#[derive(Debug)]
pub struct Henchman {
    pub tag: ImguiString,
    pub powers: Vec<Power>,
    pub character_level: i32,
    pub talent_points: i32,
    pub weapon_loadout: WeaponLoadout,
    pub mapped_power: ImguiString,
    pub weapon_mods: Vec<WeaponMod>,
    pub grenades: i32,
    pub weapons: Vec<Weapon>,
}

impl SaveData for Henchman {
    closed spec fn spec_extent(input: Seq<u8>) -> Result<nat, SaveError> {
        let r0 = <ImguiString as SaveData>::spec_extent(input);
        let r1 = then_extent::<Vec<Power>>(input, r0);
        let r2 = then_extent::<i32>(input, r1);
        let r3 = then_extent::<i32>(input, r2);
        let r4 = then_extent::<WeaponLoadout>(input, r3);
        let r5 = then_extent::<ImguiString>(input, r4);
        let r6 = then_extent::<Vec<WeaponMod>>(input, r5);
        let r7 = then_extent::<i32>(input, r6);
        let r8 = then_extent::<Vec<Weapon>>(input, r7);
        r8
    }

    closed spec fn spec_encodes(input: Seq<u8>, value: Henchman) -> bool {
        let r0 = <ImguiString as SaveData>::spec_extent(input);
        let r1 = then_extent::<Vec<Power>>(input, r0);
        let r2 = then_extent::<i32>(input, r1);
        let r3 = then_extent::<i32>(input, r2);
        let r4 = then_extent::<WeaponLoadout>(input, r3);
        let r5 = then_extent::<ImguiString>(input, r4);
        let r6 = then_extent::<Vec<WeaponMod>>(input, r5);
        let r7 = then_extent::<i32>(input, r6);
        &&& <ImguiString as SaveData>::spec_encodes(input, value.tag)
        &&& <Vec<Power> as SaveData>::spec_encodes(input.skip(r0->Ok_0 as int), value.powers)
        &&& <i32 as SaveData>::spec_encodes(input.skip(r1->Ok_0 as int), value.character_level)
        &&& <i32 as SaveData>::spec_encodes(input.skip(r2->Ok_0 as int), value.talent_points)
        &&& <WeaponLoadout as SaveData>::spec_encodes(input.skip(r3->Ok_0 as int), value.weapon_loadout)
        &&& <ImguiString as SaveData>::spec_encodes(input.skip(r4->Ok_0 as int), value.mapped_power)
        &&& <Vec<WeaponMod> as SaveData>::spec_encodes(input.skip(r5->Ok_0 as int), value.weapon_mods)
        &&& <i32 as SaveData>::spec_encodes(input.skip(r6->Ok_0 as int), value.grenades)
        &&& <Vec<Weapon> as SaveData>::spec_encodes(input.skip(r7->Ok_0 as int), value.weapons)
    }

    #[verifier::rlimit(90)]
    #[verifier::spinoff_prover]
    fn deserialize(cursor: &mut SaveCursor) -> (res: Result<Henchman, SaveError>) {
        let ghost input = cursor.remaining();
        let ghost start = cursor.position();
        let tag = match <ImguiString as SaveData>::deserialize(cursor) {
            Ok(v) => v,
            Err(e) => return Err(e),
        };
        let ghost r0 = <ImguiString as SaveData>::spec_extent(input);
        assert(r0 == Ok::<nat, SaveError>((cursor.position() - start) as nat));
        let powers = match <Vec<Power> as SaveData>::deserialize(cursor) {
            Ok(v) => v,
            Err(e) => return Err(e),
        };
        let ghost r1 = then_extent::<Vec<Power>>(input, r0);
        assert(r1 == Ok::<nat, SaveError>((cursor.position() - start) as nat));
        let character_level = match <i32 as SaveData>::deserialize(cursor) {
            Ok(v) => v,
            Err(e) => return Err(e),
        };
        let ghost r2 = then_extent::<i32>(input, r1);
        assert(r2 == Ok::<nat, SaveError>((cursor.position() - start) as nat));
        let talent_points = match <i32 as SaveData>::deserialize(cursor) {
            Ok(v) => v,
            Err(e) => return Err(e),
        };
        let ghost r3 = then_extent::<i32>(input, r2);
        assert(r3 == Ok::<nat, SaveError>((cursor.position() - start) as nat));
        let weapon_loadout = match <WeaponLoadout as SaveData>::deserialize(cursor) {
            Ok(v) => v,
            Err(e) => return Err(e),
        };
        let ghost r4 = then_extent::<WeaponLoadout>(input, r3);
        assert(r4 == Ok::<nat, SaveError>((cursor.position() - start) as nat));
        let mapped_power = match <ImguiString as SaveData>::deserialize(cursor) {
            Ok(v) => v,
            Err(e) => return Err(e),
        };
        let ghost r5 = then_extent::<ImguiString>(input, r4);
        assert(r5 == Ok::<nat, SaveError>((cursor.position() - start) as nat));
        let weapon_mods = match <Vec<WeaponMod> as SaveData>::deserialize(cursor) {
            Ok(v) => v,
            Err(e) => return Err(e),
        };
        let ghost r6 = then_extent::<Vec<WeaponMod>>(input, r5);
        assert(r6 == Ok::<nat, SaveError>((cursor.position() - start) as nat));
        let grenades = match <i32 as SaveData>::deserialize(cursor) {
            Ok(v) => v,
            Err(e) => return Err(e),
        };
        let ghost r7 = then_extent::<i32>(input, r6);
        assert(r7 == Ok::<nat, SaveError>((cursor.position() - start) as nat));
        let weapons = match <Vec<Weapon> as SaveData>::deserialize(cursor) {
            Ok(v) => v,
            Err(e) => return Err(e),
        };
        let ghost r8 = then_extent::<Vec<Weapon>>(input, r7);
        assert(r8 == Ok::<nat, SaveError>((cursor.position() - start) as nat));
        Ok(Henchman { tag, powers, character_level, talent_points, weapon_loadout, mapped_power, weapon_mods, grenades, weapons })
    }
}

/// How a value of type `Henchman` is laid out in a save file: the bytes its reader takes
/// and the value they encode.
pub proof fn lemma_henchman_layout(input: Seq<u8>, value: Henchman)
    ensures
        <Henchman as SaveData>::spec_extent(input) == ({
            let r0 = <ImguiString as SaveData>::spec_extent(input);
            let r1 = then_extent::<Vec<Power>>(input, r0);
            let r2 = then_extent::<i32>(input, r1);
            let r3 = then_extent::<i32>(input, r2);
            let r4 = then_extent::<WeaponLoadout>(input, r3);
            let r5 = then_extent::<ImguiString>(input, r4);
            let r6 = then_extent::<Vec<WeaponMod>>(input, r5);
            let r7 = then_extent::<i32>(input, r6);
            let r8 = then_extent::<Vec<Weapon>>(input, r7);
            r8
        }),
        <Henchman as SaveData>::spec_encodes(input, value) == ({
            let r0 = <ImguiString as SaveData>::spec_extent(input);
            let r1 = then_extent::<Vec<Power>>(input, r0);
            let r2 = then_extent::<i32>(input, r1);
            let r3 = then_extent::<i32>(input, r2);
            let r4 = then_extent::<WeaponLoadout>(input, r3);
            let r5 = then_extent::<ImguiString>(input, r4);
            let r6 = then_extent::<Vec<WeaponMod>>(input, r5);
            let r7 = then_extent::<i32>(input, r6);
            &&& <ImguiString as SaveData>::spec_encodes(input, value.tag)
            &&& <Vec<Power> as SaveData>::spec_encodes(input.skip(r0->Ok_0 as int), value.powers)
            &&& <i32 as SaveData>::spec_encodes(input.skip(r1->Ok_0 as int), value.character_level)
            &&& <i32 as SaveData>::spec_encodes(input.skip(r2->Ok_0 as int), value.talent_points)
            &&& <WeaponLoadout as SaveData>::spec_encodes(input.skip(r3->Ok_0 as int), value.weapon_loadout)
            &&& <ImguiString as SaveData>::spec_encodes(input.skip(r4->Ok_0 as int), value.mapped_power)
            &&& <Vec<WeaponMod> as SaveData>::spec_encodes(input.skip(r5->Ok_0 as int), value.weapon_mods)
            &&& <i32 as SaveData>::spec_encodes(input.skip(r6->Ok_0 as int), value.grenades)
            &&& <Vec<Weapon> as SaveData>::spec_encodes(input.skip(r7->Ok_0 as int), value.weapons)
        }),
{
}


} // verus!
