use vstd::prelude::*;

use crate::cursor::SaveCursor;
use crate::error::SaveError;
use crate::mass_effect_3::appearance::Appearance;
use crate::save_data::{enum_extent, then_extent, Float32, ImguiString, SaveData};

verus! {

broadcast use crate::seq_lemmas::lemma_skip_skip;

/// The player's character.
#[derive(Debug)]
pub struct Player {
    pub is_female: bool,
    pub class_name: ImguiString,
    pub is_combat_pawn: bool,
    pub is_injured_pawn: bool,
    pub use_casual_appearance: bool,
    pub level: i32,
    pub current_xp: Float32,
    pub first_name: ImguiString,
    pub last_name: i32,
    pub origin: Origin,
    pub notoriety: Notoriety,
    pub talent_points: i32,
    pub mapped_power_1: ImguiString,
    pub mapped_power_2: ImguiString,
    pub mapped_power_3: ImguiString,
    pub appearance: Appearance,
    pub emissive_id: i32,
}

/// Stored field after field; the fields are read 5 at a time.
impl SaveData for Player {
    closed spec fn spec_extent(input: Seq<u8>) -> Result<nat, SaveError> {
        let r0 = <(bool, ImguiString, bool, bool, bool) as SaveData>::spec_extent(input);
        let r1 = then_extent::<(i32, Float32, ImguiString, i32, Origin)>(input, r0);
        let r2 = then_extent::<(Notoriety, i32, ImguiString, ImguiString, ImguiString)>(input, r1);
        let r3 = then_extent::<(Appearance, i32)>(input, r2);
        r3
    }

    closed spec fn spec_encodes(input: Seq<u8>, value: Player) -> bool {
        let r0 = <(bool, ImguiString, bool, bool, bool) as SaveData>::spec_extent(input);
        let r1 = then_extent::<(i32, Float32, ImguiString, i32, Origin)>(input, r0);
        let r2 = then_extent::<(Notoriety, i32, ImguiString, ImguiString, ImguiString)>(input, r1);
        &&& <(bool, ImguiString, bool, bool, bool) as SaveData>::spec_encodes(input, (value.is_female, value.class_name, value.is_combat_pawn, value.is_injured_pawn, value.use_casual_appearance))
        &&& <(i32, Float32, ImguiString, i32, Origin) as SaveData>::spec_encodes(input.skip(r0->Ok_0 as int), (value.level, value.current_xp, value.first_name, value.last_name, value.origin))
        &&& <(Notoriety, i32, ImguiString, ImguiString, ImguiString) as SaveData>::spec_encodes(input.skip(r1->Ok_0 as int), (value.notoriety, value.talent_points, value.mapped_power_1, value.mapped_power_2, value.mapped_power_3))
        &&& <(Appearance, i32) as SaveData>::spec_encodes(input.skip(r2->Ok_0 as int), (value.appearance, value.emissive_id))
    }

    #[verifier::rlimit(100)]
    #[verifier::spinoff_prover]
    fn deserialize(cursor: &mut SaveCursor) -> (res: Result<Player, SaveError>) {
        let ghost input = cursor.remaining();
        let ghost start = cursor.position();
        let (is_female, class_name, is_combat_pawn, is_injured_pawn, use_casual_appearance) = match <(bool, ImguiString, bool, bool, bool) as SaveData>::deserialize(cursor) {
            Ok(v) => v,
            Err(e) => return Err(e),
        };
        let ghost r0 = <(bool, ImguiString, bool, bool, bool) as SaveData>::spec_extent(input);
        assert(r0 == Ok::<nat, SaveError>((cursor.position() - start) as nat));
        let (level, current_xp, first_name, last_name, origin) = match <(i32, Float32, ImguiString, i32, Origin) as SaveData>::deserialize(cursor) {
            Ok(v) => v,
            Err(e) => return Err(e),
        };
        let ghost r1 = then_extent::<(i32, Float32, ImguiString, i32, Origin)>(input, r0);
        assert(r1 == Ok::<nat, SaveError>((cursor.position() - start) as nat));
        let (notoriety, talent_points, mapped_power_1, mapped_power_2, mapped_power_3) = match <(Notoriety, i32, ImguiString, ImguiString, ImguiString) as SaveData>::deserialize(cursor) {
            Ok(v) => v,
            Err(e) => return Err(e),
        };
        let ghost r2 = then_extent::<(Notoriety, i32, ImguiString, ImguiString, ImguiString)>(input, r1);
        assert(r2 == Ok::<nat, SaveError>((cursor.position() - start) as nat));
        let (appearance, emissive_id) = match <(Appearance, i32) as SaveData>::deserialize(cursor) {
            Ok(v) => v,
            Err(e) => return Err(e),
        };
        let ghost r3 = then_extent::<(Appearance, i32)>(input, r2);
        assert(r3 == Ok::<nat, SaveError>((cursor.position() - start) as nat));
        Ok(Player { is_female, class_name, is_combat_pawn, is_injured_pawn, use_casual_appearance, level, current_xp, first_name, last_name, origin, notoriety, talent_points, mapped_power_1, mapped_power_2, mapped_power_3, appearance, emissive_id })
    }
}

/// How a value of type `Player` is laid out in a save file: the bytes its reader takes
/// and the value they encode.
pub proof fn lemma_player_layout(input: Seq<u8>, value: Player)
    ensures
        <Player as SaveData>::spec_extent(input) == ({
            let r0 = <(bool, ImguiString, bool, bool, bool) as SaveData>::spec_extent(input);
            let r1 = then_extent::<(i32, Float32, ImguiString, i32, Origin)>(input, r0);
            let r2 = then_extent::<(Notoriety, i32, ImguiString, ImguiString, ImguiString)>(input, r1);
            let r3 = then_extent::<(Appearance, i32)>(input, r2);
            r3
        }),
        <Player as SaveData>::spec_encodes(input, value) == ({
            let r0 = <(bool, ImguiString, bool, bool, bool) as SaveData>::spec_extent(input);
            let r1 = then_extent::<(i32, Float32, ImguiString, i32, Origin)>(input, r0);
            let r2 = then_extent::<(Notoriety, i32, ImguiString, ImguiString, ImguiString)>(input, r1);
            &&& <(bool, ImguiString, bool, bool, bool) as SaveData>::spec_encodes(input, (value.is_female, value.class_name, value.is_combat_pawn, value.is_injured_pawn, value.use_casual_appearance))
            &&& <(i32, Float32, ImguiString, i32, Origin) as SaveData>::spec_encodes(input.skip(r0->Ok_0 as int), (value.level, value.current_xp, value.first_name, value.last_name, value.origin))
            &&& <(Notoriety, i32, ImguiString, ImguiString, ImguiString) as SaveData>::spec_encodes(input.skip(r1->Ok_0 as int), (value.notoriety, value.talent_points, value.mapped_power_1, value.mapped_power_2, value.mapped_power_3))
            &&& <(Appearance, i32) as SaveData>::spec_encodes(input.skip(r2->Ok_0 as int), (value.appearance, value.emissive_id))
        }),
{
}


/// Where the player grew up.
#[derive(Clone, Copy, Debug, PartialEq, Eq, Structural)]
pub enum Origin {
    NotSet,
    Spacer,
    Colonist,
    Earthborn,
}

impl Origin {
    /// The variant stored as `index`, if any.
    pub open spec fn spec_from_index(index: u8) -> Option<Origin> {
        if index == 0 {
            Some(Origin::NotSet)
        } else if index == 1 {
            Some(Origin::Spacer)
        } else if index == 2 {
            Some(Origin::Colonist)
        } else if index == 3 {
            Some(Origin::Earthborn)
        } else {
            None
        }
    }

    /// The variant stored as `index`, if any.
    pub fn from_index(index: u8) -> (res: Option<Origin>)
        ensures
            res == Self::spec_from_index(index),
    {
        if index == 0 {
            Some(Origin::NotSet)
        } else if index == 1 {
            Some(Origin::Spacer)
        } else if index == 2 {
            Some(Origin::Colonist)
        } else if index == 3 {
            Some(Origin::Earthborn)
        } else {
            None
        }
    }
}

/// Stored as one byte, the position of the variant.
impl SaveData for Origin {
    closed spec fn spec_extent(input: Seq<u8>) -> Result<nat, SaveError> {
        enum_extent(input, Origin::spec_from_index(input[0]) is Some)
    }

    closed spec fn spec_encodes(input: Seq<u8>, value: Origin) -> bool {
        Origin::spec_from_index(input[0]) == Some(value)
    }

    fn deserialize(cursor: &mut SaveCursor) -> (res: Result<Origin, SaveError>) {
        let index = match <u8 as SaveData>::deserialize(cursor) {
            Ok(index) => index,
            Err(e) => return Err(e),
        };
        match Origin::from_index(index) {
            Some(v) => Ok(v),
            None => Err(SaveError::InvalidEnumValue),
        }
    }
}

/// The variants of `Origin` in the order they are declared.
pub open spec fn origin_variants() -> Seq<Origin> {
    seq![Origin::NotSet, Origin::Spacer, Origin::Colonist, Origin::Earthborn]
}

/// Law: a `Origin` is stored as one byte, the position of its variant in the
/// declaration order; a byte past the last variant is refused.
pub proof fn law_origin_byte_is_position(input: Seq<u8>, value: Origin)
    requires
        input.len() >= 1,
    ensures
        Origin::spec_from_index(input[0]) == if input[0] < 4 {
            Some(origin_variants()[input[0] as int])
        } else {
            None
        },
        <Origin as SaveData>::spec_extent(input) == if input[0] < 4 {
            Ok::<nat, SaveError>(1)
        } else {
            Err::<nat, SaveError>(SaveError::InvalidEnumValue)
        },
        <Origin as SaveData>::spec_encodes(input, value) <==> (input[0] < 4 && origin_variants()[input[0] as int] == value),
        forall|i: int, j: int| 0 <= i < 4 && 0 <= j < 4 && i != j ==> origin_variants()[i] != origin_variants()[j],
{
}

/// How a value of type `Origin` is laid out in a save file: the bytes its reader takes
/// and the value they encode.
pub proof fn lemma_origin_layout(input: Seq<u8>, value: Origin)
    ensures
        <Origin as SaveData>::spec_extent(input) == ({
            enum_extent(input, Origin::spec_from_index(input[0]) is Some)
        }),
        <Origin as SaveData>::spec_encodes(input, value) == ({
            Origin::spec_from_index(input[0]) == Some(value)
        }),
{
}


/// The player's past.
#[derive(Clone, Copy, Debug, PartialEq, Eq, Structural)]
pub enum Notoriety {
    NotSet,
    Survivor,
    Warhero,
    Ruthless,
}

impl Notoriety {
    /// The variant stored as `index`, if any.
    pub open spec fn spec_from_index(index: u8) -> Option<Notoriety> {
        if index == 0 {
            Some(Notoriety::NotSet)
        } else if index == 1 {
            Some(Notoriety::Survivor)
        } else if index == 2 {
            Some(Notoriety::Warhero)
        } else if index == 3 {
            Some(Notoriety::Ruthless)
        } else {
            None
        }
    }

    /// The variant stored as `index`, if any.
    pub fn from_index(index: u8) -> (res: Option<Notoriety>)
        ensures
            res == Self::spec_from_index(index),
    {
        if index == 0 {
            Some(Notoriety::NotSet)
        } else if index == 1 {
            Some(Notoriety::Survivor)
        } else if index == 2 {
            Some(Notoriety::Warhero)
        } else if index == 3 {
            Some(Notoriety::Ruthless)
        } else {
            None
        }
    }
}

/// Stored as one byte, the position of the variant.
impl SaveData for Notoriety {
    closed spec fn spec_extent(input: Seq<u8>) -> Result<nat, SaveError> {
        enum_extent(input, Notoriety::spec_from_index(input[0]) is Some)
    }

    closed spec fn spec_encodes(input: Seq<u8>, value: Notoriety) -> bool {
        Notoriety::spec_from_index(input[0]) == Some(value)
    }

    fn deserialize(cursor: &mut SaveCursor) -> (res: Result<Notoriety, SaveError>) {
        let index = match <u8 as SaveData>::deserialize(cursor) {
            Ok(index) => index,
            Err(e) => return Err(e),
        };
        match Notoriety::from_index(index) {
            Some(v) => Ok(v),
            None => Err(SaveError::InvalidEnumValue),
        }
    }
}

/// The variants of `Notoriety` in the order they are declared.
pub open spec fn notoriety_variants() -> Seq<Notoriety> {
    seq![Notoriety::NotSet, Notoriety::Survivor, Notoriety::Warhero, Notoriety::Ruthless]
}

/// Law: a `Notoriety` is stored as one byte, the position of its variant in the
/// declaration order; a byte past the last variant is refused.
pub proof fn law_notoriety_byte_is_position(input: Seq<u8>, value: Notoriety)
    requires
        input.len() >= 1,
    ensures
        Notoriety::spec_from_index(input[0]) == if input[0] < 4 {
            Some(notoriety_variants()[input[0] as int])
        } else {
            None
        },
        <Notoriety as SaveData>::spec_extent(input) == if input[0] < 4 {
            Ok::<nat, SaveError>(1)
        } else {
            Err::<nat, SaveError>(SaveError::InvalidEnumValue)
        },
        <Notoriety as SaveData>::spec_encodes(input, value) <==> (input[0] < 4 && notoriety_variants()[input[0] as int] == value),
        forall|i: int, j: int| 0 <= i < 4 && 0 <= j < 4 && i != j ==> notoriety_variants()[i] != notoriety_variants()[j],
{
}

/// How a value of type `Notoriety` is laid out in a save file: the bytes its reader takes
/// and the value they encode.
pub proof fn lemma_notoriety_layout(input: Seq<u8>, value: Notoriety)
    ensures
        <Notoriety as SaveData>::spec_extent(input) == ({
            enum_extent(input, Notoriety::spec_from_index(input[0]) is Some)
        }),
        <Notoriety as SaveData>::spec_encodes(input, value) == ({
            Notoriety::spec_from_index(input[0]) == Some(value)
        }),
{
}


/// A power of a character.
#[derive(Debug)]
pub struct Power {
    pub name: ImguiString,
    pub current_rank: Float32,
    pub evolved_choice_0: i32,
    pub evolved_choice_1: i32,
    pub evolved_choice_2: i32,
    pub evolved_choice_3: i32,
    pub evolved_choice_4: i32,
    pub evolved_choice_5: i32,
    pub power_class_name: ImguiString,
    pub wheel_display_index: i32,
}

impl SaveData for Power {
    closed spec fn spec_extent(input: Seq<u8>) -> Result<nat, SaveError> {
        let r0 = <ImguiString as SaveData>::spec_extent(input);
        let r1 = then_extent::<Float32>(input, r0);
        let r2 = then_extent::<i32>(input, r1);
        let r3 = then_extent::<i32>(input, r2);
        let r4 = then_extent::<i32>(input, r3);
        let r5 = then_extent::<i32>(input, r4);
        let r6 = then_extent::<i32>(input, r5);
        let r7 = then_extent::<i32>(input, r6);
        let r8 = then_extent::<ImguiString>(input, r7);
        let r9 = then_extent::<i32>(input, r8);
        r9
    }

    closed spec fn spec_encodes(input: Seq<u8>, value: Power) -> bool {
        let r0 = <ImguiString as SaveData>::spec_extent(input);
        let r1 = then_extent::<Float32>(input, r0);
        let r2 = then_extent::<i32>(input, r1);
        let r3 = then_extent::<i32>(input, r2);
        let r4 = then_extent::<i32>(input, r3);
        let r5 = then_extent::<i32>(input, r4);
        let r6 = then_extent::<i32>(input, r5);
        let r7 = then_extent::<i32>(input, r6);
        let r8 = then_extent::<ImguiString>(input, r7);
        &&& <ImguiString as SaveData>::spec_encodes(input, value.name)
        &&& <Float32 as SaveData>::spec_encodes(input.skip(r0->Ok_0 as int), value.current_rank)
        &&& <i32 as SaveData>::spec_encodes(input.skip(r1->Ok_0 as int), value.evolved_choice_0)
        &&& <i32 as SaveData>::spec_encodes(input.skip(r2->Ok_0 as int), value.evolved_choice_1)
        &&& <i32 as SaveData>::spec_encodes(input.skip(r3->Ok_0 as int), value.evolved_choice_2)
        &&& <i32 as SaveData>::spec_encodes(input.skip(r4->Ok_0 as int), value.evolved_choice_3)
        &&& <i32 as SaveData>::spec_encodes(input.skip(r5->Ok_0 as int), value.evolved_choice_4)
        &&& <i32 as SaveData>::spec_encodes(input.skip(r6->Ok_0 as int), value.evolved_choice_5)
        &&& <ImguiString as SaveData>::spec_encodes(input.skip(r7->Ok_0 as int), value.power_class_name)
        &&& <i32 as SaveData>::spec_encodes(input.skip(r8->Ok_0 as int), value.wheel_display_index)
    }

    #[verifier::rlimit(100)]
    #[verifier::spinoff_prover]
    fn deserialize(cursor: &mut SaveCursor) -> (res: Result<Power, SaveError>) {
        let ghost input = cursor.remaining();
        let ghost start = cursor.position();
        let name = match <ImguiString as SaveData>::deserialize(cursor) {
            Ok(v) => v,
            Err(e) => return Err(e),
        };
        let ghost r0 = <ImguiString as SaveData>::spec_extent(input);
        assert(r0 == Ok::<nat, SaveError>((cursor.position() - start) as nat));
        let current_rank = match <Float32 as SaveData>::deserialize(cursor) {
            Ok(v) => v,
            Err(e) => return Err(e),
        };
        let ghost r1 = then_extent::<Float32>(input, r0);
        assert(r1 == Ok::<nat, SaveError>((cursor.position() - start) as nat));
        let evolved_choice_0 = match <i32 as SaveData>::deserialize(cursor) {
            Ok(v) => v,
            Err(e) => return Err(e),
        };
        let ghost r2 = then_extent::<i32>(input, r1);
        assert(r2 == Ok::<nat, SaveError>((cursor.position() - start) as nat));
        let evolved_choice_1 = match <i32 as SaveData>::deserialize(cursor) {
            Ok(v) => v,
            Err(e) => return Err(e),
        };
        let ghost r3 = then_extent::<i32>(input, r2);
        assert(r3 == Ok::<nat, SaveError>((cursor.position() - start) as nat));
        let evolved_choice_2 = match <i32 as SaveData>::deserialize(cursor) {
            Ok(v) => v,
            Err(e) => return Err(e),
        };
        let ghost r4 = then_extent::<i32>(input, r3);
        assert(r4 == Ok::<nat, SaveError>((cursor.position() - start) as nat));
        let evolved_choice_3 = match <i32 as SaveData>::deserialize(cursor) {
            Ok(v) => v,
            Err(e) => return Err(e),
        };
        let ghost r5 = then_extent::<i32>(input, r4);
        assert(r5 == Ok::<nat, SaveError>((cursor.position() - start) as nat));
        let evolved_choice_4 = match <i32 as SaveData>::deserialize(cursor) {
            Ok(v) => v,
            Err(e) => return Err(e),
        };
        let ghost r6 = then_extent::<i32>(input, r5);
        assert(r6 == Ok::<nat, SaveError>((cursor.position() - start) as nat));
        let evolved_choice_5 = match <i32 as SaveData>::deserialize(cursor) {
            Ok(v) => v,
            Err(e) => return Err(e),
        };
        let ghost r7 = then_extent::<i32>(input, r6);
        assert(r7 == Ok::<nat, SaveError>((cursor.position() - start) as nat));
        let power_class_name = match <ImguiString as SaveData>::deserialize(cursor) {
            Ok(v) => v,
            Err(e) => return Err(e),
        };
        let ghost r8 = then_extent::<ImguiString>(input, r7);
        assert(r8 == Ok::<nat, SaveError>((cursor.position() - start) as nat));
        let wheel_display_index = match <i32 as SaveData>::deserialize(cursor) {
            Ok(v) => v,
            Err(e) => return Err(e),
        };
        let ghost r9 = then_extent::<i32>(input, r8);
        assert(r9 == Ok::<nat, SaveError>((cursor.position() - start) as nat));
        Ok(Power { name, current_rank, evolved_choice_0, evolved_choice_1, evolved_choice_2, evolved_choice_3, evolved_choice_4, evolved_choice_5, power_class_name, wheel_display_index })
    }
}

/// How a value of type `Power` is laid out in a save file: the bytes its reader takes
/// and the value they encode.
pub proof fn lemma_power_layout(input: Seq<u8>, value: Power)
    ensures
        <Power as SaveData>::spec_extent(input) == ({
            let r0 = <ImguiString as SaveData>::spec_extent(input);
            let r1 = then_extent::<Float32>(input, r0);
            let r2 = then_extent::<i32>(input, r1);
            let r3 = then_extent::<i32>(input, r2);
            let r4 = then_extent::<i32>(input, r3);
            let r5 = then_extent::<i32>(input, r4);
            let r6 = then_extent::<i32>(input, r5);
            let r7 = then_extent::<i32>(input, r6);
            let r8 = then_extent::<ImguiString>(input, r7);
            let r9 = then_extent::<i32>(input, r8);
            r9
        }),
        <Power as SaveData>::spec_encodes(input, value) == ({
            let r0 = <ImguiString as SaveData>::spec_extent(input);
            let r1 = then_extent::<Float32>(input, r0);
            let r2 = then_extent::<i32>(input, r1);
            let r3 = then_extent::<i32>(input, r2);
            let r4 = then_extent::<i32>(input, r3);
            let r5 = then_extent::<i32>(input, r4);
            let r6 = then_extent::<i32>(input, r5);
            let r7 = then_extent::<i32>(input, r6);
            let r8 = then_extent::<ImguiString>(input, r7);
            &&& <ImguiString as SaveData>::spec_encodes(input, value.name)
            &&& <Float32 as SaveData>::spec_encodes(input.skip(r0->Ok_0 as int), value.current_rank)
            &&& <i32 as SaveData>::spec_encodes(input.skip(r1->Ok_0 as int), value.evolved_choice_0)
            &&& <i32 as SaveData>::spec_encodes(input.skip(r2->Ok_0 as int), value.evolved_choice_1)
            &&& <i32 as SaveData>::spec_encodes(input.skip(r3->Ok_0 as int), value.evolved_choice_2)
            &&& <i32 as SaveData>::spec_encodes(input.skip(r4->Ok_0 as int), value.evolved_choice_3)
            &&& <i32 as SaveData>::spec_encodes(input.skip(r5->Ok_0 as int), value.evolved_choice_4)
            &&& <i32 as SaveData>::spec_encodes(input.skip(r6->Ok_0 as int), value.evolved_choice_5)
            &&& <ImguiString as SaveData>::spec_encodes(input.skip(r7->Ok_0 as int), value.power_class_name)
            &&& <i32 as SaveData>::spec_encodes(input.skip(r8->Ok_0 as int), value.wheel_display_index)
        }),
{
}


/// A weapon a character carries.
#[derive(Debug)]
pub struct Weapon {
    pub class_name: ImguiString,
    pub ammo_used_count: i32,
    pub ammo_total: i32,
    pub current_weapon: bool,
    pub was_last_weapon: bool,
    pub ammo_power_name: ImguiString,
    pub ammo_power_source_tag: ImguiString,
}

impl SaveData for Weapon {
    closed spec fn spec_extent(input: Seq<u8>) -> Result<nat, SaveError> {
        let r0 = <ImguiString as SaveData>::spec_extent(input);
        let r1 = then_extent::<i32>(input, r0);
        let r2 = then_extent::<i32>(input, r1);
        let r3 = then_extent::<bool>(input, r2);
        let r4 = then_extent::<bool>(input, r3);
        let r5 = then_extent::<ImguiString>(input, r4);
        let r6 = then_extent::<ImguiString>(input, r5);
        r6
    }

    closed spec fn spec_encodes(input: Seq<u8>, value: Weapon) -> bool {
        let r0 = <ImguiString as SaveData>::spec_extent(input);
        let r1 = then_extent::<i32>(input, r0);
        let r2 = then_extent::<i32>(input, r1);
        let r3 = then_extent::<bool>(input, r2);
        let r4 = then_extent::<bool>(input, r3);
        let r5 = then_extent::<ImguiString>(input, r4);
        &&& <ImguiString as SaveData>::spec_encodes(input, value.class_name)
        &&& <i32 as SaveData>::spec_encodes(input.skip(r0->Ok_0 as int), value.ammo_used_count)
        &&& <i32 as SaveData>::spec_encodes(input.skip(r1->Ok_0 as int), value.ammo_total)
        &&& <bool as SaveData>::spec_encodes(input.skip(r2->Ok_0 as int), value.current_weapon)
        &&& <bool as SaveData>::spec_encodes(input.skip(r3->Ok_0 as int), value.was_last_weapon)
        &&& <ImguiString as SaveData>::spec_encodes(input.skip(r4->Ok_0 as int), value.ammo_power_name)
        &&& <ImguiString as SaveData>::spec_encodes(input.skip(r5->Ok_0 as int), value.ammo_power_source_tag)
    }

    #[verifier::rlimit(70)]
    #[verifier::spinoff_prover]
    fn deserialize(cursor: &mut SaveCursor) -> (res: Result<Weapon, SaveError>) {
        let ghost input = cursor.remaining();
        let ghost start = cursor.position();
        let class_name = match <ImguiString as SaveData>::deserialize(cursor) {
            Ok(v) => v,
            Err(e) => return Err(e),
        };
        let ghost r0 = <ImguiString as SaveData>::spec_extent(input);
        assert(r0 == Ok::<nat, SaveError>((cursor.position() - start) as nat));
        let ammo_used_count = match <i32 as SaveData>::deserialize(cursor) {
            Ok(v) => v,
            Err(e) => return Err(e),
        };
        let ghost r1 = then_extent::<i32>(input, r0);
        assert(r1 == Ok::<nat, SaveError>((cursor.position() - start) as nat));
        let ammo_total = match <i32 as SaveData>::deserialize(cursor) {
            Ok(v) => v,
            Err(e) => return Err(e),
        };
        let ghost r2 = then_extent::<i32>(input, r1);
        assert(r2 == Ok::<nat, SaveError>((cursor.position() - start) as nat));
        let current_weapon = match <bool as SaveData>::deserialize(cursor) {
            Ok(v) => v,
            Err(e) => return Err(e),
        };
        let ghost r3 = then_extent::<bool>(input, r2);
        assert(r3 == Ok::<nat, SaveError>((cursor.position() - start) as nat));
        let was_last_weapon = match <bool as SaveData>::deserialize(cursor) {
            Ok(v) => v,
            Err(e) => return Err(e),
        };
        let ghost r4 = then_extent::<bool>(input, r3);
        assert(r4 == Ok::<nat, SaveError>((cursor.position() - start) as nat));
        let ammo_power_name = match <ImguiString as SaveData>::deserialize(cursor) {
            Ok(v) => v,
            Err(e) => return Err(e),
        };
        let ghost r5 = then_extent::<ImguiString>(input, r4);
        assert(r5 == Ok::<nat, SaveError>((cursor.position() - start) as nat));
        let ammo_power_source_tag = match <ImguiString as SaveData>::deserialize(cursor) {
            Ok(v) => v,
            Err(e) => return Err(e),
        };
        let ghost r6 = then_extent::<ImguiString>(input, r5);
        assert(r6 == Ok::<nat, SaveError>((cursor.position() - start) as nat));
        Ok(Weapon { class_name, ammo_used_count, ammo_total, current_weapon, was_last_weapon, ammo_power_name, ammo_power_source_tag })
    }
}

/// How a value of type `Weapon` is laid out in a save file: the bytes its reader takes
/// and the value they encode.
pub proof fn lemma_weapon_layout(input: Seq<u8>, value: Weapon)
    ensures
        <Weapon as SaveData>::spec_extent(input) == ({
            let r0 = <ImguiString as SaveData>::spec_extent(input);
            let r1 = then_extent::<i32>(input, r0);
            let r2 = then_extent::<i32>(input, r1);
            let r3 = then_extent::<bool>(input, r2);
            let r4 = then_extent::<bool>(input, r3);
            let r5 = then_extent::<ImguiString>(input, r4);
            let r6 = then_extent::<ImguiString>(input, r5);
            r6
        }),
        <Weapon as SaveData>::spec_encodes(input, value) == ({
            let r0 = <ImguiString as SaveData>::spec_extent(input);
            let r1 = then_extent::<i32>(input, r0);
            let r2 = then_extent::<i32>(input, r1);
            let r3 = then_extent::<bool>(input, r2);
            let r4 = then_extent::<bool>(input, r3);
            let r5 = then_extent::<ImguiString>(input, r4);
            &&& <ImguiString as SaveData>::spec_encodes(input, value.class_name)
            &&& <i32 as SaveData>::spec_encodes(input.skip(r0->Ok_0 as int), value.ammo_used_count)
            &&& <i32 as SaveData>::spec_encodes(input.skip(r1->Ok_0 as int), value.ammo_total)
            &&& <bool as SaveData>::spec_encodes(input.skip(r2->Ok_0 as int), value.current_weapon)
            &&& <bool as SaveData>::spec_encodes(input.skip(r3->Ok_0 as int), value.was_last_weapon)
            &&& <ImguiString as SaveData>::spec_encodes(input.skip(r4->Ok_0 as int), value.ammo_power_name)
            &&& <ImguiString as SaveData>::spec_encodes(input.skip(r5->Ok_0 as int), value.ammo_power_source_tag)
        }),
{
}


/// The mods fitted to a weapon class.
#[derive(Debug)]
pub struct WeaponMod {
    pub weapon_class_name: ImguiString,
    pub weapon_mod_class_names: Vec<ImguiString>,
}

impl SaveData for WeaponMod {
    closed spec fn spec_extent(input: Seq<u8>) -> Result<nat, SaveError> {
        let r0 = <ImguiString as SaveData>::spec_extent(input);
        let r1 = then_extent::<Vec<ImguiString>>(input, r0);
        r1
    }

    closed spec fn spec_encodes(input: Seq<u8>, value: WeaponMod) -> bool {
        let r0 = <ImguiString as SaveData>::spec_extent(input);
        &&& <ImguiString as SaveData>::spec_encodes(input, value.weapon_class_name)
        &&& <Vec<ImguiString> as SaveData>::spec_encodes(input.skip(r0->Ok_0 as int), value.weapon_mod_class_names)
    }

    fn deserialize(cursor: &mut SaveCursor) -> (res: Result<WeaponMod, SaveError>) {
        let ghost input = cursor.remaining();
        let ghost start = cursor.position();
        let weapon_class_name = match <ImguiString as SaveData>::deserialize(cursor) {
            Ok(v) => v,
            Err(e) => return Err(e),
        };
        let ghost r0 = <ImguiString as SaveData>::spec_extent(input);
        assert(r0 == Ok::<nat, SaveError>((cursor.position() - start) as nat));
        let weapon_mod_class_names = match <Vec<ImguiString> as SaveData>::deserialize(cursor) {
            Ok(v) => v,
            Err(e) => return Err(e),
        };
        let ghost r1 = then_extent::<Vec<ImguiString>>(input, r0);
        assert(r1 == Ok::<nat, SaveError>((cursor.position() - start) as nat));
        Ok(WeaponMod { weapon_class_name, weapon_mod_class_names })
    }
}

/// How a value of type `WeaponMod` is laid out in a save file: the bytes its reader takes
/// and the value they encode.
pub proof fn lemma_weapon_mod_layout(input: Seq<u8>, value: WeaponMod)
    ensures
        <WeaponMod as SaveData>::spec_extent(input) == ({
            let r0 = <ImguiString as SaveData>::spec_extent(input);
            let r1 = then_extent::<Vec<ImguiString>>(input, r0);
            r1
        }),
        <WeaponMod as SaveData>::spec_encodes(input, value) == ({
            let r0 = <ImguiString as SaveData>::spec_extent(input);
            &&& <ImguiString as SaveData>::spec_encodes(input, value.weapon_class_name)
            &&& <Vec<ImguiString> as SaveData>::spec_encodes(input.skip(r0->Ok_0 as int), value.weapon_mod_class_names)
        }),
{
}


/// The weapon class chosen for each slot.
#[derive(Debug)]
pub struct WeaponLoadout {
    pub assault_rifle: ImguiString,
    pub shotgun: ImguiString,
    pub sniper_rifle: ImguiString,
    pub submachine_gun: ImguiString,
    pub pistol: ImguiString,
    pub heavy_weapon: ImguiString,
}

impl SaveData for WeaponLoadout {
    closed spec fn spec_extent(input: Seq<u8>) -> Result<nat, SaveError> {
        let r0 = <ImguiString as SaveData>::spec_extent(input);
        let r1 = then_extent::<ImguiString>(input, r0);
        let r2 = then_extent::<ImguiString>(input, r1);
        let r3 = then_extent::<ImguiString>(input, r2);
        let r4 = then_extent::<ImguiString>(input, r3);
        let r5 = then_extent::<ImguiString>(input, r4);
        r5
    }

    closed spec fn spec_encodes(input: Seq<u8>, value: WeaponLoadout) -> bool {
        let r0 = <ImguiString as SaveData>::spec_extent(input);
        let r1 = then_extent::<ImguiString>(input, r0);
        let r2 = then_extent::<ImguiString>(input, r1);
        let r3 = then_extent::<ImguiString>(input, r2);
        let r4 = then_extent::<ImguiString>(input, r3);
        &&& <ImguiString as SaveData>::spec_encodes(input, value.assault_rifle)
        &&& <ImguiString as SaveData>::spec_encodes(input.skip(r0->Ok_0 as int), value.shotgun)
        &&& <ImguiString as SaveData>::spec_encodes(input.skip(r1->Ok_0 as int), value.sniper_rifle)
        &&& <ImguiString as SaveData>::spec_encodes(input.skip(r2->Ok_0 as int), value.submachine_gun)
        &&& <ImguiString as SaveData>::spec_encodes(input.skip(r3->Ok_0 as int), value.pistol)
        &&& <ImguiString as SaveData>::spec_encodes(input.skip(r4->Ok_0 as int), value.heavy_weapon)
    }

    #[verifier::rlimit(60)]
    #[verifier::spinoff_prover]
    fn deserialize(cursor: &mut SaveCursor) -> (res: Result<WeaponLoadout, SaveError>) {
        let ghost input = cursor.remaining();
        let ghost start = cursor.position();
        let assault_rifle = match <ImguiString as SaveData>::deserialize(cursor) {
            Ok(v) => v,
            Err(e) => return Err(e),
        };
        let ghost r0 = <ImguiString as SaveData>::spec_extent(input);
        assert(r0 == Ok::<nat, SaveError>((cursor.position() - start) as nat));
        let shotgun = match <ImguiString as SaveData>::deserialize(cursor) {
            Ok(v) => v,
            Err(e) => return Err(e),
        };
        let ghost r1 = then_extent::<ImguiString>(input, r0);
        assert(r1 == Ok::<nat, SaveError>((cursor.position() - start) as nat));
        let sniper_rifle = match <ImguiString as SaveData>::deserialize(cursor) {
            Ok(v) => v,
            Err(e) => return Err(e),
        };
        let ghost r2 = then_extent::<ImguiString>(input, r1);
        assert(r2 == Ok::<nat, SaveError>((cursor.position() - start) as nat));
        let submachine_gun = match <ImguiString as SaveData>::deserialize(cursor) {
            Ok(v) => v,
            Err(e) => return Err(e),
        };
        let ghost r3 = then_extent::<ImguiString>(input, r2);
        assert(r3 == Ok::<nat, SaveError>((cursor.position() - start) as nat));
        let pistol = match <ImguiString as SaveData>::deserialize(cursor) {
            Ok(v) => v,
            Err(e) => return Err(e),
        };
        let ghost r4 = then_extent::<ImguiString>(input, r3);
        assert(r4 == Ok::<nat, SaveError>((cursor.position() - start) as nat));
        let heavy_weapon = match <ImguiString as SaveData>::deserialize(cursor) {
            Ok(v) => v,
            Err(e) => return Err(e),
        };
        let ghost r5 = then_extent::<ImguiString>(input, r4);
        assert(r5 == Ok::<nat, SaveError>((cursor.position() - start) as nat));
        Ok(WeaponLoadout { assault_rifle, shotgun, sniper_rifle, submachine_gun, pistol, heavy_weapon })
    }
}

/// How a value of type `WeaponLoadout` is laid out in a save file: the bytes its reader takes
/// and the value they encode.
pub proof fn lemma_weapon_loadout_layout(input: Seq<u8>, value: WeaponLoadout)
    ensures
        <WeaponLoadout as SaveData>::spec_extent(input) == ({
            let r0 = <ImguiString as SaveData>::spec_extent(input);
            let r1 = then_extent::<ImguiString>(input, r0);
            let r2 = then_extent::<ImguiString>(input, r1);
            let r3 = then_extent::<ImguiString>(input, r2);
            let r4 = then_extent::<ImguiString>(input, r3);
            let r5 = then_extent::<ImguiString>(input, r4);
            r5
        }),
        <WeaponLoadout as SaveData>::spec_encodes(input, value) == ({
            let r0 = <ImguiString as SaveData>::spec_extent(input);
            let r1 = then_extent::<ImguiString>(input, r0);
            let r2 = then_extent::<ImguiString>(input, r1);
            let r3 = then_extent::<ImguiString>(input, r2);
            let r4 = then_extent::<ImguiString>(input, r3);
            &&& <ImguiString as SaveData>::spec_encodes(input, value.assault_rifle)
            &&& <ImguiString as SaveData>::spec_encodes(input.skip(r0->Ok_0 as int), value.shotgun)
            &&& <ImguiString as SaveData>::spec_encodes(input.skip(r1->Ok_0 as int), value.sniper_rifle)
            &&& <ImguiString as SaveData>::spec_encodes(input.skip(r2->Ok_0 as int), value.submachine_gun)
            &&& <ImguiString as SaveData>::spec_encodes(input.skip(r3->Ok_0 as int), value.pistol)
            &&& <ImguiString as SaveData>::spec_encodes(input.skip(r4->Ok_0 as int), value.heavy_weapon)
        }),
{
}


/// A power bound to a key.
#[derive(Debug)]
pub struct Hotkey {
    pub pawn_name: ImguiString,
    pub power_name: ImguiString,
}

impl SaveData for Hotkey {
    closed spec fn spec_extent(input: Seq<u8>) -> Result<nat, SaveError> {
        let r0 = <ImguiString as SaveData>::spec_extent(input);
        let r1 = then_extent::<ImguiString>(input, r0);
        r1
    }

    closed spec fn spec_encodes(input: Seq<u8>, value: Hotkey) -> bool {
        let r0 = <ImguiString as SaveData>::spec_extent(input);
        &&& <ImguiString as SaveData>::spec_encodes(input, value.pawn_name)
        &&& <ImguiString as SaveData>::spec_encodes(input.skip(r0->Ok_0 as int), value.power_name)
    }

    fn deserialize(cursor: &mut SaveCursor) -> (res: Result<Hotkey, SaveError>) {
        let ghost input = cursor.remaining();
        let ghost start = cursor.position();
        let pawn_name = match <ImguiString as SaveData>::deserialize(cursor) {
            Ok(v) => v,
            Err(e) => return Err(e),
        };
        let ghost r0 = <ImguiString as SaveData>::spec_extent(input);
        assert(r0 == Ok::<nat, SaveError>((cursor.position() - start) as nat));
        let power_name = match <ImguiString as SaveData>::deserialize(cursor) {
            Ok(v) => v,
            Err(e) => return Err(e),
        };
        let ghost r1 = then_extent::<ImguiString>(input, r0);
        assert(r1 == Ok::<nat, SaveError>((cursor.position() - start) as nat));
        Ok(Hotkey { pawn_name, power_name })
    }
}

/// How a value of type `Hotkey` is laid out in a save file: the bytes its reader takes
/// and the value they encode.
pub proof fn lemma_hotkey_layout(input: Seq<u8>, value: Hotkey)
    ensures
        <Hotkey as SaveData>::spec_extent(input) == ({
            let r0 = <ImguiString as SaveData>::spec_extent(input);
            let r1 = then_extent::<ImguiString>(input, r0);
            r1
        }),
        <Hotkey as SaveData>::spec_encodes(input, value) == ({
            let r0 = <ImguiString as SaveData>::spec_extent(input);
            &&& <ImguiString as SaveData>::spec_encodes(input, value.pawn_name)
            &&& <ImguiString as SaveData>::spec_encodes(input.skip(r0->Ok_0 as int), value.power_name)
        }),
{
}


} // verus!
