use vstd::prelude::*;

use crate::cursor::SaveCursor;
use crate::error::SaveError;
use crate::mass_effect_3::Vector;
use crate::save_data::{enum_extent, le_u32, then_extent, Float32, ImguiString, SaveData};

verus! {

broadcast use crate::seq_lemmas::lemma_skip_skip;

/// How the player looks; the custom face is stored only when `has_head_morph` is set.
#[derive(Debug)]
pub struct Appearance {
    pub combat_appearance: PlayerAppearanceType,
    pub casual_id: i32,
    pub full_body_id: i32,
    pub torso_id: i32,
    pub shoulder_id: i32,
    pub arm_id: i32,
    pub leg_id: i32,
    pub specular_id: i32,
    pub tint1_id: i32,
    pub tint2_id: i32,
    pub tint3_id: i32,
    pub pattern_id: i32,
    pub pattern_color_id: i32,
    pub helmet_id: i32,
    pub has_head_morph: bool,
    pub head_morph: Option<HeadMorph>,
}

/// Stored field after field (read a few at a time), the face last when there is one.
impl SaveData for Appearance {
    closed spec fn spec_extent(input: Seq<u8>) -> Result<nat, SaveError> {
        let r0 = <(PlayerAppearanceType, i32, i32, i32, i32) as SaveData>::spec_extent(input);
        let r1 = then_extent::<(i32, i32, i32, i32, i32)>(input, r0);
        let r2 = then_extent::<(i32, i32, i32, i32)>(input, r1);
        let r3 = then_extent::<bool>(input, r2);
        let has_head_morph = le_u32(input.skip(r2->Ok_0 as int)) != 0;
        if has_head_morph {
            then_extent::<HeadMorph>(input, r3)
        } else {
            r3
        }
    }

    closed spec fn spec_encodes(input: Seq<u8>, value: Appearance) -> bool {
        let r0 = <(PlayerAppearanceType, i32, i32, i32, i32) as SaveData>::spec_extent(input);
        let r1 = then_extent::<(i32, i32, i32, i32, i32)>(input, r0);
        let r2 = then_extent::<(i32, i32, i32, i32)>(input, r1);
        let r3 = then_extent::<bool>(input, r2);
        &&& <(PlayerAppearanceType, i32, i32, i32, i32) as SaveData>::spec_encodes(input, (value.combat_appearance, value.casual_id, value.full_body_id, value.torso_id, value.shoulder_id))
        &&& <(i32, i32, i32, i32, i32) as SaveData>::spec_encodes(input.skip(r0->Ok_0 as int), (value.arm_id, value.leg_id, value.specular_id, value.tint1_id, value.tint2_id))
        &&& <(i32, i32, i32, i32) as SaveData>::spec_encodes(input.skip(r1->Ok_0 as int), (value.tint3_id, value.pattern_id, value.pattern_color_id, value.helmet_id))
        &&& <bool as SaveData>::spec_encodes(input.skip(r2->Ok_0 as int), value.has_head_morph)
        &&& (value.head_morph is Some <==> value.has_head_morph)
        &&& (value.head_morph matches Some(m) ==> HeadMorph::spec_encodes(
            input.skip(r3->Ok_0 as int),
            m,
        ))
    }

    #[verifier::rlimit(100)]
    #[verifier::spinoff_prover]
    fn deserialize(cursor: &mut SaveCursor) -> (res: Result<Appearance, SaveError>) {
        let ghost input = cursor.remaining();
        let ghost start = cursor.position();
        let (combat_appearance, casual_id, full_body_id, torso_id, shoulder_id) = match <(PlayerAppearanceType, i32, i32, i32, i32) as SaveData>::deserialize(cursor) {
            Ok(v) => v,
            Err(e) => return Err(e),
        };
        let ghost r0 = <(PlayerAppearanceType, i32, i32, i32, i32) as SaveData>::spec_extent(input);
        assert(r0 == Ok::<nat, SaveError>((cursor.position() - start) as nat));
        let (arm_id, leg_id, specular_id, tint1_id, tint2_id) = match <(i32, i32, i32, i32, i32) as SaveData>::deserialize(cursor) {
            Ok(v) => v,
            Err(e) => return Err(e),
        };
        let ghost r1 = then_extent::<(i32, i32, i32, i32, i32)>(input, r0);
        assert(r1 == Ok::<nat, SaveError>((cursor.position() - start) as nat));
        let (tint3_id, pattern_id, pattern_color_id, helmet_id) = match <(i32, i32, i32, i32) as SaveData>::deserialize(cursor) {
            Ok(v) => v,
            Err(e) => return Err(e),
        };
        let ghost r2 = then_extent::<(i32, i32, i32, i32)>(input, r1);
        assert(r2 == Ok::<nat, SaveError>((cursor.position() - start) as nat));
        let has_head_morph = match <bool as SaveData>::deserialize(cursor) {
            Ok(v) => v,
            Err(e) => return Err(e),
        };
        let ghost r3 = then_extent::<bool>(input, r2);
        assert(r3 == Ok::<nat, SaveError>((cursor.position() - start) as nat));
        let head_morph = if has_head_morph {
            match HeadMorph::deserialize(cursor) {
                Ok(m) => Some(m),
                Err(e) => return Err(e),
            }
        } else {
            None
        };
        Ok(Appearance { combat_appearance, casual_id, full_body_id, torso_id, shoulder_id, arm_id, leg_id, specular_id, tint1_id, tint2_id, tint3_id, pattern_id, pattern_color_id, helmet_id, has_head_morph, head_morph })
    }
}

/// How a value of type `Appearance` is laid out in a save file: the bytes its reader takes
/// and the value they encode.
pub proof fn lemma_appearance_layout(input: Seq<u8>, value: Appearance)
    ensures
        <Appearance as SaveData>::spec_extent(input) == ({
            let r0 = <(PlayerAppearanceType, i32, i32, i32, i32) as SaveData>::spec_extent(input);
            let r1 = then_extent::<(i32, i32, i32, i32, i32)>(input, r0);
            let r2 = then_extent::<(i32, i32, i32, i32)>(input, r1);
            let r3 = then_extent::<bool>(input, r2);
            let has_head_morph = le_u32(input.skip(r2->Ok_0 as int)) != 0;
            if has_head_morph {
                then_extent::<HeadMorph>(input, r3)
            } else {
                r3
            }
        }),
        <Appearance as SaveData>::spec_encodes(input, value) == ({
            let r0 = <(PlayerAppearanceType, i32, i32, i32, i32) as SaveData>::spec_extent(input);
            let r1 = then_extent::<(i32, i32, i32, i32, i32)>(input, r0);
            let r2 = then_extent::<(i32, i32, i32, i32)>(input, r1);
            let r3 = then_extent::<bool>(input, r2);
            &&& <(PlayerAppearanceType, i32, i32, i32, i32) as SaveData>::spec_encodes(input, (value.combat_appearance, value.casual_id, value.full_body_id, value.torso_id, value.shoulder_id))
            &&& <(i32, i32, i32, i32, i32) as SaveData>::spec_encodes(input.skip(r0->Ok_0 as int), (value.arm_id, value.leg_id, value.specular_id, value.tint1_id, value.tint2_id))
            &&& <(i32, i32, i32, i32) as SaveData>::spec_encodes(input.skip(r1->Ok_0 as int), (value.tint3_id, value.pattern_id, value.pattern_color_id, value.helmet_id))
            &&& <bool as SaveData>::spec_encodes(input.skip(r2->Ok_0 as int), value.has_head_morph)
            &&& (value.head_morph is Some <==> value.has_head_morph)
            &&& (value.head_morph matches Some(m) ==> HeadMorph::spec_encodes(
                input.skip(r3->Ok_0 as int),
                m,
            ))
        }),
{
}


/// Which armor the player wears in combat.
#[derive(Clone, Copy, Debug, PartialEq, Eq, Structural)]
pub enum PlayerAppearanceType {
    Parts,
    Full,
}

impl PlayerAppearanceType {
    /// The variant stored as `index`, if any.
    pub open spec fn spec_from_index(index: u8) -> Option<PlayerAppearanceType> {
        if index == 0 {
            Some(PlayerAppearanceType::Parts)
        } else if index == 1 {
            Some(PlayerAppearanceType::Full)
        } else {
            None
        }
    }

    /// The variant stored as `index`, if any.
    pub fn from_index(index: u8) -> (res: Option<PlayerAppearanceType>)
        ensures
            res == Self::spec_from_index(index),
    {
        if index == 0 {
            Some(PlayerAppearanceType::Parts)
        } else if index == 1 {
            Some(PlayerAppearanceType::Full)
        } else {
            None
        }
    }
}

/// Stored as one byte, the position of the variant.
impl SaveData for PlayerAppearanceType {
    closed spec fn spec_extent(input: Seq<u8>) -> Result<nat, SaveError> {
        enum_extent(input, PlayerAppearanceType::spec_from_index(input[0]) is Some)
    }

    closed spec fn spec_encodes(input: Seq<u8>, value: PlayerAppearanceType) -> bool {
        PlayerAppearanceType::spec_from_index(input[0]) == Some(value)
    }

    fn deserialize(cursor: &mut SaveCursor) -> (res: Result<PlayerAppearanceType, SaveError>) {
        let index = match <u8 as SaveData>::deserialize(cursor) {
            Ok(index) => index,
            Err(e) => return Err(e),
        };
        match PlayerAppearanceType::from_index(index) {
            Some(v) => Ok(v),
            None => Err(SaveError::InvalidEnumValue),
        }
    }
}

/// The variants of `PlayerAppearanceType` in the order they are declared.
pub open spec fn player_appearance_type_variants() -> Seq<PlayerAppearanceType> {
    seq![PlayerAppearanceType::Parts, PlayerAppearanceType::Full]
}

/// Law: a `PlayerAppearanceType` is stored as one byte, the position of its variant in the
/// declaration order; a byte past the last variant is refused.
pub proof fn law_player_appearance_type_byte_is_position(input: Seq<u8>, value: PlayerAppearanceType)
    requires
        input.len() >= 1,
    ensures
        PlayerAppearanceType::spec_from_index(input[0]) == if input[0] < 2 {
            Some(player_appearance_type_variants()[input[0] as int])
        } else {
            None
        },
        <PlayerAppearanceType as SaveData>::spec_extent(input) == if input[0] < 2 {
            Ok::<nat, SaveError>(1)
        } else {
            Err::<nat, SaveError>(SaveError::InvalidEnumValue)
        },
        <PlayerAppearanceType as SaveData>::spec_encodes(input, value) <==> (input[0] < 2 && player_appearance_type_variants()[input[0] as int] == value),
        forall|i: int, j: int| 0 <= i < 2 && 0 <= j < 2 && i != j ==> player_appearance_type_variants()[i] != player_appearance_type_variants()[j],
{
}

/// How a value of type `PlayerAppearanceType` is laid out in a save file: the bytes its reader takes
/// and the value they encode.
pub proof fn lemma_player_appearance_type_layout(input: Seq<u8>, value: PlayerAppearanceType)
    ensures
        <PlayerAppearanceType as SaveData>::spec_extent(input) == ({
            enum_extent(input, PlayerAppearanceType::spec_from_index(input[0]) is Some)
        }),
        <PlayerAppearanceType as SaveData>::spec_encodes(input, value) == ({
            PlayerAppearanceType::spec_from_index(input[0]) == Some(value)
        }),
{
}


/// A custom face.
#[derive(Debug)]
pub struct HeadMorph {
    pub hair_mesh: ImguiString,
    pub accessory_mesh: Vec<ImguiString>,
    pub morph_features: Vec<MorphFeature>,
    pub offset_bones: Vec<OffsetBone>,
    pub lod0_vertices: Vec<Vector>,
    pub lod1_vertices: Vec<Vector>,
    pub lod2_vertices: Vec<Vector>,
    pub lod3_vertices: Vec<Vector>,
    pub scalar_parameters: Vec<ScalarParameter>,
    pub vector_parameters: Vec<VectorParameter>,
    pub texture_parameters: Vec<TextureParameter>,
}

impl SaveData for HeadMorph {
    closed spec fn spec_extent(input: Seq<u8>) -> Result<nat, SaveError> {
        let r0 = <ImguiString as SaveData>::spec_extent(input);
        let r1 = then_extent::<Vec<ImguiString>>(input, r0);
        let r2 = then_extent::<Vec<MorphFeature>>(input, r1);
        let r3 = then_extent::<Vec<OffsetBone>>(input, r2);
        let r4 = then_extent::<Vec<Vector>>(input, r3);
        let r5 = then_extent::<Vec<Vector>>(input, r4);
        let r6 = then_extent::<Vec<Vector>>(input, r5);
        let r7 = then_extent::<Vec<Vector>>(input, r6);
        let r8 = then_extent::<Vec<ScalarParameter>>(input, r7);
        let r9 = then_extent::<Vec<VectorParameter>>(input, r8);
        let r10 = then_extent::<Vec<TextureParameter>>(input, r9);
        r10
    }

    closed spec fn spec_encodes(input: Seq<u8>, value: HeadMorph) -> bool {
        let r0 = <ImguiString as SaveData>::spec_extent(input);
        let r1 = then_extent::<Vec<ImguiString>>(input, r0);
        let r2 = then_extent::<Vec<MorphFeature>>(input, r1);
        let r3 = then_extent::<Vec<OffsetBone>>(input, r2);
        let r4 = then_extent::<Vec<Vector>>(input, r3);
        let r5 = then_extent::<Vec<Vector>>(input, r4);
        let r6 = then_extent::<Vec<Vector>>(input, r5);
        let r7 = then_extent::<Vec<Vector>>(input, r6);
        let r8 = then_extent::<Vec<ScalarParameter>>(input, r7);
        let r9 = then_extent::<Vec<VectorParameter>>(input, r8);
        &&& <ImguiString as SaveData>::spec_encodes(input, value.hair_mesh)
        &&& <Vec<ImguiString> as SaveData>::spec_encodes(input.skip(r0->Ok_0 as int), value.accessory_mesh)
        &&& <Vec<MorphFeature> as SaveData>::spec_encodes(input.skip(r1->Ok_0 as int), value.morph_features)
        &&& <Vec<OffsetBone> as SaveData>::spec_encodes(input.skip(r2->Ok_0 as int), value.offset_bones)
        &&& <Vec<Vector> as SaveData>::spec_encodes(input.skip(r3->Ok_0 as int), value.lod0_vertices)
        &&& <Vec<Vector> as SaveData>::spec_encodes(input.skip(r4->Ok_0 as int), value.lod1_vertices)
        &&& <Vec<Vector> as SaveData>::spec_encodes(input.skip(r5->Ok_0 as int), value.lod2_vertices)
        &&& <Vec<Vector> as SaveData>::spec_encodes(input.skip(r6->Ok_0 as int), value.lod3_vertices)
        &&& <Vec<ScalarParameter> as SaveData>::spec_encodes(input.skip(r7->Ok_0 as int), value.scalar_parameters)
        &&& <Vec<VectorParameter> as SaveData>::spec_encodes(input.skip(r8->Ok_0 as int), value.vector_parameters)
        &&& <Vec<TextureParameter> as SaveData>::spec_encodes(input.skip(r9->Ok_0 as int), value.texture_parameters)
    }

    #[verifier::rlimit(100)]
    #[verifier::spinoff_prover]
    fn deserialize(cursor: &mut SaveCursor) -> (res: Result<HeadMorph, SaveError>) {
        let ghost input = cursor.remaining();
        let ghost start = cursor.position();
        let hair_mesh = match <ImguiString as SaveData>::deserialize(cursor) {
            Ok(v) => v,
            Err(e) => return Err(e),
        };
        let ghost r0 = <ImguiString as SaveData>::spec_extent(input);
        assert(r0 == Ok::<nat, SaveError>((cursor.position() - start) as nat));
        let accessory_mesh = match <Vec<ImguiString> as SaveData>::deserialize(cursor) {
            Ok(v) => v,
            Err(e) => return Err(e),
        };
        let ghost r1 = then_extent::<Vec<ImguiString>>(input, r0);
        assert(r1 == Ok::<nat, SaveError>((cursor.position() - start) as nat));
        let morph_features = match <Vec<MorphFeature> as SaveData>::deserialize(cursor) {
            Ok(v) => v,
            Err(e) => return Err(e),
        };
        let ghost r2 = then_extent::<Vec<MorphFeature>>(input, r1);
        assert(r2 == Ok::<nat, SaveError>((cursor.position() - start) as nat));
        let offset_bones = match <Vec<OffsetBone> as SaveData>::deserialize(cursor) {
            Ok(v) => v,
            Err(e) => return Err(e),
        };
        let ghost r3 = then_extent::<Vec<OffsetBone>>(input, r2);
        assert(r3 == Ok::<nat, SaveError>((cursor.position() - start) as nat));
        let lod0_vertices = match <Vec<Vector> as SaveData>::deserialize(cursor) {
            Ok(v) => v,
            Err(e) => return Err(e),
        };
        let ghost r4 = then_extent::<Vec<Vector>>(input, r3);
        assert(r4 == Ok::<nat, SaveError>((cursor.position() - start) as nat));
        let lod1_vertices = match <Vec<Vector> as SaveData>::deserialize(cursor) {
            Ok(v) => v,
            Err(e) => return Err(e),
        };
        let ghost r5 = then_extent::<Vec<Vector>>(input, r4);
        assert(r5 == Ok::<nat, SaveError>((cursor.position() - start) as nat));
        let lod2_vertices = match <Vec<Vector> as SaveData>::deserialize(cursor) {
            Ok(v) => v,
            Err(e) => return Err(e),
        };
        let ghost r6 = then_extent::<Vec<Vector>>(input, r5);
        assert(r6 == Ok::<nat, SaveError>((cursor.position() - start) as nat));
        let lod3_vertices = match <Vec<Vector> as SaveData>::deserialize(cursor) {
            Ok(v) => v,
            Err(e) => return Err(e),
        };
        let ghost r7 = then_extent::<Vec<Vector>>(input, r6);
        assert(r7 == Ok::<nat, SaveError>((cursor.position() - start) as nat));
        let scalar_parameters = match <Vec<ScalarParameter> as SaveData>::deserialize(cursor) {
            Ok(v) => v,
            Err(e) => return Err(e),
        };
        let ghost r8 = then_extent::<Vec<ScalarParameter>>(input, r7);
        assert(r8 == Ok::<nat, SaveError>((cursor.position() - start) as nat));
        let vector_parameters = match <Vec<VectorParameter> as SaveData>::deserialize(cursor) {
            Ok(v) => v,
            Err(e) => return Err(e),
        };
        let ghost r9 = then_extent::<Vec<VectorParameter>>(input, r8);
        assert(r9 == Ok::<nat, SaveError>((cursor.position() - start) as nat));
        let texture_parameters = match <Vec<TextureParameter> as SaveData>::deserialize(cursor) {
            Ok(v) => v,
            Err(e) => return Err(e),
        };
        let ghost r10 = then_extent::<Vec<TextureParameter>>(input, r9);
        assert(r10 == Ok::<nat, SaveError>((cursor.position() - start) as nat));
        Ok(HeadMorph { hair_mesh, accessory_mesh, morph_features, offset_bones, lod0_vertices, lod1_vertices, lod2_vertices, lod3_vertices, scalar_parameters, vector_parameters, texture_parameters })
    }
}

/// How a value of type `HeadMorph` is laid out in a save file: the bytes its reader takes
/// and the value they encode.
pub proof fn lemma_head_morph_layout(input: Seq<u8>, value: HeadMorph)
    ensures
        <HeadMorph as SaveData>::spec_extent(input) == ({
            let r0 = <ImguiString as SaveData>::spec_extent(input);
            let r1 = then_extent::<Vec<ImguiString>>(input, r0);
            let r2 = then_extent::<Vec<MorphFeature>>(input, r1);
            let r3 = then_extent::<Vec<OffsetBone>>(input, r2);
            let r4 = then_extent::<Vec<Vector>>(input, r3);
            let r5 = then_extent::<Vec<Vector>>(input, r4);
            let r6 = then_extent::<Vec<Vector>>(input, r5);
            let r7 = then_extent::<Vec<Vector>>(input, r6);
            let r8 = then_extent::<Vec<ScalarParameter>>(input, r7);
            let r9 = then_extent::<Vec<VectorParameter>>(input, r8);
            let r10 = then_extent::<Vec<TextureParameter>>(input, r9);
            r10
        }),
        <HeadMorph as SaveData>::spec_encodes(input, value) == ({
            let r0 = <ImguiString as SaveData>::spec_extent(input);
            let r1 = then_extent::<Vec<ImguiString>>(input, r0);
            let r2 = then_extent::<Vec<MorphFeature>>(input, r1);
            let r3 = then_extent::<Vec<OffsetBone>>(input, r2);
            let r4 = then_extent::<Vec<Vector>>(input, r3);
            let r5 = then_extent::<Vec<Vector>>(input, r4);
            let r6 = then_extent::<Vec<Vector>>(input, r5);
            let r7 = then_extent::<Vec<Vector>>(input, r6);
            let r8 = then_extent::<Vec<ScalarParameter>>(input, r7);
            let r9 = then_extent::<Vec<VectorParameter>>(input, r8);
            &&& <ImguiString as SaveData>::spec_encodes(input, value.hair_mesh)
            &&& <Vec<ImguiString> as SaveData>::spec_encodes(input.skip(r0->Ok_0 as int), value.accessory_mesh)
            &&& <Vec<MorphFeature> as SaveData>::spec_encodes(input.skip(r1->Ok_0 as int), value.morph_features)
            &&& <Vec<OffsetBone> as SaveData>::spec_encodes(input.skip(r2->Ok_0 as int), value.offset_bones)
            &&& <Vec<Vector> as SaveData>::spec_encodes(input.skip(r3->Ok_0 as int), value.lod0_vertices)
            &&& <Vec<Vector> as SaveData>::spec_encodes(input.skip(r4->Ok_0 as int), value.lod1_vertices)
            &&& <Vec<Vector> as SaveData>::spec_encodes(input.skip(r5->Ok_0 as int), value.lod2_vertices)
            &&& <Vec<Vector> as SaveData>::spec_encodes(input.skip(r6->Ok_0 as int), value.lod3_vertices)
            &&& <Vec<ScalarParameter> as SaveData>::spec_encodes(input.skip(r7->Ok_0 as int), value.scalar_parameters)
            &&& <Vec<VectorParameter> as SaveData>::spec_encodes(input.skip(r8->Ok_0 as int), value.vector_parameters)
            &&& <Vec<TextureParameter> as SaveData>::spec_encodes(input.skip(r9->Ok_0 as int), value.texture_parameters)
        }),
{
}


/// A morph target and its weight.
#[derive(Debug)]
pub struct MorphFeature {
    pub feature: ImguiString,
    pub offset: Float32,
}

impl SaveData for MorphFeature {
    closed spec fn spec_extent(input: Seq<u8>) -> Result<nat, SaveError> {
        let r0 = <ImguiString as SaveData>::spec_extent(input);
        let r1 = then_extent::<Float32>(input, r0);
        r1
    }

    closed spec fn spec_encodes(input: Seq<u8>, value: MorphFeature) -> bool {
        let r0 = <ImguiString as SaveData>::spec_extent(input);
        &&& <ImguiString as SaveData>::spec_encodes(input, value.feature)
        &&& <Float32 as SaveData>::spec_encodes(input.skip(r0->Ok_0 as int), value.offset)
    }

    fn deserialize(cursor: &mut SaveCursor) -> (res: Result<MorphFeature, SaveError>) {
        let ghost input = cursor.remaining();
        let ghost start = cursor.position();
        let feature = match <ImguiString as SaveData>::deserialize(cursor) {
            Ok(v) => v,
            Err(e) => return Err(e),
        };
        let ghost r0 = <ImguiString as SaveData>::spec_extent(input);
        assert(r0 == Ok::<nat, SaveError>((cursor.position() - start) as nat));
        let offset = match <Float32 as SaveData>::deserialize(cursor) {
            Ok(v) => v,
            Err(e) => return Err(e),
        };
        let ghost r1 = then_extent::<Float32>(input, r0);
        assert(r1 == Ok::<nat, SaveError>((cursor.position() - start) as nat));
        Ok(MorphFeature { feature, offset })
    }
}

/// How a value of type `MorphFeature` is laid out in a save file: the bytes its reader takes
/// and the value they encode.
pub proof fn lemma_morph_feature_layout(input: Seq<u8>, value: MorphFeature)
    ensures
        <MorphFeature as SaveData>::spec_extent(input) == ({
            let r0 = <ImguiString as SaveData>::spec_extent(input);
            let r1 = then_extent::<Float32>(input, r0);
            r1
        }),
        <MorphFeature as SaveData>::spec_encodes(input, value) == ({
            let r0 = <ImguiString as SaveData>::spec_extent(input);
            &&& <ImguiString as SaveData>::spec_encodes(input, value.feature)
            &&& <Float32 as SaveData>::spec_encodes(input.skip(r0->Ok_0 as int), value.offset)
        }),
{
}


/// A bone and its offset.
#[derive(Debug)]
pub struct OffsetBone {
    pub name: ImguiString,
    pub offset: Vector,
}

impl SaveData for OffsetBone {
    closed spec fn spec_extent(input: Seq<u8>) -> Result<nat, SaveError> {
        let r0 = <ImguiString as SaveData>::spec_extent(input);
        let r1 = then_extent::<Vector>(input, r0);
        r1
    }

    closed spec fn spec_encodes(input: Seq<u8>, value: OffsetBone) -> bool {
        let r0 = <ImguiString as SaveData>::spec_extent(input);
        &&& <ImguiString as SaveData>::spec_encodes(input, value.name)
        &&& <Vector as SaveData>::spec_encodes(input.skip(r0->Ok_0 as int), value.offset)
    }

    fn deserialize(cursor: &mut SaveCursor) -> (res: Result<OffsetBone, SaveError>) {
        let ghost input = cursor.remaining();
        let ghost start = cursor.position();
        let name = match <ImguiString as SaveData>::deserialize(cursor) {
            Ok(v) => v,
            Err(e) => return Err(e),
        };
        let ghost r0 = <ImguiString as SaveData>::spec_extent(input);
        assert(r0 == Ok::<nat, SaveError>((cursor.position() - start) as nat));
        let offset = match <Vector as SaveData>::deserialize(cursor) {
            Ok(v) => v,
            Err(e) => return Err(e),
        };
        let ghost r1 = then_extent::<Vector>(input, r0);
        assert(r1 == Ok::<nat, SaveError>((cursor.position() - start) as nat));
        Ok(OffsetBone { name, offset })
    }
}

/// How a value of type `OffsetBone` is laid out in a save file: the bytes its reader takes
/// and the value they encode.
pub proof fn lemma_offset_bone_layout(input: Seq<u8>, value: OffsetBone)
    ensures
        <OffsetBone as SaveData>::spec_extent(input) == ({
            let r0 = <ImguiString as SaveData>::spec_extent(input);
            let r1 = then_extent::<Vector>(input, r0);
            r1
        }),
        <OffsetBone as SaveData>::spec_encodes(input, value) == ({
            let r0 = <ImguiString as SaveData>::spec_extent(input);
            &&& <ImguiString as SaveData>::spec_encodes(input, value.name)
            &&& <Vector as SaveData>::spec_encodes(input.skip(r0->Ok_0 as int), value.offset)
        }),
{
}


/// A named number of the face material.
#[derive(Debug)]
pub struct ScalarParameter {
    pub name: ImguiString,
    pub value: Float32,
}

impl SaveData for ScalarParameter {
    closed spec fn spec_extent(input: Seq<u8>) -> Result<nat, SaveError> {
        let r0 = <ImguiString as SaveData>::spec_extent(input);
        let r1 = then_extent::<Float32>(input, r0);
        r1
    }

    closed spec fn spec_encodes(input: Seq<u8>, value: ScalarParameter) -> bool {
        let r0 = <ImguiString as SaveData>::spec_extent(input);
        &&& <ImguiString as SaveData>::spec_encodes(input, value.name)
        &&& <Float32 as SaveData>::spec_encodes(input.skip(r0->Ok_0 as int), value.value)
    }

    fn deserialize(cursor: &mut SaveCursor) -> (res: Result<ScalarParameter, SaveError>) {
        let ghost input = cursor.remaining();
        let ghost start = cursor.position();
        let name = match <ImguiString as SaveData>::deserialize(cursor) {
            Ok(v) => v,
            Err(e) => return Err(e),
        };
        let ghost r0 = <ImguiString as SaveData>::spec_extent(input);
        assert(r0 == Ok::<nat, SaveError>((cursor.position() - start) as nat));
        let value = match <Float32 as SaveData>::deserialize(cursor) {
            Ok(v) => v,
            Err(e) => return Err(e),
        };
        let ghost r1 = then_extent::<Float32>(input, r0);
        assert(r1 == Ok::<nat, SaveError>((cursor.position() - start) as nat));
        Ok(ScalarParameter { name, value })
    }
}

/// How a value of type `ScalarParameter` is laid out in a save file: the bytes its reader takes
/// and the value they encode.
pub proof fn lemma_scalar_parameter_layout(input: Seq<u8>, value: ScalarParameter)
    ensures
        <ScalarParameter as SaveData>::spec_extent(input) == ({
            let r0 = <ImguiString as SaveData>::spec_extent(input);
            let r1 = then_extent::<Float32>(input, r0);
            r1
        }),
        <ScalarParameter as SaveData>::spec_encodes(input, value) == ({
            let r0 = <ImguiString as SaveData>::spec_extent(input);
            &&& <ImguiString as SaveData>::spec_encodes(input, value.name)
            &&& <Float32 as SaveData>::spec_encodes(input.skip(r0->Ok_0 as int), value.value)
        }),
{
}


/// A named color of the face material.
#[derive(Debug)]
pub struct VectorParameter {
    pub name: ImguiString,
    pub value: LinearColor,
}

impl SaveData for VectorParameter {
    closed spec fn spec_extent(input: Seq<u8>) -> Result<nat, SaveError> {
        let r0 = <ImguiString as SaveData>::spec_extent(input);
        let r1 = then_extent::<LinearColor>(input, r0);
        r1
    }

    closed spec fn spec_encodes(input: Seq<u8>, value: VectorParameter) -> bool {
        let r0 = <ImguiString as SaveData>::spec_extent(input);
        &&& <ImguiString as SaveData>::spec_encodes(input, value.name)
        &&& <LinearColor as SaveData>::spec_encodes(input.skip(r0->Ok_0 as int), value.value)
    }

    fn deserialize(cursor: &mut SaveCursor) -> (res: Result<VectorParameter, SaveError>) {
        let ghost input = cursor.remaining();
        let ghost start = cursor.position();
        let name = match <ImguiString as SaveData>::deserialize(cursor) {
            Ok(v) => v,
            Err(e) => return Err(e),
        };
        let ghost r0 = <ImguiString as SaveData>::spec_extent(input);
        assert(r0 == Ok::<nat, SaveError>((cursor.position() - start) as nat));
        let value = match <LinearColor as SaveData>::deserialize(cursor) {
            Ok(v) => v,
            Err(e) => return Err(e),
        };
        let ghost r1 = then_extent::<LinearColor>(input, r0);
        assert(r1 == Ok::<nat, SaveError>((cursor.position() - start) as nat));
        Ok(VectorParameter { name, value })
    }
}

/// How a value of type `VectorParameter` is laid out in a save file: the bytes its reader takes
/// and the value they encode.
pub proof fn lemma_vector_parameter_layout(input: Seq<u8>, value: VectorParameter)
    ensures
        <VectorParameter as SaveData>::spec_extent(input) == ({
            let r0 = <ImguiString as SaveData>::spec_extent(input);
            let r1 = then_extent::<LinearColor>(input, r0);
            r1
        }),
        <VectorParameter as SaveData>::spec_encodes(input, value) == ({
            let r0 = <ImguiString as SaveData>::spec_extent(input);
            &&& <ImguiString as SaveData>::spec_encodes(input, value.name)
            &&& <LinearColor as SaveData>::spec_encodes(input.skip(r0->Ok_0 as int), value.value)
        }),
{
}


/// A color with alpha, as four floats.
#[derive(Debug)]
pub struct LinearColor {
    pub r: Float32,
    pub g: Float32,
    pub b: Float32,
    pub a: Float32,
}

impl SaveData for LinearColor {
    closed spec fn spec_extent(input: Seq<u8>) -> Result<nat, SaveError> {
        let r0 = <Float32 as SaveData>::spec_extent(input);
        let r1 = then_extent::<Float32>(input, r0);
        let r2 = then_extent::<Float32>(input, r1);
        let r3 = then_extent::<Float32>(input, r2);
        r3
    }

    closed spec fn spec_encodes(input: Seq<u8>, value: LinearColor) -> bool {
        let r0 = <Float32 as SaveData>::spec_extent(input);
        let r1 = then_extent::<Float32>(input, r0);
        let r2 = then_extent::<Float32>(input, r1);
        &&& <Float32 as SaveData>::spec_encodes(input, value.r)
        &&& <Float32 as SaveData>::spec_encodes(input.skip(r0->Ok_0 as int), value.g)
        &&& <Float32 as SaveData>::spec_encodes(input.skip(r1->Ok_0 as int), value.b)
        &&& <Float32 as SaveData>::spec_encodes(input.skip(r2->Ok_0 as int), value.a)
    }

    fn deserialize(cursor: &mut SaveCursor) -> (res: Result<LinearColor, SaveError>) {
        let ghost input = cursor.remaining();
        let ghost start = cursor.position();
        let r = match <Float32 as SaveData>::deserialize(cursor) {
            Ok(v) => v,
            Err(e) => return Err(e),
        };
        let ghost r0 = <Float32 as SaveData>::spec_extent(input);
        assert(r0 == Ok::<nat, SaveError>((cursor.position() - start) as nat));
        let g = match <Float32 as SaveData>::deserialize(cursor) {
            Ok(v) => v,
            Err(e) => return Err(e),
        };
        let ghost r1 = then_extent::<Float32>(input, r0);
        assert(r1 == Ok::<nat, SaveError>((cursor.position() - start) as nat));
        let b = match <Float32 as SaveData>::deserialize(cursor) {
            Ok(v) => v,
            Err(e) => return Err(e),
        };
        let ghost r2 = then_extent::<Float32>(input, r1);
        assert(r2 == Ok::<nat, SaveError>((cursor.position() - start) as nat));
        let a = match <Float32 as SaveData>::deserialize(cursor) {
            Ok(v) => v,
            Err(e) => return Err(e),
        };
        let ghost r3 = then_extent::<Float32>(input, r2);
        assert(r3 == Ok::<nat, SaveError>((cursor.position() - start) as nat));
        Ok(LinearColor { r, g, b, a })
    }
}

/// How a value of type `LinearColor` is laid out in a save file: the bytes its reader takes
/// and the value they encode.
pub proof fn lemma_linear_color_layout(input: Seq<u8>, value: LinearColor)
    ensures
        <LinearColor as SaveData>::spec_extent(input) == ({
            let r0 = <Float32 as SaveData>::spec_extent(input);
            let r1 = then_extent::<Float32>(input, r0);
            let r2 = then_extent::<Float32>(input, r1);
            let r3 = then_extent::<Float32>(input, r2);
            r3
        }),
        <LinearColor as SaveData>::spec_encodes(input, value) == ({
            let r0 = <Float32 as SaveData>::spec_extent(input);
            let r1 = then_extent::<Float32>(input, r0);
            let r2 = then_extent::<Float32>(input, r1);
            &&& <Float32 as SaveData>::spec_encodes(input, value.r)
            &&& <Float32 as SaveData>::spec_encodes(input.skip(r0->Ok_0 as int), value.g)
            &&& <Float32 as SaveData>::spec_encodes(input.skip(r1->Ok_0 as int), value.b)
            &&& <Float32 as SaveData>::spec_encodes(input.skip(r2->Ok_0 as int), value.a)
        }),
{
}


/// A named texture of the face material.
#[derive(Debug)]
pub struct TextureParameter {
    pub name: ImguiString,
    pub value: ImguiString,
}

impl SaveData for TextureParameter {
    closed spec fn spec_extent(input: Seq<u8>) -> Result<nat, SaveError> {
        let r0 = <ImguiString as SaveData>::spec_extent(input);
        let r1 = then_extent::<ImguiString>(input, r0);
        r1
    }

    closed spec fn spec_encodes(input: Seq<u8>, value: TextureParameter) -> bool {
        let r0 = <ImguiString as SaveData>::spec_extent(input);
        &&& <ImguiString as SaveData>::spec_encodes(input, value.name)
        &&& <ImguiString as SaveData>::spec_encodes(input.skip(r0->Ok_0 as int), value.value)
    }

    fn deserialize(cursor: &mut SaveCursor) -> (res: Result<TextureParameter, SaveError>) {
        let ghost input = cursor.remaining();
        let ghost start = cursor.position();
        let name = match <ImguiString as SaveData>::deserialize(cursor) {
            Ok(v) => v,
            Err(e) => return Err(e),
        };
        let ghost r0 = <ImguiString as SaveData>::spec_extent(input);
        assert(r0 == Ok::<nat, SaveError>((cursor.position() - start) as nat));
        let value = match <ImguiString as SaveData>::deserialize(cursor) {
            Ok(v) => v,
            Err(e) => return Err(e),
        };
        let ghost r1 = then_extent::<ImguiString>(input, r0);
        assert(r1 == Ok::<nat, SaveError>((cursor.position() - start) as nat));
        Ok(TextureParameter { name, value })
    }
}

/// How a value of type `TextureParameter` is laid out in a save file: the bytes its reader takes
/// and the value they encode.
pub proof fn lemma_texture_parameter_layout(input: Seq<u8>, value: TextureParameter)
    ensures
        <TextureParameter as SaveData>::spec_extent(input) == ({
            let r0 = <ImguiString as SaveData>::spec_extent(input);
            let r1 = then_extent::<ImguiString>(input, r0);
            r1
        }),
        <TextureParameter as SaveData>::spec_encodes(input, value) == ({
            let r0 = <ImguiString as SaveData>::spec_extent(input);
            &&& <ImguiString as SaveData>::spec_encodes(input, value.name)
            &&& <ImguiString as SaveData>::spec_encodes(input.skip(r0->Ok_0 as int), value.value)
        }),
{
}


} // verus!
