use indexmap::IndexMap;
use vstd::prelude::*;

use crate::cursor::SaveCursor;
use crate::error::SaveError;
use crate::save_data::{law_i32_read_back, law_u32_read_back, u32_le_bytes, write_i32_le, write_u32_le, enum_extent, fixed_extent, le_i32, le_u32, then_extent, Dummy, Float32, ImguiString, SaveData};

pub mod appearance;
pub mod galaxy_map;
pub mod guid;
pub mod player;
pub mod squad;
pub mod uninteresting;
pub mod variables;

use galaxy_map::GalaxyMap;
use player::{Hotkey, Player, Power, Weapon, WeaponLoadout, WeaponMod};
use squad::Henchman;
use variables::{Me1PlotTable, PlotTable};

verus! {

broadcast use crate::seq_lemmas::lemma_skip_skip;

/// The only save format version this library reads.
pub const SUPPORTED_VERSION: i32 = 59;

/// The save format version; reading fails on any version but the supported one.
#[derive(Clone, Copy, Debug, PartialEq, Eq, Structural)]
pub struct Version(pub i32);

impl SaveData for Version {
    open spec fn spec_extent(input: Seq<u8>) -> Result<nat, SaveError> {
        if input.len() < 4 {
            Err(SaveError::UnexpectedEndOfFile)
        } else if le_i32(input) != SUPPORTED_VERSION {
            Err(SaveError::WrongVersion)
        } else {
            Ok(4)
        }
    }

    open spec fn spec_encodes(input: Seq<u8>, value: Version) -> bool {
        value.0 == le_i32(input)
    }

    fn deserialize(cursor: &mut SaveCursor) -> (res: Result<Version, SaveError>) {
        let version = match <i32 as SaveData>::deserialize(cursor) {
            Ok(v) => v,
            Err(e) => return Err(e),
        };
        if version != SUPPORTED_VERSION {
            return Err(SaveError::WrongVersion);
        }
        Ok(Version(version))
    }
}

impl Version {
    /// Writes the version at the end of `out`, as it is read.
    pub fn serialize(&self, out: &mut Vec<u8>)
        ensures
            final(out)@ == old(out)@ + u32_le_bytes(self.0 as u32),
    {
        write_i32_le(out, self.0);
    }
}

/// Law: the supported version, once written, reads back, followed by
/// anything.
pub proof fn law_version_read_back(rest: Seq<u8>)
    ensures
        Version::spec_extent(u32_le_bytes(59i32 as u32) + rest) == Ok::<nat, SaveError>(4),
        Version::spec_encodes(u32_le_bytes(59i32 as u32) + rest, Version(59)),
{
    law_i32_read_back(59, rest);
}

/// The checksum stored at the end of the file, as read.
#[derive(Clone, Copy, Debug, PartialEq, Eq, Structural)]
pub struct Checksum(pub u32);

impl SaveData for Checksum {
    open spec fn spec_extent(input: Seq<u8>) -> Result<nat, SaveError> {
        fixed_extent(input, 4)
    }

    open spec fn spec_encodes(input: Seq<u8>, value: Checksum) -> bool {
        value.0 == le_u32(input)
    }

    fn deserialize(cursor: &mut SaveCursor) -> (res: Result<Checksum, SaveError>) {
        match <u32 as SaveData>::deserialize(cursor) {
            Ok(v) => Ok(Checksum(v)),
            Err(e) => Err(e),
        }
    }
}

impl Checksum {
    /// Writes the checksum at the end of `out` as it was read (it is not
    /// computed again).
    pub fn serialize(&self, out: &mut Vec<u8>)
        ensures
            final(out)@ == old(out)@ + u32_le_bytes(self.0),
    {
        write_u32_le(out, self.0);
    }
}

/// Law: a checksum, once written, reads back, followed by anything.
pub proof fn law_checksum_read_back(c: Checksum, rest: Seq<u8>)
    ensures
        Checksum::spec_extent(u32_le_bytes(c.0) + rest) == Ok::<nat, SaveError>(4),
        Checksum::spec_encodes(u32_le_bytes(c.0) + rest, c),
{
    law_u32_read_back(c.0, rest);
}

/// A Mass Effect 3 save game, in the order of the file.
#[derive(Debug)]
pub struct Me3SaveGame {
    pub version: Version,
    pub debug_name: Vec<Dummy<1>>,
    pub seconds_played: Float32,
    pub disc: Dummy<4>,
    pub base_level_name: ImguiString,
    pub base_level_name_display_override_as_read: ImguiString,
    pub difficulty: Difficulty,
    pub end_game_state: EndGameState,
    pub timestamp: SaveTimeStamp,
    pub location: Vector,
    pub rotation: Rotation,
    pub current_loading_tip: Dummy<4>,
    pub levels: Vec<Level>,
    pub streaming_records: Vec<StreamingRecord>,
    pub kismet_records: Vec<Dummy<20>>,
    pub doors: Vec<Dummy<18>>,
    pub placeables: Vec<Dummy<18>>,
    pub pawns: Vec<Dummy<16>>,
    pub player: Player,
    pub powers: Vec<Power>,
    pub gaw_assets: Vec<GawAsset>,
    pub weapons: Vec<Weapon>,
    pub weapons_mods: Vec<WeaponMod>,
    pub weapons_loadout: WeaponLoadout,
    pub primary_weapon: ImguiString,
    pub secondary_weapon: ImguiString,
    pub loadout_weapon_group: Vec<i32>,
    pub hotkeys: Vec<Hotkey>,
    pub current_health: Float32,
    pub credits: i32,
    pub medigel: i32,
    pub eezo: i32,
    pub iridium: i32,
    pub palladium: i32,
    pub platinum: i32,
    pub probes: i32,
    pub current_fuel: Float32,
    pub grenades: i32,
    pub face_code: ImguiString,
    pub class_friendly_name: i32,
    pub character_guid: Dummy<16>,
    pub henchmen: Vec<Henchman>,
    pub plot: PlotTable,
    pub me1_plot: Me1PlotTable,
    pub player_variables: IndexMap<String, i32>,
    pub galaxy_map: GalaxyMap,
    pub dependant_dlcs: Vec<DependentDlc>,
    pub treasures: Vec<LevelTreasure>,
    pub use_modules: Vec<Dummy<16>>,
    pub conversation_mode: AutoReplyModeOptions,
    pub objective_markers: Vec<ObjectiveMarker>,
    pub saved_objective_text: Dummy<4>,
    pub checksum: Checksum,
}

/// Stored field after field; the fields are read 5 at a time.
impl SaveData for Me3SaveGame {
    closed spec fn spec_extent(input: Seq<u8>) -> Result<nat, SaveError> {
        let r0 = <((Version, Vec<Dummy<1>>, Float32, Dummy<4>, ImguiString), (ImguiString, Difficulty, EndGameState, SaveTimeStamp, Vector), (Rotation, Dummy<4>, Vec<Level>, Vec<StreamingRecord>, Vec<Dummy<20>>)) as SaveData>::spec_extent(input);
        let r1 = then_extent::<((Vec<Dummy<18>>, Vec<Dummy<18>>, Vec<Dummy<16>>, Player, Vec<Power>), (Vec<GawAsset>, Vec<Weapon>, Vec<WeaponMod>, WeaponLoadout, ImguiString), (ImguiString, Vec<i32>, Vec<Hotkey>, Float32, i32))>(input, r0);
        let r2 = then_extent::<((i32, i32, i32, i32, i32), (i32, Float32, i32, ImguiString, i32), (Dummy<16>, Vec<Henchman>, PlotTable, Me1PlotTable, IndexMap<String, i32>))>(input, r1);
        let r3 = then_extent::<((GalaxyMap, Vec<DependentDlc>, Vec<LevelTreasure>, Vec<Dummy<16>>, AutoReplyModeOptions), (Vec<ObjectiveMarker>, Dummy<4>, Checksum))>(input, r2);
        r3
    }

    closed spec fn spec_encodes(input: Seq<u8>, value: Me3SaveGame) -> bool {
        let r0 = <((Version, Vec<Dummy<1>>, Float32, Dummy<4>, ImguiString), (ImguiString, Difficulty, EndGameState, SaveTimeStamp, Vector), (Rotation, Dummy<4>, Vec<Level>, Vec<StreamingRecord>, Vec<Dummy<20>>)) as SaveData>::spec_extent(input);
        let r1 = then_extent::<((Vec<Dummy<18>>, Vec<Dummy<18>>, Vec<Dummy<16>>, Player, Vec<Power>), (Vec<GawAsset>, Vec<Weapon>, Vec<WeaponMod>, WeaponLoadout, ImguiString), (ImguiString, Vec<i32>, Vec<Hotkey>, Float32, i32))>(input, r0);
        let r2 = then_extent::<((i32, i32, i32, i32, i32), (i32, Float32, i32, ImguiString, i32), (Dummy<16>, Vec<Henchman>, PlotTable, Me1PlotTable, IndexMap<String, i32>))>(input, r1);
        &&& <((Version, Vec<Dummy<1>>, Float32, Dummy<4>, ImguiString), (ImguiString, Difficulty, EndGameState, SaveTimeStamp, Vector), (Rotation, Dummy<4>, Vec<Level>, Vec<StreamingRecord>, Vec<Dummy<20>>)) as SaveData>::spec_encodes(input, ((value.version, value.debug_name, value.seconds_played, value.disc, value.base_level_name), (value.base_level_name_display_override_as_read, value.difficulty, value.end_game_state, value.timestamp, value.location), (value.rotation, value.current_loading_tip, value.levels, value.streaming_records, value.kismet_records)))
        &&& <((Vec<Dummy<18>>, Vec<Dummy<18>>, Vec<Dummy<16>>, Player, Vec<Power>), (Vec<GawAsset>, Vec<Weapon>, Vec<WeaponMod>, WeaponLoadout, ImguiString), (ImguiString, Vec<i32>, Vec<Hotkey>, Float32, i32)) as SaveData>::spec_encodes(input.skip(r0->Ok_0 as int), ((value.doors, value.placeables, value.pawns, value.player, value.powers), (value.gaw_assets, value.weapons, value.weapons_mods, value.weapons_loadout, value.primary_weapon), (value.secondary_weapon, value.loadout_weapon_group, value.hotkeys, value.current_health, value.credits)))
        &&& <((i32, i32, i32, i32, i32), (i32, Float32, i32, ImguiString, i32), (Dummy<16>, Vec<Henchman>, PlotTable, Me1PlotTable, IndexMap<String, i32>)) as SaveData>::spec_encodes(input.skip(r1->Ok_0 as int), ((value.medigel, value.eezo, value.iridium, value.palladium, value.platinum), (value.probes, value.current_fuel, value.grenades, value.face_code, value.class_friendly_name), (value.character_guid, value.henchmen, value.plot, value.me1_plot, value.player_variables)))
        &&& <((GalaxyMap, Vec<DependentDlc>, Vec<LevelTreasure>, Vec<Dummy<16>>, AutoReplyModeOptions), (Vec<ObjectiveMarker>, Dummy<4>, Checksum)) as SaveData>::spec_encodes(input.skip(r2->Ok_0 as int), ((value.galaxy_map, value.dependant_dlcs, value.treasures, value.use_modules, value.conversation_mode), (value.objective_markers, value.saved_objective_text, value.checksum)))
    }

    #[verifier::rlimit(100)]
    #[verifier::spinoff_prover]
    fn deserialize(cursor: &mut SaveCursor) -> (res: Result<Me3SaveGame, SaveError>) {
        let ghost input = cursor.remaining();
        let ghost start = cursor.position();
        let ((version, debug_name, seconds_played, disc, base_level_name), (base_level_name_display_override_as_read, difficulty, end_game_state, timestamp, location), (rotation, current_loading_tip, levels, streaming_records, kismet_records)) = match <((Version, Vec<Dummy<1>>, Float32, Dummy<4>, ImguiString), (ImguiString, Difficulty, EndGameState, SaveTimeStamp, Vector), (Rotation, Dummy<4>, Vec<Level>, Vec<StreamingRecord>, Vec<Dummy<20>>)) as SaveData>::deserialize(cursor) {
            Ok(v) => v,
            Err(e) => return Err(e),
        };
        let ghost r0 = <((Version, Vec<Dummy<1>>, Float32, Dummy<4>, ImguiString), (ImguiString, Difficulty, EndGameState, SaveTimeStamp, Vector), (Rotation, Dummy<4>, Vec<Level>, Vec<StreamingRecord>, Vec<Dummy<20>>)) as SaveData>::spec_extent(input);
        assert(r0 == Ok::<nat, SaveError>((cursor.position() - start) as nat));
        let ((doors, placeables, pawns, player, powers), (gaw_assets, weapons, weapons_mods, weapons_loadout, primary_weapon), (secondary_weapon, loadout_weapon_group, hotkeys, current_health, credits)) = match <((Vec<Dummy<18>>, Vec<Dummy<18>>, Vec<Dummy<16>>, Player, Vec<Power>), (Vec<GawAsset>, Vec<Weapon>, Vec<WeaponMod>, WeaponLoadout, ImguiString), (ImguiString, Vec<i32>, Vec<Hotkey>, Float32, i32)) as SaveData>::deserialize(cursor) {
            Ok(v) => v,
            Err(e) => return Err(e),
        };
        let ghost r1 = then_extent::<((Vec<Dummy<18>>, Vec<Dummy<18>>, Vec<Dummy<16>>, Player, Vec<Power>), (Vec<GawAsset>, Vec<Weapon>, Vec<WeaponMod>, WeaponLoadout, ImguiString), (ImguiString, Vec<i32>, Vec<Hotkey>, Float32, i32))>(input, r0);
        assert(r1 == Ok::<nat, SaveError>((cursor.position() - start) as nat));
        let ((medigel, eezo, iridium, palladium, platinum), (probes, current_fuel, grenades, face_code, class_friendly_name), (character_guid, henchmen, plot, me1_plot, player_variables)) = match <((i32, i32, i32, i32, i32), (i32, Float32, i32, ImguiString, i32), (Dummy<16>, Vec<Henchman>, PlotTable, Me1PlotTable, IndexMap<String, i32>)) as SaveData>::deserialize(cursor) {
            Ok(v) => v,
            Err(e) => return Err(e),
        };
        let ghost r2 = then_extent::<((i32, i32, i32, i32, i32), (i32, Float32, i32, ImguiString, i32), (Dummy<16>, Vec<Henchman>, PlotTable, Me1PlotTable, IndexMap<String, i32>))>(input, r1);
        assert(r2 == Ok::<nat, SaveError>((cursor.position() - start) as nat));
        let ((galaxy_map, dependant_dlcs, treasures, use_modules, conversation_mode), (objective_markers, saved_objective_text, checksum)) = match <((GalaxyMap, Vec<DependentDlc>, Vec<LevelTreasure>, Vec<Dummy<16>>, AutoReplyModeOptions), (Vec<ObjectiveMarker>, Dummy<4>, Checksum)) as SaveData>::deserialize(cursor) {
            Ok(v) => v,
            Err(e) => return Err(e),
        };
        let ghost r3 = then_extent::<((GalaxyMap, Vec<DependentDlc>, Vec<LevelTreasure>, Vec<Dummy<16>>, AutoReplyModeOptions), (Vec<ObjectiveMarker>, Dummy<4>, Checksum))>(input, r2);
        assert(r3 == Ok::<nat, SaveError>((cursor.position() - start) as nat));
        Ok(Me3SaveGame { version, debug_name, seconds_played, disc, base_level_name, base_level_name_display_override_as_read, difficulty, end_game_state, timestamp, location, rotation, current_loading_tip, levels, streaming_records, kismet_records, doors, placeables, pawns, player, powers, gaw_assets, weapons, weapons_mods, weapons_loadout, primary_weapon, secondary_weapon, loadout_weapon_group, hotkeys, current_health, credits, medigel, eezo, iridium, palladium, platinum, probes, current_fuel, grenades, face_code, class_friendly_name, character_guid, henchmen, plot, me1_plot, player_variables, galaxy_map, dependant_dlcs, treasures, use_modules, conversation_mode, objective_markers, saved_objective_text, checksum })
    }
}

/// How a value of type `Me3SaveGame` is laid out in a save file: the bytes its reader takes
/// and the value they encode.
pub proof fn lemma_me3_save_game_layout(input: Seq<u8>, value: Me3SaveGame)
    ensures
        <Me3SaveGame as SaveData>::spec_extent(input) == ({
            let r0 = <((Version, Vec<Dummy<1>>, Float32, Dummy<4>, ImguiString), (ImguiString, Difficulty, EndGameState, SaveTimeStamp, Vector), (Rotation, Dummy<4>, Vec<Level>, Vec<StreamingRecord>, Vec<Dummy<20>>)) as SaveData>::spec_extent(input);
            let r1 = then_extent::<((Vec<Dummy<18>>, Vec<Dummy<18>>, Vec<Dummy<16>>, Player, Vec<Power>), (Vec<GawAsset>, Vec<Weapon>, Vec<WeaponMod>, WeaponLoadout, ImguiString), (ImguiString, Vec<i32>, Vec<Hotkey>, Float32, i32))>(input, r0);
            let r2 = then_extent::<((i32, i32, i32, i32, i32), (i32, Float32, i32, ImguiString, i32), (Dummy<16>, Vec<Henchman>, PlotTable, Me1PlotTable, IndexMap<String, i32>))>(input, r1);
            let r3 = then_extent::<((GalaxyMap, Vec<DependentDlc>, Vec<LevelTreasure>, Vec<Dummy<16>>, AutoReplyModeOptions), (Vec<ObjectiveMarker>, Dummy<4>, Checksum))>(input, r2);
            r3
        }),
        <Me3SaveGame as SaveData>::spec_encodes(input, value) == ({
            let r0 = <((Version, Vec<Dummy<1>>, Float32, Dummy<4>, ImguiString), (ImguiString, Difficulty, EndGameState, SaveTimeStamp, Vector), (Rotation, Dummy<4>, Vec<Level>, Vec<StreamingRecord>, Vec<Dummy<20>>)) as SaveData>::spec_extent(input);
            let r1 = then_extent::<((Vec<Dummy<18>>, Vec<Dummy<18>>, Vec<Dummy<16>>, Player, Vec<Power>), (Vec<GawAsset>, Vec<Weapon>, Vec<WeaponMod>, WeaponLoadout, ImguiString), (ImguiString, Vec<i32>, Vec<Hotkey>, Float32, i32))>(input, r0);
            let r2 = then_extent::<((i32, i32, i32, i32, i32), (i32, Float32, i32, ImguiString, i32), (Dummy<16>, Vec<Henchman>, PlotTable, Me1PlotTable, IndexMap<String, i32>))>(input, r1);
            &&& <((Version, Vec<Dummy<1>>, Float32, Dummy<4>, ImguiString), (ImguiString, Difficulty, EndGameState, SaveTimeStamp, Vector), (Rotation, Dummy<4>, Vec<Level>, Vec<StreamingRecord>, Vec<Dummy<20>>)) as SaveData>::spec_encodes(input, ((value.version, value.debug_name, value.seconds_played, value.disc, value.base_level_name), (value.base_level_name_display_override_as_read, value.difficulty, value.end_game_state, value.timestamp, value.location), (value.rotation, value.current_loading_tip, value.levels, value.streaming_records, value.kismet_records)))
            &&& <((Vec<Dummy<18>>, Vec<Dummy<18>>, Vec<Dummy<16>>, Player, Vec<Power>), (Vec<GawAsset>, Vec<Weapon>, Vec<WeaponMod>, WeaponLoadout, ImguiString), (ImguiString, Vec<i32>, Vec<Hotkey>, Float32, i32)) as SaveData>::spec_encodes(input.skip(r0->Ok_0 as int), ((value.doors, value.placeables, value.pawns, value.player, value.powers), (value.gaw_assets, value.weapons, value.weapons_mods, value.weapons_loadout, value.primary_weapon), (value.secondary_weapon, value.loadout_weapon_group, value.hotkeys, value.current_health, value.credits)))
            &&& <((i32, i32, i32, i32, i32), (i32, Float32, i32, ImguiString, i32), (Dummy<16>, Vec<Henchman>, PlotTable, Me1PlotTable, IndexMap<String, i32>)) as SaveData>::spec_encodes(input.skip(r1->Ok_0 as int), ((value.medigel, value.eezo, value.iridium, value.palladium, value.platinum), (value.probes, value.current_fuel, value.grenades, value.face_code, value.class_friendly_name), (value.character_guid, value.henchmen, value.plot, value.me1_plot, value.player_variables)))
            &&& <((GalaxyMap, Vec<DependentDlc>, Vec<LevelTreasure>, Vec<Dummy<16>>, AutoReplyModeOptions), (Vec<ObjectiveMarker>, Dummy<4>, Checksum)) as SaveData>::spec_encodes(input.skip(r2->Ok_0 as int), ((value.galaxy_map, value.dependant_dlcs, value.treasures, value.use_modules, value.conversation_mode), (value.objective_markers, value.saved_objective_text, value.checksum)))
        }),
{
}


/// The difficulty setting.
#[derive(Clone, Copy, Debug, PartialEq, Eq, Structural)]
pub enum Difficulty {
    Narrative,
    Casual,
    Normal,
    Hardcore,
    Insanity,
    WhatIsBeyondInsanity,
}

impl Difficulty {
    /// The variant stored as `index`, if any.
    pub open spec fn spec_from_index(index: u8) -> Option<Difficulty> {
        if index == 0 {
            Some(Difficulty::Narrative)
        } else if index == 1 {
            Some(Difficulty::Casual)
        } else if index == 2 {
            Some(Difficulty::Normal)
        } else if index == 3 {
            Some(Difficulty::Hardcore)
        } else if index == 4 {
            Some(Difficulty::Insanity)
        } else if index == 5 {
            Some(Difficulty::WhatIsBeyondInsanity)
        } else {
            None
        }
    }

    /// The variant stored as `index`, if any.
    pub fn from_index(index: u8) -> (res: Option<Difficulty>)
        ensures
            res == Self::spec_from_index(index),
    {
        if index == 0 {
            Some(Difficulty::Narrative)
        } else if index == 1 {
            Some(Difficulty::Casual)
        } else if index == 2 {
            Some(Difficulty::Normal)
        } else if index == 3 {
            Some(Difficulty::Hardcore)
        } else if index == 4 {
            Some(Difficulty::Insanity)
        } else if index == 5 {
            Some(Difficulty::WhatIsBeyondInsanity)
        } else {
            None
        }
    }
}

/// Stored as one byte, the position of the variant.
impl SaveData for Difficulty {
    closed spec fn spec_extent(input: Seq<u8>) -> Result<nat, SaveError> {
        enum_extent(input, Difficulty::spec_from_index(input[0]) is Some)
    }

    closed spec fn spec_encodes(input: Seq<u8>, value: Difficulty) -> bool {
        Difficulty::spec_from_index(input[0]) == Some(value)
    }

    fn deserialize(cursor: &mut SaveCursor) -> (res: Result<Difficulty, SaveError>) {
        let index = match <u8 as SaveData>::deserialize(cursor) {
            Ok(index) => index,
            Err(e) => return Err(e),
        };
        match Difficulty::from_index(index) {
            Some(v) => Ok(v),
            None => Err(SaveError::InvalidEnumValue),
        }
    }
}

/// The variants of `Difficulty` in the order they are declared.
pub open spec fn difficulty_variants() -> Seq<Difficulty> {
    seq![Difficulty::Narrative, Difficulty::Casual, Difficulty::Normal, Difficulty::Hardcore, Difficulty::Insanity, Difficulty::WhatIsBeyondInsanity]
}

/// Law: a `Difficulty` is stored as one byte, the position of its variant in the
/// declaration order; a byte past the last variant is refused.
pub proof fn law_difficulty_byte_is_position(input: Seq<u8>, value: Difficulty)
    requires
        input.len() >= 1,
    ensures
        Difficulty::spec_from_index(input[0]) == if input[0] < 6 {
            Some(difficulty_variants()[input[0] as int])
        } else {
            None
        },
        <Difficulty as SaveData>::spec_extent(input) == if input[0] < 6 {
            Ok::<nat, SaveError>(1)
        } else {
            Err::<nat, SaveError>(SaveError::InvalidEnumValue)
        },
        <Difficulty as SaveData>::spec_encodes(input, value) <==> (input[0] < 6 && difficulty_variants()[input[0] as int] == value),
        forall|i: int, j: int| 0 <= i < 6 && 0 <= j < 6 && i != j ==> difficulty_variants()[i] != difficulty_variants()[j],
{
}

/// How a value of type `Difficulty` is laid out in a save file: the bytes its reader takes
/// and the value they encode.
pub proof fn lemma_difficulty_layout(input: Seq<u8>, value: Difficulty)
    ensures
        <Difficulty as SaveData>::spec_extent(input) == ({
            enum_extent(input, Difficulty::spec_from_index(input[0]) is Some)
        }),
        <Difficulty as SaveData>::spec_encodes(input, value) == ({
            Difficulty::spec_from_index(input[0]) == Some(value)
        }),
{
}


/// How the story ended, if it did.
#[derive(Clone, Copy, Debug, PartialEq, Eq, Structural)]
pub enum EndGameState {
    NotFinished,
    OutInABlazeOfGlory,
    LivedToFightAgain,
}

impl EndGameState {
    /// The variant stored as `index`, if any.
    pub open spec fn spec_from_index(index: u8) -> Option<EndGameState> {
        if index == 0 {
            Some(EndGameState::NotFinished)
        } else if index == 1 {
            Some(EndGameState::OutInABlazeOfGlory)
        } else if index == 2 {
            Some(EndGameState::LivedToFightAgain)
        } else {
            None
        }
    }

    /// The variant stored as `index`, if any.
    pub fn from_index(index: u8) -> (res: Option<EndGameState>)
        ensures
            res == Self::spec_from_index(index),
    {
        if index == 0 {
            Some(EndGameState::NotFinished)
        } else if index == 1 {
            Some(EndGameState::OutInABlazeOfGlory)
        } else if index == 2 {
            Some(EndGameState::LivedToFightAgain)
        } else {
            None
        }
    }
}

/// Stored as one byte, the position of the variant.
impl SaveData for EndGameState {
    closed spec fn spec_extent(input: Seq<u8>) -> Result<nat, SaveError> {
        enum_extent(input, EndGameState::spec_from_index(input[0]) is Some)
    }

    closed spec fn spec_encodes(input: Seq<u8>, value: EndGameState) -> bool {
        EndGameState::spec_from_index(input[0]) == Some(value)
    }

    fn deserialize(cursor: &mut SaveCursor) -> (res: Result<EndGameState, SaveError>) {
        let index = match <u8 as SaveData>::deserialize(cursor) {
            Ok(index) => index,
            Err(e) => return Err(e),
        };
        match EndGameState::from_index(index) {
            Some(v) => Ok(v),
            None => Err(SaveError::InvalidEnumValue),
        }
    }
}

/// The variants of `EndGameState` in the order they are declared.
pub open spec fn end_game_state_variants() -> Seq<EndGameState> {
    seq![EndGameState::NotFinished, EndGameState::OutInABlazeOfGlory, EndGameState::LivedToFightAgain]
}

/// Law: a `EndGameState` is stored as one byte, the position of its variant in the
/// declaration order; a byte past the last variant is refused.
pub proof fn law_end_game_state_byte_is_position(input: Seq<u8>, value: EndGameState)
    requires
        input.len() >= 1,
    ensures
        EndGameState::spec_from_index(input[0]) == if input[0] < 3 {
            Some(end_game_state_variants()[input[0] as int])
        } else {
            None
        },
        <EndGameState as SaveData>::spec_extent(input) == if input[0] < 3 {
            Ok::<nat, SaveError>(1)
        } else {
            Err::<nat, SaveError>(SaveError::InvalidEnumValue)
        },
        <EndGameState as SaveData>::spec_encodes(input, value) <==> (input[0] < 3 && end_game_state_variants()[input[0] as int] == value),
        forall|i: int, j: int| 0 <= i < 3 && 0 <= j < 3 && i != j ==> end_game_state_variants()[i] != end_game_state_variants()[j],
{
}

/// How a value of type `EndGameState` is laid out in a save file: the bytes its reader takes
/// and the value they encode.
pub proof fn lemma_end_game_state_layout(input: Seq<u8>, value: EndGameState)
    ensures
        <EndGameState as SaveData>::spec_extent(input) == ({
            enum_extent(input, EndGameState::spec_from_index(input[0]) is Some)
        }),
        <EndGameState as SaveData>::spec_encodes(input, value) == ({
            EndGameState::spec_from_index(input[0]) == Some(value)
        }),
{
}


/// When the game was saved.
#[derive(Debug)]
pub struct SaveTimeStamp {
    pub seconds_since_midnight: i32,
    pub day: i32,
    pub month: i32,
    pub year: i32,
}

impl SaveData for SaveTimeStamp {
    closed spec fn spec_extent(input: Seq<u8>) -> Result<nat, SaveError> {
        let r0 = <i32 as SaveData>::spec_extent(input);
        let r1 = then_extent::<i32>(input, r0);
        let r2 = then_extent::<i32>(input, r1);
        let r3 = then_extent::<i32>(input, r2);
        r3
    }

    closed spec fn spec_encodes(input: Seq<u8>, value: SaveTimeStamp) -> bool {
        let r0 = <i32 as SaveData>::spec_extent(input);
        let r1 = then_extent::<i32>(input, r0);
        let r2 = then_extent::<i32>(input, r1);
        &&& <i32 as SaveData>::spec_encodes(input, value.seconds_since_midnight)
        &&& <i32 as SaveData>::spec_encodes(input.skip(r0->Ok_0 as int), value.day)
        &&& <i32 as SaveData>::spec_encodes(input.skip(r1->Ok_0 as int), value.month)
        &&& <i32 as SaveData>::spec_encodes(input.skip(r2->Ok_0 as int), value.year)
    }

    fn deserialize(cursor: &mut SaveCursor) -> (res: Result<SaveTimeStamp, SaveError>) {
        let ghost input = cursor.remaining();
        let ghost start = cursor.position();
        let seconds_since_midnight = match <i32 as SaveData>::deserialize(cursor) {
            Ok(v) => v,
            Err(e) => return Err(e),
        };
        let ghost r0 = <i32 as SaveData>::spec_extent(input);
        assert(r0 == Ok::<nat, SaveError>((cursor.position() - start) as nat));
        let day = match <i32 as SaveData>::deserialize(cursor) {
            Ok(v) => v,
            Err(e) => return Err(e),
        };
        let ghost r1 = then_extent::<i32>(input, r0);
        assert(r1 == Ok::<nat, SaveError>((cursor.position() - start) as nat));
        let month = match <i32 as SaveData>::deserialize(cursor) {
            Ok(v) => v,
            Err(e) => return Err(e),
        };
        let ghost r2 = then_extent::<i32>(input, r1);
        assert(r2 == Ok::<nat, SaveError>((cursor.position() - start) as nat));
        let year = match <i32 as SaveData>::deserialize(cursor) {
            Ok(v) => v,
            Err(e) => return Err(e),
        };
        let ghost r3 = then_extent::<i32>(input, r2);
        assert(r3 == Ok::<nat, SaveError>((cursor.position() - start) as nat));
        Ok(SaveTimeStamp { seconds_since_midnight, day, month, year })
    }
}

/// How a value of type `SaveTimeStamp` is laid out in a save file: the bytes its reader takes
/// and the value they encode.
pub proof fn lemma_save_time_stamp_layout(input: Seq<u8>, value: SaveTimeStamp)
    ensures
        <SaveTimeStamp as SaveData>::spec_extent(input) == ({
            let r0 = <i32 as SaveData>::spec_extent(input);
            let r1 = then_extent::<i32>(input, r0);
            let r2 = then_extent::<i32>(input, r1);
            let r3 = then_extent::<i32>(input, r2);
            r3
        }),
        <SaveTimeStamp as SaveData>::spec_encodes(input, value) == ({
            let r0 = <i32 as SaveData>::spec_extent(input);
            let r1 = then_extent::<i32>(input, r0);
            let r2 = then_extent::<i32>(input, r1);
            &&& <i32 as SaveData>::spec_encodes(input, value.seconds_since_midnight)
            &&& <i32 as SaveData>::spec_encodes(input.skip(r0->Ok_0 as int), value.day)
            &&& <i32 as SaveData>::spec_encodes(input.skip(r1->Ok_0 as int), value.month)
            &&& <i32 as SaveData>::spec_encodes(input.skip(r2->Ok_0 as int), value.year)
        }),
{
}


/// A point in space.
#[derive(Debug)]
pub struct Vector {
    pub x: Float32,
    pub y: Float32,
    pub z: Float32,
}

impl SaveData for Vector {
    closed spec fn spec_extent(input: Seq<u8>) -> Result<nat, SaveError> {
        let r0 = <Float32 as SaveData>::spec_extent(input);
        let r1 = then_extent::<Float32>(input, r0);
        let r2 = then_extent::<Float32>(input, r1);
        r2
    }

    closed spec fn spec_encodes(input: Seq<u8>, value: Vector) -> bool {
        let r0 = <Float32 as SaveData>::spec_extent(input);
        let r1 = then_extent::<Float32>(input, r0);
        &&& <Float32 as SaveData>::spec_encodes(input, value.x)
        &&& <Float32 as SaveData>::spec_encodes(input.skip(r0->Ok_0 as int), value.y)
        &&& <Float32 as SaveData>::spec_encodes(input.skip(r1->Ok_0 as int), value.z)
    }

    fn deserialize(cursor: &mut SaveCursor) -> (res: Result<Vector, SaveError>) {
        let ghost input = cursor.remaining();
        let ghost start = cursor.position();
        let x = match <Float32 as SaveData>::deserialize(cursor) {
            Ok(v) => v,
            Err(e) => return Err(e),
        };
        let ghost r0 = <Float32 as SaveData>::spec_extent(input);
        assert(r0 == Ok::<nat, SaveError>((cursor.position() - start) as nat));
        let y = match <Float32 as SaveData>::deserialize(cursor) {
            Ok(v) => v,
            Err(e) => return Err(e),
        };
        let ghost r1 = then_extent::<Float32>(input, r0);
        assert(r1 == Ok::<nat, SaveError>((cursor.position() - start) as nat));
        let z = match <Float32 as SaveData>::deserialize(cursor) {
            Ok(v) => v,
            Err(e) => return Err(e),
        };
        let ghost r2 = then_extent::<Float32>(input, r1);
        assert(r2 == Ok::<nat, SaveError>((cursor.position() - start) as nat));
        Ok(Vector { x, y, z })
    }
}

/// How a value of type `Vector` is laid out in a save file: the bytes its reader takes
/// and the value they encode.
pub proof fn lemma_vector_layout(input: Seq<u8>, value: Vector)
    ensures
        <Vector as SaveData>::spec_extent(input) == ({
            let r0 = <Float32 as SaveData>::spec_extent(input);
            let r1 = then_extent::<Float32>(input, r0);
            let r2 = then_extent::<Float32>(input, r1);
            r2
        }),
        <Vector as SaveData>::spec_encodes(input, value) == ({
            let r0 = <Float32 as SaveData>::spec_extent(input);
            let r1 = then_extent::<Float32>(input, r0);
            &&& <Float32 as SaveData>::spec_encodes(input, value.x)
            &&& <Float32 as SaveData>::spec_encodes(input.skip(r0->Ok_0 as int), value.y)
            &&& <Float32 as SaveData>::spec_encodes(input.skip(r1->Ok_0 as int), value.z)
        }),
{
}


/// An orientation in space.
#[derive(Debug)]
pub struct Rotation {
    pub pitch: i32,
    pub yaw: i32,
    pub roll: i32,
}

impl SaveData for Rotation {
    closed spec fn spec_extent(input: Seq<u8>) -> Result<nat, SaveError> {
        let r0 = <i32 as SaveData>::spec_extent(input);
        let r1 = then_extent::<i32>(input, r0);
        let r2 = then_extent::<i32>(input, r1);
        r2
    }

    closed spec fn spec_encodes(input: Seq<u8>, value: Rotation) -> bool {
        let r0 = <i32 as SaveData>::spec_extent(input);
        let r1 = then_extent::<i32>(input, r0);
        &&& <i32 as SaveData>::spec_encodes(input, value.pitch)
        &&& <i32 as SaveData>::spec_encodes(input.skip(r0->Ok_0 as int), value.yaw)
        &&& <i32 as SaveData>::spec_encodes(input.skip(r1->Ok_0 as int), value.roll)
    }

    fn deserialize(cursor: &mut SaveCursor) -> (res: Result<Rotation, SaveError>) {
        let ghost input = cursor.remaining();
        let ghost start = cursor.position();
        let pitch = match <i32 as SaveData>::deserialize(cursor) {
            Ok(v) => v,
            Err(e) => return Err(e),
        };
        let ghost r0 = <i32 as SaveData>::spec_extent(input);
        assert(r0 == Ok::<nat, SaveError>((cursor.position() - start) as nat));
        let yaw = match <i32 as SaveData>::deserialize(cursor) {
            Ok(v) => v,
            Err(e) => return Err(e),
        };
        let ghost r1 = then_extent::<i32>(input, r0);
        assert(r1 == Ok::<nat, SaveError>((cursor.position() - start) as nat));
        let roll = match <i32 as SaveData>::deserialize(cursor) {
            Ok(v) => v,
            Err(e) => return Err(e),
        };
        let ghost r2 = then_extent::<i32>(input, r1);
        assert(r2 == Ok::<nat, SaveError>((cursor.position() - start) as nat));
        Ok(Rotation { pitch, yaw, roll })
    }
}

/// How a value of type `Rotation` is laid out in a save file: the bytes its reader takes
/// and the value they encode.
pub proof fn lemma_rotation_layout(input: Seq<u8>, value: Rotation)
    ensures
        <Rotation as SaveData>::spec_extent(input) == ({
            let r0 = <i32 as SaveData>::spec_extent(input);
            let r1 = then_extent::<i32>(input, r0);
            let r2 = then_extent::<i32>(input, r1);
            r2
        }),
        <Rotation as SaveData>::spec_encodes(input, value) == ({
            let r0 = <i32 as SaveData>::spec_extent(input);
            let r1 = then_extent::<i32>(input, r0);
            &&& <i32 as SaveData>::spec_encodes(input, value.pitch)
            &&& <i32 as SaveData>::spec_encodes(input.skip(r0->Ok_0 as int), value.yaw)
            &&& <i32 as SaveData>::spec_encodes(input.skip(r1->Ok_0 as int), value.roll)
        }),
{
}


/// A level of the current map.
#[derive(Debug)]
pub struct Level {
    pub name: ImguiString,
    pub should_be_loaded: bool,
    pub should_be_visible: bool,
}

impl SaveData for Level {
    closed spec fn spec_extent(input: Seq<u8>) -> Result<nat, SaveError> {
        let r0 = <ImguiString as SaveData>::spec_extent(input);
        let r1 = then_extent::<bool>(input, r0);
        let r2 = then_extent::<bool>(input, r1);
        r2
    }

    closed spec fn spec_encodes(input: Seq<u8>, value: Level) -> bool {
        let r0 = <ImguiString as SaveData>::spec_extent(input);
        let r1 = then_extent::<bool>(input, r0);
        &&& <ImguiString as SaveData>::spec_encodes(input, value.name)
        &&& <bool as SaveData>::spec_encodes(input.skip(r0->Ok_0 as int), value.should_be_loaded)
        &&& <bool as SaveData>::spec_encodes(input.skip(r1->Ok_0 as int), value.should_be_visible)
    }

    fn deserialize(cursor: &mut SaveCursor) -> (res: Result<Level, SaveError>) {
        let ghost input = cursor.remaining();
        let ghost start = cursor.position();
        let name = match <ImguiString as SaveData>::deserialize(cursor) {
            Ok(v) => v,
            Err(e) => return Err(e),
        };
        let ghost r0 = <ImguiString as SaveData>::spec_extent(input);
        assert(r0 == Ok::<nat, SaveError>((cursor.position() - start) as nat));
        let should_be_loaded = match <bool as SaveData>::deserialize(cursor) {
            Ok(v) => v,
            Err(e) => return Err(e),
        };
        let ghost r1 = then_extent::<bool>(input, r0);
        assert(r1 == Ok::<nat, SaveError>((cursor.position() - start) as nat));
        let should_be_visible = match <bool as SaveData>::deserialize(cursor) {
            Ok(v) => v,
            Err(e) => return Err(e),
        };
        let ghost r2 = then_extent::<bool>(input, r1);
        assert(r2 == Ok::<nat, SaveError>((cursor.position() - start) as nat));
        Ok(Level { name, should_be_loaded, should_be_visible })
    }
}

/// How a value of type `Level` is laid out in a save file: the bytes its reader takes
/// and the value they encode.
pub proof fn lemma_level_layout(input: Seq<u8>, value: Level)
    ensures
        <Level as SaveData>::spec_extent(input) == ({
            let r0 = <ImguiString as SaveData>::spec_extent(input);
            let r1 = then_extent::<bool>(input, r0);
            let r2 = then_extent::<bool>(input, r1);
            r2
        }),
        <Level as SaveData>::spec_encodes(input, value) == ({
            let r0 = <ImguiString as SaveData>::spec_extent(input);
            let r1 = then_extent::<bool>(input, r0);
            &&& <ImguiString as SaveData>::spec_encodes(input, value.name)
            &&& <bool as SaveData>::spec_encodes(input.skip(r0->Ok_0 as int), value.should_be_loaded)
            &&& <bool as SaveData>::spec_encodes(input.skip(r1->Ok_0 as int), value.should_be_visible)
        }),
{
}


/// A streamed level and whether it is active.
#[derive(Debug)]
pub struct StreamingRecord {
    pub name: ImguiString,
    pub is_active: bool,
}

impl SaveData for StreamingRecord {
    closed spec fn spec_extent(input: Seq<u8>) -> Result<nat, SaveError> {
        let r0 = <ImguiString as SaveData>::spec_extent(input);
        let r1 = then_extent::<bool>(input, r0);
        r1
    }

    closed spec fn spec_encodes(input: Seq<u8>, value: StreamingRecord) -> bool {
        let r0 = <ImguiString as SaveData>::spec_extent(input);
        &&& <ImguiString as SaveData>::spec_encodes(input, value.name)
        &&& <bool as SaveData>::spec_encodes(input.skip(r0->Ok_0 as int), value.is_active)
    }

    fn deserialize(cursor: &mut SaveCursor) -> (res: Result<StreamingRecord, SaveError>) {
        let ghost input = cursor.remaining();
        let ghost start = cursor.position();
        let name = match <ImguiString as SaveData>::deserialize(cursor) {
            Ok(v) => v,
            Err(e) => return Err(e),
        };
        let ghost r0 = <ImguiString as SaveData>::spec_extent(input);
        assert(r0 == Ok::<nat, SaveError>((cursor.position() - start) as nat));
        let is_active = match <bool as SaveData>::deserialize(cursor) {
            Ok(v) => v,
            Err(e) => return Err(e),
        };
        let ghost r1 = then_extent::<bool>(input, r0);
        assert(r1 == Ok::<nat, SaveError>((cursor.position() - start) as nat));
        Ok(StreamingRecord { name, is_active })
    }
}

/// How a value of type `StreamingRecord` is laid out in a save file: the bytes its reader takes
/// and the value they encode.
pub proof fn lemma_streaming_record_layout(input: Seq<u8>, value: StreamingRecord)
    ensures
        <StreamingRecord as SaveData>::spec_extent(input) == ({
            let r0 = <ImguiString as SaveData>::spec_extent(input);
            let r1 = then_extent::<bool>(input, r0);
            r1
        }),
        <StreamingRecord as SaveData>::spec_encodes(input, value) == ({
            let r0 = <ImguiString as SaveData>::spec_extent(input);
            &&& <ImguiString as SaveData>::spec_encodes(input, value.name)
            &&& <bool as SaveData>::spec_encodes(input.skip(r0->Ok_0 as int), value.is_active)
        }),
{
}


/// A war asset.
#[derive(Debug)]
pub struct GawAsset {
    pub id: i32,
    pub strength: i32,
}

impl SaveData for GawAsset {
    closed spec fn spec_extent(input: Seq<u8>) -> Result<nat, SaveError> {
        let r0 = <i32 as SaveData>::spec_extent(input);
        let r1 = then_extent::<i32>(input, r0);
        r1
    }

    closed spec fn spec_encodes(input: Seq<u8>, value: GawAsset) -> bool {
        let r0 = <i32 as SaveData>::spec_extent(input);
        &&& <i32 as SaveData>::spec_encodes(input, value.id)
        &&& <i32 as SaveData>::spec_encodes(input.skip(r0->Ok_0 as int), value.strength)
    }

    fn deserialize(cursor: &mut SaveCursor) -> (res: Result<GawAsset, SaveError>) {
        let ghost input = cursor.remaining();
        let ghost start = cursor.position();
        let id = match <i32 as SaveData>::deserialize(cursor) {
            Ok(v) => v,
            Err(e) => return Err(e),
        };
        let ghost r0 = <i32 as SaveData>::spec_extent(input);
        assert(r0 == Ok::<nat, SaveError>((cursor.position() - start) as nat));
        let strength = match <i32 as SaveData>::deserialize(cursor) {
            Ok(v) => v,
            Err(e) => return Err(e),
        };
        let ghost r1 = then_extent::<i32>(input, r0);
        assert(r1 == Ok::<nat, SaveError>((cursor.position() - start) as nat));
        Ok(GawAsset { id, strength })
    }
}

/// How a value of type `GawAsset` is laid out in a save file: the bytes its reader takes
/// and the value they encode.
pub proof fn lemma_gaw_asset_layout(input: Seq<u8>, value: GawAsset)
    ensures
        <GawAsset as SaveData>::spec_extent(input) == ({
            let r0 = <i32 as SaveData>::spec_extent(input);
            let r1 = then_extent::<i32>(input, r0);
            r1
        }),
        <GawAsset as SaveData>::spec_encodes(input, value) == ({
            let r0 = <i32 as SaveData>::spec_extent(input);
            &&& <i32 as SaveData>::spec_encodes(input, value.id)
            &&& <i32 as SaveData>::spec_encodes(input.skip(r0->Ok_0 as int), value.strength)
        }),
{
}


/// A downloadable content the save game needs.
#[derive(Debug)]
pub struct DependentDlc {
    pub id: i32,
    pub name: ImguiString,
    pub canonical_name: ImguiString,
}

impl SaveData for DependentDlc {
    closed spec fn spec_extent(input: Seq<u8>) -> Result<nat, SaveError> {
        let r0 = <i32 as SaveData>::spec_extent(input);
        let r1 = then_extent::<ImguiString>(input, r0);
        let r2 = then_extent::<ImguiString>(input, r1);
        r2
    }

    closed spec fn spec_encodes(input: Seq<u8>, value: DependentDlc) -> bool {
        let r0 = <i32 as SaveData>::spec_extent(input);
        let r1 = then_extent::<ImguiString>(input, r0);
        &&& <i32 as SaveData>::spec_encodes(input, value.id)
        &&& <ImguiString as SaveData>::spec_encodes(input.skip(r0->Ok_0 as int), value.name)
        &&& <ImguiString as SaveData>::spec_encodes(input.skip(r1->Ok_0 as int), value.canonical_name)
    }

    fn deserialize(cursor: &mut SaveCursor) -> (res: Result<DependentDlc, SaveError>) {
        let ghost input = cursor.remaining();
        let ghost start = cursor.position();
        let id = match <i32 as SaveData>::deserialize(cursor) {
            Ok(v) => v,
            Err(e) => return Err(e),
        };
        let ghost r0 = <i32 as SaveData>::spec_extent(input);
        assert(r0 == Ok::<nat, SaveError>((cursor.position() - start) as nat));
        let name = match <ImguiString as SaveData>::deserialize(cursor) {
            Ok(v) => v,
            Err(e) => return Err(e),
        };
        let ghost r1 = then_extent::<ImguiString>(input, r0);
        assert(r1 == Ok::<nat, SaveError>((cursor.position() - start) as nat));
        let canonical_name = match <ImguiString as SaveData>::deserialize(cursor) {
            Ok(v) => v,
            Err(e) => return Err(e),
        };
        let ghost r2 = then_extent::<ImguiString>(input, r1);
        assert(r2 == Ok::<nat, SaveError>((cursor.position() - start) as nat));
        Ok(DependentDlc { id, name, canonical_name })
    }
}

/// How a value of type `DependentDlc` is laid out in a save file: the bytes its reader takes
/// and the value they encode.
pub proof fn lemma_dependent_dlc_layout(input: Seq<u8>, value: DependentDlc)
    ensures
        <DependentDlc as SaveData>::spec_extent(input) == ({
            let r0 = <i32 as SaveData>::spec_extent(input);
            let r1 = then_extent::<ImguiString>(input, r0);
            let r2 = then_extent::<ImguiString>(input, r1);
            r2
        }),
        <DependentDlc as SaveData>::spec_encodes(input, value) == ({
            let r0 = <i32 as SaveData>::spec_extent(input);
            let r1 = then_extent::<ImguiString>(input, r0);
            &&& <i32 as SaveData>::spec_encodes(input, value.id)
            &&& <ImguiString as SaveData>::spec_encodes(input.skip(r0->Ok_0 as int), value.name)
            &&& <ImguiString as SaveData>::spec_encodes(input.skip(r1->Ok_0 as int), value.canonical_name)
        }),
{
}


/// The treasure of a level.
#[derive(Debug)]
pub struct LevelTreasure {
    pub level_name: ImguiString,
    pub credits: i32,
    pub xp: i32,
    pub items: Vec<ImguiString>,
}

impl SaveData for LevelTreasure {
    closed spec fn spec_extent(input: Seq<u8>) -> Result<nat, SaveError> {
        let r0 = <ImguiString as SaveData>::spec_extent(input);
        let r1 = then_extent::<i32>(input, r0);
        let r2 = then_extent::<i32>(input, r1);
        let r3 = then_extent::<Vec<ImguiString>>(input, r2);
        r3
    }

    closed spec fn spec_encodes(input: Seq<u8>, value: LevelTreasure) -> bool {
        let r0 = <ImguiString as SaveData>::spec_extent(input);
        let r1 = then_extent::<i32>(input, r0);
        let r2 = then_extent::<i32>(input, r1);
        &&& <ImguiString as SaveData>::spec_encodes(input, value.level_name)
        &&& <i32 as SaveData>::spec_encodes(input.skip(r0->Ok_0 as int), value.credits)
        &&& <i32 as SaveData>::spec_encodes(input.skip(r1->Ok_0 as int), value.xp)
        &&& <Vec<ImguiString> as SaveData>::spec_encodes(input.skip(r2->Ok_0 as int), value.items)
    }

    fn deserialize(cursor: &mut SaveCursor) -> (res: Result<LevelTreasure, SaveError>) {
        let ghost input = cursor.remaining();
        let ghost start = cursor.position();
        let level_name = match <ImguiString as SaveData>::deserialize(cursor) {
            Ok(v) => v,
            Err(e) => return Err(e),
        };
        let ghost r0 = <ImguiString as SaveData>::spec_extent(input);
        assert(r0 == Ok::<nat, SaveError>((cursor.position() - start) as nat));
        let credits = match <i32 as SaveData>::deserialize(cursor) {
            Ok(v) => v,
            Err(e) => return Err(e),
        };
        let ghost r1 = then_extent::<i32>(input, r0);
        assert(r1 == Ok::<nat, SaveError>((cursor.position() - start) as nat));
        let xp = match <i32 as SaveData>::deserialize(cursor) {
            Ok(v) => v,
            Err(e) => return Err(e),
        };
        let ghost r2 = then_extent::<i32>(input, r1);
        assert(r2 == Ok::<nat, SaveError>((cursor.position() - start) as nat));
        let items = match <Vec<ImguiString> as SaveData>::deserialize(cursor) {
            Ok(v) => v,
            Err(e) => return Err(e),
        };
        let ghost r3 = then_extent::<Vec<ImguiString>>(input, r2);
        assert(r3 == Ok::<nat, SaveError>((cursor.position() - start) as nat));
        Ok(LevelTreasure { level_name, credits, xp, items })
    }
}

/// How a value of type `LevelTreasure` is laid out in a save file: the bytes its reader takes
/// and the value they encode.
pub proof fn lemma_level_treasure_layout(input: Seq<u8>, value: LevelTreasure)
    ensures
        <LevelTreasure as SaveData>::spec_extent(input) == ({
            let r0 = <ImguiString as SaveData>::spec_extent(input);
            let r1 = then_extent::<i32>(input, r0);
            let r2 = then_extent::<i32>(input, r1);
            let r3 = then_extent::<Vec<ImguiString>>(input, r2);
            r3
        }),
        <LevelTreasure as SaveData>::spec_encodes(input, value) == ({
            let r0 = <ImguiString as SaveData>::spec_extent(input);
            let r1 = then_extent::<i32>(input, r0);
            let r2 = then_extent::<i32>(input, r1);
            &&& <ImguiString as SaveData>::spec_encodes(input, value.level_name)
            &&& <i32 as SaveData>::spec_encodes(input.skip(r0->Ok_0 as int), value.credits)
            &&& <i32 as SaveData>::spec_encodes(input.skip(r1->Ok_0 as int), value.xp)
            &&& <Vec<ImguiString> as SaveData>::spec_encodes(input.skip(r2->Ok_0 as int), value.items)
        }),
{
}


/// How many dialogue choices the player makes.
#[derive(Clone, Copy, Debug, PartialEq, Eq, Structural)]
pub enum AutoReplyModeOptions {
    AllDecisions,
    MajorDecisions,
    NoDecisions,
}

impl AutoReplyModeOptions {
    /// The variant stored as `index`, if any.
    pub open spec fn spec_from_index(index: u8) -> Option<AutoReplyModeOptions> {
        if index == 0 {
            Some(AutoReplyModeOptions::AllDecisions)
        } else if index == 1 {
            Some(AutoReplyModeOptions::MajorDecisions)
        } else if index == 2 {
            Some(AutoReplyModeOptions::NoDecisions)
        } else {
            None
        }
    }

    /// The variant stored as `index`, if any.
    pub fn from_index(index: u8) -> (res: Option<AutoReplyModeOptions>)
        ensures
            res == Self::spec_from_index(index),
    {
        if index == 0 {
            Some(AutoReplyModeOptions::AllDecisions)
        } else if index == 1 {
            Some(AutoReplyModeOptions::MajorDecisions)
        } else if index == 2 {
            Some(AutoReplyModeOptions::NoDecisions)
        } else {
            None
        }
    }
}

/// Stored as one byte, the position of the variant.
impl SaveData for AutoReplyModeOptions {
    closed spec fn spec_extent(input: Seq<u8>) -> Result<nat, SaveError> {
        enum_extent(input, AutoReplyModeOptions::spec_from_index(input[0]) is Some)
    }

    closed spec fn spec_encodes(input: Seq<u8>, value: AutoReplyModeOptions) -> bool {
        AutoReplyModeOptions::spec_from_index(input[0]) == Some(value)
    }

    fn deserialize(cursor: &mut SaveCursor) -> (res: Result<AutoReplyModeOptions, SaveError>) {
        let index = match <u8 as SaveData>::deserialize(cursor) {
            Ok(index) => index,
            Err(e) => return Err(e),
        };
        match AutoReplyModeOptions::from_index(index) {
            Some(v) => Ok(v),
            None => Err(SaveError::InvalidEnumValue),
        }
    }
}

/// The variants of `AutoReplyModeOptions` in the order they are declared.
pub open spec fn auto_reply_mode_options_variants() -> Seq<AutoReplyModeOptions> {
    seq![AutoReplyModeOptions::AllDecisions, AutoReplyModeOptions::MajorDecisions, AutoReplyModeOptions::NoDecisions]
}

/// Law: a `AutoReplyModeOptions` is stored as one byte, the position of its variant in the
/// declaration order; a byte past the last variant is refused.
pub proof fn law_auto_reply_mode_options_byte_is_position(input: Seq<u8>, value: AutoReplyModeOptions)
    requires
        input.len() >= 1,
    ensures
        AutoReplyModeOptions::spec_from_index(input[0]) == if input[0] < 3 {
            Some(auto_reply_mode_options_variants()[input[0] as int])
        } else {
            None
        },
        <AutoReplyModeOptions as SaveData>::spec_extent(input) == if input[0] < 3 {
            Ok::<nat, SaveError>(1)
        } else {
            Err::<nat, SaveError>(SaveError::InvalidEnumValue)
        },
        <AutoReplyModeOptions as SaveData>::spec_encodes(input, value) <==> (input[0] < 3 && auto_reply_mode_options_variants()[input[0] as int] == value),
        forall|i: int, j: int| 0 <= i < 3 && 0 <= j < 3 && i != j ==> auto_reply_mode_options_variants()[i] != auto_reply_mode_options_variants()[j],
{
}

/// How a value of type `AutoReplyModeOptions` is laid out in a save file: the bytes its reader takes
/// and the value they encode.
pub proof fn lemma_auto_reply_mode_options_layout(input: Seq<u8>, value: AutoReplyModeOptions)
    ensures
        <AutoReplyModeOptions as SaveData>::spec_extent(input) == ({
            enum_extent(input, AutoReplyModeOptions::spec_from_index(input[0]) is Some)
        }),
        <AutoReplyModeOptions as SaveData>::spec_encodes(input, value) == ({
            AutoReplyModeOptions::spec_from_index(input[0]) == Some(value)
        }),
{
}


/// A marker on the objective screen.
#[derive(Debug)]
pub struct ObjectiveMarker {
    pub marker_owned_data: ImguiString,
    pub marker_offset: Vector,
    pub marker_label: i32,
    pub bone_to_attach_to: ImguiString,
    pub marker_icon_type: ObjectiveMarkerIconType,
}

impl SaveData for ObjectiveMarker {
    closed spec fn spec_extent(input: Seq<u8>) -> Result<nat, SaveError> {
        let r0 = <ImguiString as SaveData>::spec_extent(input);
        let r1 = then_extent::<Vector>(input, r0);
        let r2 = then_extent::<i32>(input, r1);
        let r3 = then_extent::<ImguiString>(input, r2);
        let r4 = then_extent::<ObjectiveMarkerIconType>(input, r3);
        r4
    }

    closed spec fn spec_encodes(input: Seq<u8>, value: ObjectiveMarker) -> bool {
        let r0 = <ImguiString as SaveData>::spec_extent(input);
        let r1 = then_extent::<Vector>(input, r0);
        let r2 = then_extent::<i32>(input, r1);
        let r3 = then_extent::<ImguiString>(input, r2);
        &&& <ImguiString as SaveData>::spec_encodes(input, value.marker_owned_data)
        &&& <Vector as SaveData>::spec_encodes(input.skip(r0->Ok_0 as int), value.marker_offset)
        &&& <i32 as SaveData>::spec_encodes(input.skip(r1->Ok_0 as int), value.marker_label)
        &&& <ImguiString as SaveData>::spec_encodes(input.skip(r2->Ok_0 as int), value.bone_to_attach_to)
        &&& <ObjectiveMarkerIconType as SaveData>::spec_encodes(input.skip(r3->Ok_0 as int), value.marker_icon_type)
    }

    #[verifier::rlimit(50)]
    #[verifier::spinoff_prover]
    fn deserialize(cursor: &mut SaveCursor) -> (res: Result<ObjectiveMarker, SaveError>) {
        let ghost input = cursor.remaining();
        let ghost start = cursor.position();
        let marker_owned_data = match <ImguiString as SaveData>::deserialize(cursor) {
            Ok(v) => v,
            Err(e) => return Err(e),
        };
        let ghost r0 = <ImguiString as SaveData>::spec_extent(input);
        assert(r0 == Ok::<nat, SaveError>((cursor.position() - start) as nat));
        let marker_offset = match <Vector as SaveData>::deserialize(cursor) {
            Ok(v) => v,
            Err(e) => return Err(e),
        };
        let ghost r1 = then_extent::<Vector>(input, r0);
        assert(r1 == Ok::<nat, SaveError>((cursor.position() - start) as nat));
        let marker_label = match <i32 as SaveData>::deserialize(cursor) {
            Ok(v) => v,
            Err(e) => return Err(e),
        };
        let ghost r2 = then_extent::<i32>(input, r1);
        assert(r2 == Ok::<nat, SaveError>((cursor.position() - start) as nat));
        let bone_to_attach_to = match <ImguiString as SaveData>::deserialize(cursor) {
            Ok(v) => v,
            Err(e) => return Err(e),
        };
        let ghost r3 = then_extent::<ImguiString>(input, r2);
        assert(r3 == Ok::<nat, SaveError>((cursor.position() - start) as nat));
        let marker_icon_type = match <ObjectiveMarkerIconType as SaveData>::deserialize(cursor) {
            Ok(v) => v,
            Err(e) => return Err(e),
        };
        let ghost r4 = then_extent::<ObjectiveMarkerIconType>(input, r3);
        assert(r4 == Ok::<nat, SaveError>((cursor.position() - start) as nat));
        Ok(ObjectiveMarker { marker_owned_data, marker_offset, marker_label, bone_to_attach_to, marker_icon_type })
    }
}

/// How a value of type `ObjectiveMarker` is laid out in a save file: the bytes its reader takes
/// and the value they encode.
pub proof fn lemma_objective_marker_layout(input: Seq<u8>, value: ObjectiveMarker)
    ensures
        <ObjectiveMarker as SaveData>::spec_extent(input) == ({
            let r0 = <ImguiString as SaveData>::spec_extent(input);
            let r1 = then_extent::<Vector>(input, r0);
            let r2 = then_extent::<i32>(input, r1);
            let r3 = then_extent::<ImguiString>(input, r2);
            let r4 = then_extent::<ObjectiveMarkerIconType>(input, r3);
            r4
        }),
        <ObjectiveMarker as SaveData>::spec_encodes(input, value) == ({
            let r0 = <ImguiString as SaveData>::spec_extent(input);
            let r1 = then_extent::<Vector>(input, r0);
            let r2 = then_extent::<i32>(input, r1);
            let r3 = then_extent::<ImguiString>(input, r2);
            &&& <ImguiString as SaveData>::spec_encodes(input, value.marker_owned_data)
            &&& <Vector as SaveData>::spec_encodes(input.skip(r0->Ok_0 as int), value.marker_offset)
            &&& <i32 as SaveData>::spec_encodes(input.skip(r1->Ok_0 as int), value.marker_label)
            &&& <ImguiString as SaveData>::spec_encodes(input.skip(r2->Ok_0 as int), value.bone_to_attach_to)
            &&& <ObjectiveMarkerIconType as SaveData>::spec_encodes(input.skip(r3->Ok_0 as int), value.marker_icon_type)
        }),
{
}


/// The icon of an objective marker.
#[derive(Clone, Copy, Debug, PartialEq, Eq, Structural)]
pub enum ObjectiveMarkerIconType {
    NoIcon,
    Attack,
    Supply,
    Alert,
}

impl ObjectiveMarkerIconType {
    /// The variant stored as `index`, if any.
    pub open spec fn spec_from_index(index: u8) -> Option<ObjectiveMarkerIconType> {
        if index == 0 {
            Some(ObjectiveMarkerIconType::NoIcon)
        } else if index == 1 {
            Some(ObjectiveMarkerIconType::Attack)
        } else if index == 2 {
            Some(ObjectiveMarkerIconType::Supply)
        } else if index == 3 {
            Some(ObjectiveMarkerIconType::Alert)
        } else {
            None
        }
    }

    /// The variant stored as `index`, if any.
    pub fn from_index(index: u8) -> (res: Option<ObjectiveMarkerIconType>)
        ensures
            res == Self::spec_from_index(index),
    {
        if index == 0 {
            Some(ObjectiveMarkerIconType::NoIcon)
        } else if index == 1 {
            Some(ObjectiveMarkerIconType::Attack)
        } else if index == 2 {
            Some(ObjectiveMarkerIconType::Supply)
        } else if index == 3 {
            Some(ObjectiveMarkerIconType::Alert)
        } else {
            None
        }
    }
}

/// Stored as one byte, the position of the variant.
impl SaveData for ObjectiveMarkerIconType {
    closed spec fn spec_extent(input: Seq<u8>) -> Result<nat, SaveError> {
        enum_extent(input, ObjectiveMarkerIconType::spec_from_index(input[0]) is Some)
    }

    closed spec fn spec_encodes(input: Seq<u8>, value: ObjectiveMarkerIconType) -> bool {
        ObjectiveMarkerIconType::spec_from_index(input[0]) == Some(value)
    }

    fn deserialize(cursor: &mut SaveCursor) -> (res: Result<ObjectiveMarkerIconType, SaveError>) {
        let index = match <u8 as SaveData>::deserialize(cursor) {
            Ok(index) => index,
            Err(e) => return Err(e),
        };
        match ObjectiveMarkerIconType::from_index(index) {
            Some(v) => Ok(v),
            None => Err(SaveError::InvalidEnumValue),
        }
    }
}

/// The variants of `ObjectiveMarkerIconType` in the order they are declared.
pub open spec fn objective_marker_icon_type_variants() -> Seq<ObjectiveMarkerIconType> {
    seq![ObjectiveMarkerIconType::NoIcon, ObjectiveMarkerIconType::Attack, ObjectiveMarkerIconType::Supply, ObjectiveMarkerIconType::Alert]
}

/// Law: a `ObjectiveMarkerIconType` is stored as one byte, the position of its variant in the
/// declaration order; a byte past the last variant is refused.
pub proof fn law_objective_marker_icon_type_byte_is_position(input: Seq<u8>, value: ObjectiveMarkerIconType)
    requires
        input.len() >= 1,
    ensures
        ObjectiveMarkerIconType::spec_from_index(input[0]) == if input[0] < 4 {
            Some(objective_marker_icon_type_variants()[input[0] as int])
        } else {
            None
        },
        <ObjectiveMarkerIconType as SaveData>::spec_extent(input) == if input[0] < 4 {
            Ok::<nat, SaveError>(1)
        } else {
            Err::<nat, SaveError>(SaveError::InvalidEnumValue)
        },
        <ObjectiveMarkerIconType as SaveData>::spec_encodes(input, value) <==> (input[0] < 4 && objective_marker_icon_type_variants()[input[0] as int] == value),
        forall|i: int, j: int| 0 <= i < 4 && 0 <= j < 4 && i != j ==> objective_marker_icon_type_variants()[i] != objective_marker_icon_type_variants()[j],
{
}

/// How a value of type `ObjectiveMarkerIconType` is laid out in a save file: the bytes its reader takes
/// and the value they encode.
pub proof fn lemma_objective_marker_icon_type_layout(input: Seq<u8>, value: ObjectiveMarkerIconType)
    ensures
        <ObjectiveMarkerIconType as SaveData>::spec_extent(input) == ({
            enum_extent(input, ObjectiveMarkerIconType::spec_from_index(input[0]) is Some)
        }),
        <ObjectiveMarkerIconType as SaveData>::spec_encodes(input, value) == ({
            ObjectiveMarkerIconType::spec_from_index(input[0]) == Some(value)
        }),
{
}


} // verus!
