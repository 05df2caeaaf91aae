use vstd::prelude::*;

use crate::cursor::SaveCursor;
use crate::error::SaveError;
use crate::save_data::{then_extent, Float32, SaveData};

verus! {

broadcast use crate::seq_lemmas::lemma_skip_skip;

/// The state of the galaxy map.
#[derive(Debug)]
pub struct GalaxyMap {
    pub planets: Vec<Planet>,
    pub systems: Vec<System>,
}

impl SaveData for GalaxyMap {
    closed spec fn spec_extent(input: Seq<u8>) -> Result<nat, SaveError> {
        let r0 = <Vec<Planet> as SaveData>::spec_extent(input);
        let r1 = then_extent::<Vec<System>>(input, r0);
        r1
    }

    closed spec fn spec_encodes(input: Seq<u8>, value: GalaxyMap) -> bool {
        let r0 = <Vec<Planet> as SaveData>::spec_extent(input);
        &&& <Vec<Planet> as SaveData>::spec_encodes(input, value.planets)
        &&& <Vec<System> as SaveData>::spec_encodes(input.skip(r0->Ok_0 as int), value.systems)
    }

    fn deserialize(cursor: &mut SaveCursor) -> (res: Result<GalaxyMap, SaveError>) {
        let ghost input = cursor.remaining();
        let ghost start = cursor.position();
        let planets = match <Vec<Planet> as SaveData>::deserialize(cursor) {
            Ok(v) => v,
            Err(e) => return Err(e),
        };
        let ghost r0 = <Vec<Planet> as SaveData>::spec_extent(input);
        assert(r0 == Ok::<nat, SaveError>((cursor.position() - start) as nat));
        let systems = match <Vec<System> as SaveData>::deserialize(cursor) {
            Ok(v) => v,
            Err(e) => return Err(e),
        };
        let ghost r1 = then_extent::<Vec<System>>(input, r0);
        assert(r1 == Ok::<nat, SaveError>((cursor.position() - start) as nat));
        Ok(GalaxyMap { planets, systems })
    }
}

/// How a value of type `GalaxyMap` is laid out in a save file: the bytes its reader takes
/// and the value they encode.
pub proof fn lemma_galaxy_map_layout(input: Seq<u8>, value: GalaxyMap)
    ensures
        <GalaxyMap as SaveData>::spec_extent(input) == ({
            let r0 = <Vec<Planet> as SaveData>::spec_extent(input);
            let r1 = then_extent::<Vec<System>>(input, r0);
            r1
        }),
        <GalaxyMap as SaveData>::spec_encodes(input, value) == ({
            let r0 = <Vec<Planet> as SaveData>::spec_extent(input);
            &&& <Vec<Planet> as SaveData>::spec_encodes(input, value.planets)
            &&& <Vec<System> as SaveData>::spec_encodes(input.skip(r0->Ok_0 as int), value.systems)
        }),
{
}


/// A planet of the galaxy map.
#[derive(Debug)]
pub struct Planet {
    pub id: i32,
    pub visited: bool,
    pub probes: Vec<Vector2d>,
    pub show_as_scanned: bool,
}

impl SaveData for Planet {
    closed spec fn spec_extent(input: Seq<u8>) -> Result<nat, SaveError> {
        let r0 = <i32 as SaveData>::spec_extent(input);
        let r1 = then_extent::<bool>(input, r0);
        let r2 = then_extent::<Vec<Vector2d>>(input, r1);
        let r3 = then_extent::<bool>(input, r2);
        r3
    }

    closed spec fn spec_encodes(input: Seq<u8>, value: Planet) -> bool {
        let r0 = <i32 as SaveData>::spec_extent(input);
        let r1 = then_extent::<bool>(input, r0);
        let r2 = then_extent::<Vec<Vector2d>>(input, r1);
        &&& <i32 as SaveData>::spec_encodes(input, value.id)
        &&& <bool as SaveData>::spec_encodes(input.skip(r0->Ok_0 as int), value.visited)
        &&& <Vec<Vector2d> as SaveData>::spec_encodes(input.skip(r1->Ok_0 as int), value.probes)
        &&& <bool as SaveData>::spec_encodes(input.skip(r2->Ok_0 as int), value.show_as_scanned)
    }

    fn deserialize(cursor: &mut SaveCursor) -> (res: Result<Planet, SaveError>) {
        let ghost input = cursor.remaining();
        let ghost start = cursor.position();
        let id = match <i32 as SaveData>::deserialize(cursor) {
            Ok(v) => v,
            Err(e) => return Err(e),
        };
        let ghost r0 = <i32 as SaveData>::spec_extent(input);
        assert(r0 == Ok::<nat, SaveError>((cursor.position() - start) as nat));
        let visited = match <bool as SaveData>::deserialize(cursor) {
            Ok(v) => v,
            Err(e) => return Err(e),
        };
        let ghost r1 = then_extent::<bool>(input, r0);
        assert(r1 == Ok::<nat, SaveError>((cursor.position() - start) as nat));
        let probes = match <Vec<Vector2d> as SaveData>::deserialize(cursor) {
            Ok(v) => v,
            Err(e) => return Err(e),
        };
        let ghost r2 = then_extent::<Vec<Vector2d>>(input, r1);
        assert(r2 == Ok::<nat, SaveError>((cursor.position() - start) as nat));
        let show_as_scanned = match <bool as SaveData>::deserialize(cursor) {
            Ok(v) => v,
            Err(e) => return Err(e),
        };
        let ghost r3 = then_extent::<bool>(input, r2);
        assert(r3 == Ok::<nat, SaveError>((cursor.position() - start) as nat));
        Ok(Planet { id, visited, probes, show_as_scanned })
    }
}

/// How a value of type `Planet` is laid out in a save file: the bytes its reader takes
/// and the value they encode.
pub proof fn lemma_planet_layout(input: Seq<u8>, value: Planet)
    ensures
        <Planet as SaveData>::spec_extent(input) == ({
            let r0 = <i32 as SaveData>::spec_extent(input);
            let r1 = then_extent::<bool>(input, r0);
            let r2 = then_extent::<Vec<Vector2d>>(input, r1);
            let r3 = then_extent::<bool>(input, r2);
            r3
        }),
        <Planet as SaveData>::spec_encodes(input, value) == ({
            let r0 = <i32 as SaveData>::spec_extent(input);
            let r1 = then_extent::<bool>(input, r0);
            let r2 = then_extent::<Vec<Vector2d>>(input, r1);
            &&& <i32 as SaveData>::spec_encodes(input, value.id)
            &&& <bool as SaveData>::spec_encodes(input.skip(r0->Ok_0 as int), value.visited)
            &&& <Vec<Vector2d> as SaveData>::spec_encodes(input.skip(r1->Ok_0 as int), value.probes)
            &&& <bool as SaveData>::spec_encodes(input.skip(r2->Ok_0 as int), value.show_as_scanned)
        }),
{
}


/// A star system of the galaxy map.
#[derive(Debug)]
pub struct System {
    pub id: i32,
    pub reaper_alert_level: Float32,
    pub reaper_detected: bool,
}

impl SaveData for System {
    closed spec fn spec_extent(input: Seq<u8>) -> Result<nat, SaveError> {
        let r0 = <i32 as SaveData>::spec_extent(input);
        let r1 = then_extent::<Float32>(input, r0);
        let r2 = then_extent::<bool>(input, r1);
        r2
    }

    closed spec fn spec_encodes(input: Seq<u8>, value: System) -> bool {
        let r0 = <i32 as SaveData>::spec_extent(input);
        let r1 = then_extent::<Float32>(input, r0);
        &&& <i32 as SaveData>::spec_encodes(input, value.id)
        &&& <Float32 as SaveData>::spec_encodes(input.skip(r0->Ok_0 as int), value.reaper_alert_level)
        &&& <bool as SaveData>::spec_encodes(input.skip(r1->Ok_0 as int), value.reaper_detected)
    }

    fn deserialize(cursor: &mut SaveCursor) -> (res: Result<System, SaveError>) {
        let ghost input = cursor.remaining();
        let ghost start = cursor.position();
        let id = match <i32 as SaveData>::deserialize(cursor) {
            Ok(v) => v,
            Err(e) => return Err(e),
        };
        let ghost r0 = <i32 as SaveData>::spec_extent(input);
        assert(r0 == Ok::<nat, SaveError>((cursor.position() - start) as nat));
        let reaper_alert_level = match <Float32 as SaveData>::deserialize(cursor) {
            Ok(v) => v,
            Err(e) => return Err(e),
        };
        let ghost r1 = then_extent::<Float32>(input, r0);
        assert(r1 == Ok::<nat, SaveError>((cursor.position() - start) as nat));
        let reaper_detected = match <bool as SaveData>::deserialize(cursor) {
            Ok(v) => v,
            Err(e) => return Err(e),
        };
        let ghost r2 = then_extent::<bool>(input, r1);
        assert(r2 == Ok::<nat, SaveError>((cursor.position() - start) as nat));
        Ok(System { id, reaper_alert_level, reaper_detected })
    }
}

/// How a value of type `System` is laid out in a save file: the bytes its reader takes
/// and the value they encode.
pub proof fn lemma_system_layout(input: Seq<u8>, value: System)
    ensures
        <System as SaveData>::spec_extent(input) == ({
            let r0 = <i32 as SaveData>::spec_extent(input);
            let r1 = then_extent::<Float32>(input, r0);
            let r2 = then_extent::<bool>(input, r1);
            r2
        }),
        <System as SaveData>::spec_encodes(input, value) == ({
            let r0 = <i32 as SaveData>::spec_extent(input);
            let r1 = then_extent::<Float32>(input, r0);
            &&& <i32 as SaveData>::spec_encodes(input, value.id)
            &&& <Float32 as SaveData>::spec_encodes(input.skip(r0->Ok_0 as int), value.reaper_alert_level)
            &&& <bool as SaveData>::spec_encodes(input.skip(r1->Ok_0 as int), value.reaper_detected)
        }),
{
}


/// A point on the galaxy map.
#[derive(Debug)]
pub struct Vector2d {
    pub x: Float32,
    pub y: Float32,
}

impl SaveData for Vector2d {
    closed spec fn spec_extent(input: Seq<u8>) -> Result<nat, SaveError> {
        let r0 = <Float32 as SaveData>::spec_extent(input);
        let r1 = then_extent::<Float32>(input, r0);
        r1
    }

    closed spec fn spec_encodes(input: Seq<u8>, value: Vector2d) -> bool {
        let r0 = <Float32 as SaveData>::spec_extent(input);
        &&& <Float32 as SaveData>::spec_encodes(input, value.x)
        &&& <Float32 as SaveData>::spec_encodes(input.skip(r0->Ok_0 as int), value.y)
    }

    fn deserialize(cursor: &mut SaveCursor) -> (res: Result<Vector2d, SaveError>) {
        let ghost input = cursor.remaining();
        let ghost start = cursor.position();
        let x = match <Float32 as SaveData>::deserialize(cursor) {
            Ok(v) => v,
            Err(e) => return Err(e),
        };
        let ghost r0 = <Float32 as SaveData>::spec_extent(input);
        assert(r0 == Ok::<nat, SaveError>((cursor.position() - start) as nat));
        let y = match <Float32 as SaveData>::deserialize(cursor) {
            Ok(v) => v,
            Err(e) => return Err(e),
        };
        let ghost r1 = then_extent::<Float32>(input, r0);
        assert(r1 == Ok::<nat, SaveError>((cursor.position() - start) as nat));
        Ok(Vector2d { x, y })
    }
}

/// How a value of type `Vector2d` is laid out in a save file: the bytes its reader takes
/// and the value they encode.
pub proof fn lemma_vector2d_layout(input: Seq<u8>, value: Vector2d)
    ensures
        <Vector2d as SaveData>::spec_extent(input) == ({
            let r0 = <Float32 as SaveData>::spec_extent(input);
            let r1 = then_extent::<Float32>(input, r0);
            r1
        }),
        <Vector2d as SaveData>::spec_encodes(input, value) == ({
            let r0 = <Float32 as SaveData>::spec_extent(input);
            &&& <Float32 as SaveData>::spec_encodes(input, value.x)
            &&& <Float32 as SaveData>::spec_encodes(input.skip(r0->Ok_0 as int), value.y)
        }),
{
}


} // verus!
