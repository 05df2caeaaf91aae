use indexmap::IndexMap;
use vstd::prelude::*;

use crate::cursor::SaveCursor;
use crate::error::SaveError;
use crate::save_data::{
    fixed_extent, item_offset, items_extent, le_i32, le_u32, lemma_items_error_persists, string_chars,
    ImguiString, SaveData,
};

verus! {

broadcast use crate::seq_lemmas::lemma_skip_skip;

/// The insertion-ordered map of the `indexmap` crate, carried as an opaque
/// value; what the library knows of a map is what the wrappers below say
/// of its entries.
#[verifier::external_type_specification]
#[verifier::external_body]
#[verifier::reject_recursive_types(K)]
#[verifier::reject_recursive_types(V)]
#[verifier::reject_recursive_types(S)]
pub struct ExIndexMap<K, V, S>(IndexMap<K, V, S>);

/// No key occurs twice among `entries`.
pub open spec fn keys_unique<K, V>(entries: Seq<(K, V)>) -> bool {
    forall|i: int, j: int|
        0 <= i < entries.len() && 0 <= j < entries.len() && i != j ==> entries[i].0 != entries[j].0
}

/// Whether `key` is among the keys of `entries`.
pub open spec fn entries_contain<K, V>(entries: Seq<(K, V)>, key: K) -> bool {
    exists|i: int| 0 <= i < entries.len() && entries[i].0 == key
}

/// The position of `key` among `entries` (meaningful where it is there).
pub open spec fn entries_index_of<K, V>(entries: Seq<(K, V)>, key: K) -> int {
    choose|i: int| 0 <= i < entries.len() && entries[i].0 == key
}

/// The value stored under `key` in `entries`, if any.
pub open spec fn entries_get<K, V>(entries: Seq<(K, V)>, key: K) -> Option<V> {
    if entries_contain(entries, key) {
        Some(entries[entries_index_of(entries, key)].1)
    } else {
        None
    }
}

/// Inserting into an insertion-ordered map: a key that is there keeps its
/// place and takes the new value; a new key goes last.
pub open spec fn entries_insert<K, V>(entries: Seq<(K, V)>, key: K, value: V) -> Seq<(K, V)> {
    if entries_contain(entries, key) {
        entries.update(entries_index_of(entries, key), (key, value))
    } else {
        entries.push((key, value))
    }
}

/// Law: inserting into a map whose keys are unique keeps them unique, and
/// the key then reads back the value written.
pub proof fn law_insert_then_get<K, V>(entries: Seq<(K, V)>, key: K, value: V)
    requires
        keys_unique(entries),
    ensures
        keys_unique(entries_insert(entries, key, value)),
        entries_contain(entries_insert(entries, key, value), key),
        entries_get(entries_insert(entries, key, value), key) == Some(value),
{
    let r = entries_insert(entries, key, value);
    if entries_contain(entries, key) {
        let k = entries_index_of(entries, key);
        assert(r[k].0 == key);
    } else {
        assert(r[entries.len() as int].0 == key);
    }
    let k = entries_index_of(r, key);
    assert(r[k].0 == key);
}

// ---------------------------------------------------------------------------
// Maps from plot ids to integers.

/// The entries of an `IndexMap<i32, i32>`, in the map's order.
pub uninterp spec fn int_map_entries(map: IndexMap<i32, i32>) -> Seq<(i32, i32)>;

/// Calls `IndexMap::new`; trusted to give a map with no entries.
#[verifier::external_body]
pub fn int_map_new() -> (map: IndexMap<i32, i32>)
    ensures
        int_map_entries(map) == Seq::<(i32, i32)>::empty(),
{
    IndexMap::new()
}

/// Calls `IndexMap::insert`; trusted, as the crate documents, to keep a
/// key that is there at its place with the new value, and to put a new key
/// last; no key of a map occurs twice.
#[verifier::external_body]
pub fn int_map_insert(map: &mut IndexMap<i32, i32>, key: i32, value: i32)
    ensures
        int_map_entries(*final(map)) == entries_insert(int_map_entries(*old(map)), key, value),
        keys_unique(int_map_entries(*final(map))),
{
    map.insert(key, value);
}

/// Calls `IndexMap::get`; trusted to give the value stored under `key`.
#[verifier::external_body]
pub fn int_map_get(map: &IndexMap<i32, i32>, key: i32) -> (res: Option<i32>)
    ensures
        res == entries_get(int_map_entries(*map), key),
{
    map.get(&key).copied()
}

/// Calls `IndexMap::len`; trusted to give the number of entries.
#[verifier::external_body]
pub fn int_map_len(map: &IndexMap<i32, i32>) -> (len: usize)
    ensures
        len == int_map_entries(*map).len(),
{
    map.len()
}

/// Calls `IndexMap::get_index`; trusted to give the entry at position
/// `index`, none past the end.
#[verifier::external_body]
pub fn int_map_get_index(map: &IndexMap<i32, i32>, index: usize) -> (res: Option<(i32, i32)>)
    ensures
        index < int_map_entries(*map).len() ==> res == Some(int_map_entries(*map)[index as int]),
        index >= int_map_entries(*map).len() ==> res is None,
{
    map.get_index(index).map(|(k, v)| (*k, *v))
}

/// The entries that inserting the first `count` pairs of `body` (each an
/// `i32` key then an `i32` value) into an empty map gives.
#[verifier::opaque]
pub open spec fn inserted_int_pairs(body: Seq<u8>, count: nat) -> Seq<(i32, i32)>
    decreases count,
{
    if count == 0 {
        Seq::empty()
    } else {
        let pair = body.skip(8 * (count - 1));
        entries_insert(
            inserted_int_pairs(body, (count - 1) as nat),
            le_i32(pair) as i32,
            le_i32(pair.skip(4)) as i32,
        )
    }
}

/// Law: a map read from plot-id/integer pairs never holds a key twice.
pub proof fn law_int_pairs_keys_unique(body: Seq<u8>, count: nat)
    ensures
        keys_unique(inserted_int_pairs(body, count)),
    decreases count,
{
    reveal_with_fuel(inserted_int_pairs, 1);
    if count > 0 {
        let pair = body.skip(8 * (count - 1));
        law_int_pairs_keys_unique(body, (count - 1) as nat);
        law_insert_then_get(
            inserted_int_pairs(body, (count - 1) as nat),
            le_i32(pair) as i32,
            le_i32(pair.skip(4)) as i32,
        );
    }
}

/// A map from plot ids to integers: a 32-bit count, then `(key, value)` pairs
/// of 32-bit signed numbers, inserted in order (a repeated key takes the
/// last value but keeps its first place).
impl SaveData for IndexMap<i32, i32> {
    open spec fn spec_extent(input: Seq<u8>) -> Result<nat, SaveError> {
        if input.len() < 4 {
            Err(SaveError::UnexpectedEndOfFile)
        } else {
            fixed_extent(input, (4 + 8 * le_u32(input)) as nat)
        }
    }

    open spec fn spec_encodes(input: Seq<u8>, value: IndexMap<i32, i32>) -> bool {
        int_map_entries(value) == inserted_int_pairs(input.skip(4), le_u32(input) as nat)
    }

    fn deserialize(cursor: &mut SaveCursor) -> (res: Result<IndexMap<i32, i32>, SaveError>)
        ensures
            res matches Ok(m) ==> keys_unique(int_map_entries(m)),
    {
        let ghost input = cursor.remaining();
        let count = match <u32 as SaveData>::deserialize(cursor) {
            Ok(count) => count,
            Err(e) => return Err(e),
        };
        let ghost body = input.skip(4);
        let ghost base = cursor.position();
        if count as usize > (cursor.remaining_len()) / 8 {
            return Err(SaveError::UnexpectedEndOfFile);
        }
        let mut map = int_map_new();
        proof {
            reveal_with_fuel(inserted_int_pairs, 1);
        }
        let mut i: u32 = 0;
        while i < count
            invariant
                i <= count,
                count * 8 <= body.len(),
                cursor.wf(),
                cursor.bytes() == old(cursor).bytes(),
                input == old(cursor).remaining(),
                body == input.skip(4),
                base == old(cursor).position() + 4,
                count == le_u32(input),
                cursor.position() == base + 8 * i,
                int_map_entries(map) == inserted_int_pairs(body, i as nat),
            decreases count - i,
        {
            let key = match <i32 as SaveData>::deserialize(cursor) {
                Ok(key) => key,
                Err(e) => return Err(e),
            };
            let value = match <i32 as SaveData>::deserialize(cursor) {
                Ok(value) => value,
                Err(e) => return Err(e),
            };
            int_map_insert(&mut map, key, value);
            proof {
                reveal_with_fuel(inserted_int_pairs, 1);
            }
            i = i + 1;
        }
        proof {
            law_int_pairs_keys_unique(body, count as nat);
        }
        Ok(map)
    }
}

// ---------------------------------------------------------------------------
// Maps from plot ids to floating-point numbers (held as bit patterns).

/// The entries of an `IndexMap<i32, u32>`, in the map's order.
pub uninterp spec fn float_map_entries(map: IndexMap<i32, u32>) -> Seq<(i32, u32)>;

/// Calls `IndexMap::new`; trusted to give a map with no entries.
#[verifier::external_body]
pub fn float_map_new() -> (map: IndexMap<i32, u32>)
    ensures
        float_map_entries(map) == Seq::<(i32, u32)>::empty(),
{
    IndexMap::new()
}

/// Calls `IndexMap::insert`; trusted, as the crate documents, to keep a
/// key that is there at its place with the new value, and to put a new key
/// last; no key of a map occurs twice.
#[verifier::external_body]
pub fn float_map_insert(map: &mut IndexMap<i32, u32>, key: i32, value: u32)
    ensures
        float_map_entries(*final(map)) == entries_insert(float_map_entries(*old(map)), key, value),
        keys_unique(float_map_entries(*final(map))),
{
    map.insert(key, value);
}

/// Calls `IndexMap::get`; trusted to give the value stored under `key`.
#[verifier::external_body]
pub fn float_map_get(map: &IndexMap<i32, u32>, key: i32) -> (res: Option<u32>)
    ensures
        res == entries_get(float_map_entries(*map), key),
{
    map.get(&key).copied()
}

/// Calls `IndexMap::len`; trusted to give the number of entries.
#[verifier::external_body]
pub fn float_map_len(map: &IndexMap<i32, u32>) -> (len: usize)
    ensures
        len == float_map_entries(*map).len(),
{
    map.len()
}

/// Calls `IndexMap::get_index`; trusted to give the entry at position
/// `index`, none past the end.
#[verifier::external_body]
pub fn float_map_get_index(map: &IndexMap<i32, u32>, index: usize) -> (res: Option<(i32, u32)>)
    ensures
        index < float_map_entries(*map).len() ==> res == Some(float_map_entries(*map)[index as int]),
        index >= float_map_entries(*map).len() ==> res is None,
{
    map.get_index(index).map(|(k, v)| (*k, *v))
}

/// The entries that inserting the first `count` pairs of `body` (each an
/// `i32` key then the bits of an `f32` value) into an empty map gives.
pub open spec fn inserted_float_pairs(body: Seq<u8>, count: nat) -> Seq<(i32, u32)>
    decreases count,
{
    if count == 0 {
        Seq::empty()
    } else {
        let pair = body.skip(8 * (count - 1));
        entries_insert(
            inserted_float_pairs(body, (count - 1) as nat),
            le_i32(pair) as i32,
            le_u32(pair.skip(4)) as u32,
        )
    }
}

/// Law: a map read from plot-id/float pairs never holds a key twice.
pub proof fn law_float_pairs_keys_unique(body: Seq<u8>, count: nat)
    ensures
        keys_unique(inserted_float_pairs(body, count)),
    decreases count,
{
    if count > 0 {
        let pair = body.skip(8 * (count - 1));
        law_float_pairs_keys_unique(body, (count - 1) as nat);
        law_insert_then_get(
            inserted_float_pairs(body, (count - 1) as nat),
            le_i32(pair) as i32,
            le_u32(pair.skip(4)) as u32,
        );
    }
}

/// A map from plot ids to floating-point numbers: a 32-bit count, then `(key, value)` pairs
/// of a 32-bit signed key and the bits of a 32-bit float, inserted in order (a repeated key takes the
/// last value but keeps its first place).
impl SaveData for IndexMap<i32, u32> {
    open spec fn spec_extent(input: Seq<u8>) -> Result<nat, SaveError> {
        if input.len() < 4 {
            Err(SaveError::UnexpectedEndOfFile)
        } else {
            fixed_extent(input, (4 + 8 * le_u32(input)) as nat)
        }
    }

    open spec fn spec_encodes(input: Seq<u8>, value: IndexMap<i32, u32>) -> bool {
        float_map_entries(value) == inserted_float_pairs(input.skip(4), le_u32(input) as nat)
    }

    fn deserialize(cursor: &mut SaveCursor) -> (res: Result<IndexMap<i32, u32>, SaveError>)
        ensures
            res matches Ok(m) ==> keys_unique(float_map_entries(m)),
    {
        let ghost input = cursor.remaining();
        let count = match <u32 as SaveData>::deserialize(cursor) {
            Ok(count) => count,
            Err(e) => return Err(e),
        };
        let ghost body = input.skip(4);
        let ghost base = cursor.position();
        if count as usize > (cursor.remaining_len()) / 8 {
            return Err(SaveError::UnexpectedEndOfFile);
        }
        let mut map = float_map_new();
        let mut i: u32 = 0;
        while i < count
            invariant
                i <= count,
                count * 8 <= body.len(),
                cursor.wf(),
                cursor.bytes() == old(cursor).bytes(),
                input == old(cursor).remaining(),
                body == input.skip(4),
                base == old(cursor).position() + 4,
                count == le_u32(input),
                cursor.position() == base + 8 * i,
                float_map_entries(map) == inserted_float_pairs(body, i as nat),
            decreases count - i,
        {
            let key = match <i32 as SaveData>::deserialize(cursor) {
                Ok(key) => key,
                Err(e) => return Err(e),
            };
            let value = match <u32 as SaveData>::deserialize(cursor) {
                Ok(value) => value,
                Err(e) => return Err(e),
            };
            float_map_insert(&mut map, key, value);
            i = i + 1;
        }
        proof {
            law_float_pairs_keys_unique(body, count as nat);
        }
        Ok(map)
    }
}

// ---------------------------------------------------------------------------
// Maps from variable names to integers.

/// The entries of an `IndexMap<String, i32>`, keys taken as characters, in the
/// map's order.
pub uninterp spec fn name_map_entries(map: IndexMap<String, i32>) -> Seq<(Seq<char>, i32)>;

/// Calls `IndexMap::new`; trusted to give a map with no entries.
#[verifier::external_body]
pub fn name_map_new() -> (map: IndexMap<String, i32>)
    ensures
        name_map_entries(map) == Seq::<(Seq<char>, i32)>::empty(),
{
    IndexMap::new()
}

/// Calls `IndexMap::insert`; trusted, as the crate documents, to keep a
/// key that is there at its place with the new value, and to put a new key
/// last; no key of a map occurs twice.
#[verifier::external_body]
pub fn name_map_insert(map: &mut IndexMap<String, i32>, key: String, value: i32)
    ensures
        name_map_entries(*final(map)) == entries_insert(name_map_entries(*old(map)), key@, value),
        keys_unique(name_map_entries(*final(map))),
{
    map.insert(key, value);
}

/// Calls `IndexMap::len`; trusted to give the number of entries.
#[verifier::external_body]
pub fn name_map_len(map: &IndexMap<String, i32>) -> (len: usize)
    ensures
        len == name_map_entries(*map).len(),
{
    map.len()
}

/// Whether `found` holds the entry `entry`, its key taken as characters.
pub open spec fn is_entry(found: Option<(String, i32)>, entry: (Seq<char>, i32)) -> bool {
    match found {
        Some((key, value)) => key@ == entry.0 && value == entry.1,
        None => false,
    }
}

/// Calls `IndexMap::get_index` and copies the key out; trusted to give the
/// entry at position `index`, none past the end.
#[verifier::external_body]
pub fn name_map_get_index(map: &IndexMap<String, i32>, index: usize) -> (res: Option<(String, i32)>)
    ensures
        index < name_map_entries(*map).len() ==> is_entry(res, name_map_entries(*map)[index as int]),
        index >= name_map_entries(*map).len() ==> res is None,
{
    map.get_index(index).map(|(k, v)| (k.clone(), *v))
}

/// One entry of a name map as stored: a string, then an `i32`.
pub struct NamedValue {
    pub name: ImguiString,
    pub value: i32,
}

impl SaveData for NamedValue {
    open spec fn spec_extent(input: Seq<u8>) -> Result<nat, SaveError> {
        crate::save_data::then_extent::<i32>(input, ImguiString::spec_extent(input))
    }

    open spec fn spec_encodes(input: Seq<u8>, value: NamedValue) -> bool {
        &&& ImguiString::spec_encodes(input, value.name)
        &&& i32::spec_encodes(input.skip(ImguiString::spec_extent(input)->Ok_0 as int), value.value)
    }

    fn deserialize(cursor: &mut SaveCursor) -> (res: Result<NamedValue, SaveError>) {
        let name = match ImguiString::deserialize(cursor) {
            Ok(name) => name,
            Err(e) => return Err(e),
        };
        let value = match <i32 as SaveData>::deserialize(cursor) {
            Ok(value) => value,
            Err(e) => return Err(e),
        };
        Ok(NamedValue { name, value })
    }
}

/// The entries that inserting the first `count` named values stored in `body`
/// into an empty map gives.
pub open spec fn inserted_named_values(body: Seq<u8>, count: nat) -> Seq<(Seq<char>, i32)>
    decreases count,
{
    if count == 0 {
        Seq::empty()
    } else {
        let item = body.skip(item_offset::<NamedValue>(body, (count - 1) as nat));
        entries_insert(
            inserted_named_values(body, (count - 1) as nat),
            string_chars(item),
            le_i32(item.skip(ImguiString::spec_extent(item)->Ok_0 as int)) as i32,
        )
    }
}

/// Law: a map read from named values never holds a name twice.
pub proof fn law_named_values_keys_unique(body: Seq<u8>, count: nat)
    ensures
        keys_unique(inserted_named_values(body, count)),
    decreases count,
{
    if count > 0 {
        let item = body.skip(item_offset::<NamedValue>(body, (count - 1) as nat));
        law_named_values_keys_unique(body, (count - 1) as nat);
        law_insert_then_get(
            inserted_named_values(body, (count - 1) as nat),
            string_chars(item),
            le_i32(item.skip(ImguiString::spec_extent(item)->Ok_0 as int)) as i32,
        );
    }
}

/// A map from variable names to integers: a 32-bit count, then that many
/// string keys each followed by an `i32` value, inserted in order.
impl SaveData for IndexMap<String, i32> {
    open spec fn spec_extent(input: Seq<u8>) -> Result<nat, SaveError> {
        if input.len() < 4 {
            Err(SaveError::UnexpectedEndOfFile)
        } else {
            match items_extent::<NamedValue>(input.skip(4), le_u32(input) as nat) {
                Ok(n) => Ok(4 + n),
                Err(e) => Err(e),
            }
        }
    }

    open spec fn spec_encodes(input: Seq<u8>, value: IndexMap<String, i32>) -> bool {
        name_map_entries(value) == inserted_named_values(input.skip(4), le_u32(input) as nat)
    }

    fn deserialize(cursor: &mut SaveCursor) -> (res: Result<IndexMap<String, i32>, SaveError>)
        ensures
            res matches Ok(m) ==> keys_unique(name_map_entries(m)),
    {
        let ghost input = cursor.remaining();
        let count = match <u32 as SaveData>::deserialize(cursor) {
            Ok(count) => count,
            Err(e) => return Err(e),
        };
        let ghost body = input.skip(4);
        let ghost base = cursor.position();
        let mut map = name_map_new();
        let mut i: u32 = 0;
        while i < count
            invariant
                i <= count,
                cursor.wf(),
                cursor.bytes() == old(cursor).bytes(),
                input == old(cursor).remaining(),
                body == input.skip(4),
                base == old(cursor).position() + 4,
                count == le_u32(input),
                base <= cursor.position(),
                items_extent::<NamedValue>(body, i as nat) == Ok::<nat, SaveError>(
                    (cursor.position() - base) as nat,
                ),
                name_map_entries(map) == inserted_named_values(body, i as nat),
            decreases count - i,
        {
            let item = match NamedValue::deserialize(cursor) {
                Ok(item) => item,
                Err(e) => {
                    proof {
                        lemma_items_error_persists::<NamedValue>(body, (i + 1) as nat, count as nat);
                    }
                    return Err(e);
                },
            };
            name_map_insert(&mut map, item.name.text, item.value);
            i = i + 1;
        }
        proof {
            law_named_values_keys_unique(body, count as nat);
        }
        Ok(map)
    }
}

} // verus!
