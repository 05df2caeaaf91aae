use indexmap::IndexMap;
use trilogy_save::cursor::SaveCursor;
use trilogy_save::error::SaveError;
use trilogy_save::mass_effect_3::variables::BitArray;
use trilogy_save::mass_effect_3::{Checksum, Me3SaveGame, Version};
use trilogy_save::save_data::{Dummy, ImguiString, SaveData};

fn cursor(bytes: &[u8]) -> SaveCursor {
    SaveCursor::new(bytes.to_vec())
}

#[test]
fn cursor_reads_in_order() {
    let mut c = cursor(&[1, 2, 3, 4, 5]);
    assert_eq!(c.read(2).unwrap(), &[1, 2]);
    assert_eq!(c.read(2).unwrap(), &[3, 4]);
    assert_eq!(c.current_position(), 4);
    assert_eq!(c.read_to_end().unwrap(), &[5]);
    assert_eq!(c.remaining_len(), 0);
}

#[test]
fn cursor_read_past_end_fails_in_place() {
    let mut c = cursor(&[1, 2, 3]);
    assert_eq!(c.read(4), Err(SaveError::UnexpectedEndOfFile));
    assert_eq!(c.current_position(), 0);
    assert_eq!(c.read(3).unwrap(), &[1, 2, 3]);
}

#[test]
fn consecutive_reads_match_one_read() {
    let data = [9u8, 8, 7, 6, 5, 4];
    let mut a = cursor(&data);
    let mut first = a.read(2).unwrap().to_vec();
    first.extend_from_slice(a.read(3).unwrap());
    let mut b = cursor(&data);
    assert_eq!(first, b.read(5).unwrap().to_vec());
    assert_eq!(a.current_position(), b.current_position());
}

#[test]
fn integers_are_little_endian() {
    let mut c = cursor(&[0x78, 0x56, 0x34, 0x12, 0xff, 0xff, 0xff, 0xff]);
    assert_eq!(u32::deserialize(&mut c), Ok(0x1234_5678));
    assert_eq!(i32::deserialize(&mut c), Ok(-1));
    assert_eq!(u32::deserialize(&mut c), Err(SaveError::UnexpectedEndOfFile));
}

#[test]
fn booleans_take_four_bytes() {
    let mut c = cursor(&[0, 0, 0, 0, 2, 0, 0, 0]);
    assert_eq!(bool::deserialize(&mut c), Ok(false));
    assert_eq!(bool::deserialize(&mut c), Ok(true));
    assert_eq!(c.current_position(), 8);
}

#[test]
fn windows_1252_string() {
    let mut c = cursor(&[3, 0, 0, 0, b'a', 0xe9, b'z', 1]);
    let s = ImguiString::deserialize(&mut c).unwrap();
    assert_eq!(s.text, "aéz");
    assert_eq!(c.current_position(), 7);
}

#[test]
fn utf16_string_with_negative_length() {
    let mut c = cursor(&[0xfe, 0xff, 0xff, 0xff, b'h', 0, b'i', 0]);
    let s = ImguiString::deserialize(&mut c).unwrap();
    assert_eq!(s.text, "hi");
    assert_eq!(c.current_position(), 8);
}

#[test]
fn empty_string() {
    let mut c = cursor(&[0, 0, 0, 0]);
    assert_eq!(ImguiString::deserialize(&mut c).unwrap().text, "");
}

#[test]
fn truncated_string_fails() {
    let mut c = cursor(&[5, 0, 0, 0, b'a']);
    assert_eq!(ImguiString::deserialize(&mut c).err(), Some(SaveError::UnexpectedEndOfFile));
}

#[test]
fn oversized_utf16_length_fails() {
    let len: i32 = -0x4000_0000;
    let mut c = cursor(&len.to_le_bytes());
    assert_eq!(ImguiString::deserialize(&mut c).err(), Some(SaveError::LengthOverflow));
}

#[test]
fn malformed_utf16_fails() {
    // A lone high surrogate.
    let mut c = cursor(&[0xff, 0xff, 0xff, 0xff, 0x00, 0xd8]);
    assert_eq!(ImguiString::deserialize(&mut c).err(), Some(SaveError::Utf16Decoding));
}

#[test]
fn dummy_keeps_its_bytes() {
    let mut c = cursor(&[1, 2, 3, 4, 5]);
    let d = Dummy::<4>::deserialize(&mut c).unwrap();
    assert_eq!(d.bytes(), &[1, 2, 3, 4]);
    assert_eq!(c.current_position(), 4);
    assert_eq!(Dummy::<4>::zeroed().bytes(), &[0, 0, 0, 0]);
    let mut short = cursor(&[1, 2]);
    assert!(Dummy::<4>::deserialize(&mut short).is_err());
}

#[test]
fn list_of_integers() {
    let mut c = cursor(&[2, 0, 0, 0, 7, 0, 0, 0, 9, 0, 0, 0]);
    assert_eq!(Vec::<u32>::deserialize(&mut c), Ok(vec![7, 9]));
    let mut short = cursor(&[3, 0, 0, 0, 7, 0, 0, 0]);
    assert_eq!(Vec::<u32>::deserialize(&mut short), Err(SaveError::UnexpectedEndOfFile));
}

#[test]
fn version_must_be_supported() {
    let mut ok = cursor(&59i32.to_le_bytes());
    assert_eq!(Version::deserialize(&mut ok), Ok(Version(59)));
    let mut wrong = cursor(&58i32.to_le_bytes());
    assert_eq!(Version::deserialize(&mut wrong), Err(SaveError::WrongVersion));
}

#[test]
fn bit_array_flags_from_lowest_bit() {
    let mut c = cursor(&[2, 0, 0, 0, 0b0000_0101, 0, 0, 0x80, 1, 0, 0, 0]);
    let bits = BitArray::deserialize(&mut c).unwrap();
    assert_eq!(bits.variables.len(), 64);
    assert!(bits.variables[0]);
    assert!(!bits.variables[1]);
    assert!(bits.variables[2]);
    assert!(bits.variables[31]);
    assert!(bits.variables[32]);
    assert!(!bits.variables[33]);
    assert_eq!(bits.variables.iter().filter(|b| **b).count(), 4);
}

#[test]
fn bit_array_with_missing_words_fails() {
    let mut c = cursor(&[2, 0, 0, 0, 1, 0, 0, 0]);
    assert!(BitArray::deserialize(&mut c).is_err());
}

/// A Mass Effect 3 save of version 59 whose every other field is empty.
pub fn empty_save_bytes() -> Vec<u8> {
    let mut bytes = 59i32.to_le_bytes().to_vec();
    bytes.extend(std::iter::repeat(0u8).take(4096));
    bytes
}

#[test]
fn empty_save_game_reads() {
    let mut c = SaveCursor::new(empty_save_bytes());
    let save = Me3SaveGame::deserialize(&mut c).unwrap();
    assert_eq!(save.version, Version(59));
    assert_eq!(save.player.class_name.text, "");
    assert!(!save.player.is_female);
    assert_eq!(save.plot.bool_variables.variables.len(), 0);
    assert!(c.current_position() < 4100);
}

#[test]
fn save_game_of_another_version_is_refused() {
    let mut bytes = empty_save_bytes();
    bytes[0] = 58;
    let mut c = SaveCursor::new(bytes);
    assert_eq!(Me3SaveGame::deserialize(&mut c).err(), Some(SaveError::WrongVersion));
}

#[test]
fn truncated_save_game_is_refused() {
    let mut c = SaveCursor::new(59i32.to_le_bytes().to_vec());
    assert_eq!(Me3SaveGame::deserialize(&mut c).err(), Some(SaveError::UnexpectedEndOfFile));
}

#[test]
fn integer_map_keeps_first_place_and_last_value() {
    let mut bytes = vec![3, 0, 0, 0];
    for (k, v) in [(5i32, 1i32), (2, 7), (5, 9)] {
        bytes.extend(k.to_le_bytes());
        bytes.extend(v.to_le_bytes());
    }
    let map = IndexMap::<i32, i32>::deserialize(&mut SaveCursor::new(bytes)).unwrap();
    assert_eq!(map.into_iter().collect::<Vec<_>>(), vec![(5, 9), (2, 7)]);
}

#[test]
fn player_variables_map() {
    let mut bytes = vec![1, 0, 0, 0, 3, 0, 0, 0, b'a', b'b', b'c'];
    bytes.extend(42i32.to_le_bytes());
    let map = IndexMap::<String, i32>::deserialize(&mut SaveCursor::new(bytes)).unwrap();
    assert_eq!(map.get("abc"), Some(&42));
}

#[test]
fn float_map_holds_bit_patterns() {
    let mut bytes = vec![1, 0, 0, 0];
    bytes.extend(4i32.to_le_bytes());
    bytes.extend(1.5f32.to_le_bytes());
    let map = IndexMap::<i32, u32>::deserialize(&mut SaveCursor::new(bytes)).unwrap();
    assert_eq!(map.get(&4).map(|b| f32::from_bits(*b)), Some(1.5));
}

#[test]
fn one_word_of_flags() {
    let mut c = cursor(&[1, 0, 0, 0, 5, 0, 0, 0]);
    let v = BitArray::deserialize(&mut c).unwrap().variables;
    assert_eq!(v.len(), 32);
    assert!(v[0] && !v[1] && v[2]);
    assert!(v[3..].iter().all(|b| !*b));
    assert_eq!(c.current_position(), 8);
}

#[test]
fn version_and_checksum_are_written_back() {

    let mut out = Vec::new();
    Version(59).serialize(&mut out);
    Checksum(0xdead_beef).serialize(&mut out);
    assert_eq!(out, vec![59, 0, 0, 0, 0xef, 0xbe, 0xad, 0xde]);
    let mut c = SaveCursor::new(out);
    assert_eq!(Version::deserialize(&mut c), Ok(Version(59)));
    assert_eq!(Checksum::deserialize(&mut c), Ok(Checksum(0xdead_beef)));
}

#[test]
fn negative_integers_are_written_back() {
    let mut out = Vec::new();
    trilogy_save::save_data::write_i32_le(&mut out, -2);
    assert_eq!(out, vec![0xfe, 0xff, 0xff, 0xff]);
    assert_eq!(i32::deserialize(&mut SaveCursor::new(out)), Ok(-2));
}

#[test]
fn variables_map_holds_each_name_once() {
    let mut bytes = vec![2, 0, 0, 0];
    for v in [1i32, 2] {
        bytes.extend([2, 0, 0, 0, b'h', b'p']);
        bytes.extend(v.to_le_bytes());
    }
    let map = IndexMap::<String, i32>::deserialize(&mut SaveCursor::new(bytes)).unwrap();
    assert_eq!(map.len(), 1);
    assert_eq!(map.get("hp"), Some(&2));
}
