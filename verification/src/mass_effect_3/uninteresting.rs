use vstd::prelude::*;

use crate::cursor::SaveCursor;
use crate::error::SaveError;
use crate::save_data::{fixed_extent, SaveData};

verus! {

/// 16 bytes whose meaning is not decoded.
#[derive(Debug)]
pub struct Dummy16Bytes(pub Vec<u8>);

impl SaveData for Dummy16Bytes {
    open spec fn spec_extent(input: Seq<u8>) -> Result<nat, SaveError> {
        fixed_extent(input, 16)
    }

    open spec fn spec_encodes(input: Seq<u8>, value: Dummy16Bytes) -> bool {
        value.0@ == input.take(16)
    }

    fn deserialize(cursor: &mut SaveCursor) -> (res: Result<Dummy16Bytes, SaveError>) {
        match cursor.read(16) {
            Ok(bytes) => Ok(Dummy16Bytes(vstd::slice::slice_to_vec(bytes))),
            Err(e) => Err(e),
        }
    }
}

/// 18 bytes whose meaning is not decoded.
#[derive(Debug)]
pub struct Dummy18Bytes(pub Vec<u8>);

impl SaveData for Dummy18Bytes {
    open spec fn spec_extent(input: Seq<u8>) -> Result<nat, SaveError> {
        fixed_extent(input, 18)
    }

    open spec fn spec_encodes(input: Seq<u8>, value: Dummy18Bytes) -> bool {
        value.0@ == input.take(18)
    }

    fn deserialize(cursor: &mut SaveCursor) -> (res: Result<Dummy18Bytes, SaveError>) {
        match cursor.read(18) {
            Ok(bytes) => Ok(Dummy18Bytes(vstd::slice::slice_to_vec(bytes))),
            Err(e) => Err(e),
        }
    }
}

/// 20 bytes whose meaning is not decoded.
#[derive(Debug)]
pub struct Dummy20Bytes(pub Vec<u8>);

impl SaveData for Dummy20Bytes {
    open spec fn spec_extent(input: Seq<u8>) -> Result<nat, SaveError> {
        fixed_extent(input, 20)
    }

    open spec fn spec_encodes(input: Seq<u8>, value: Dummy20Bytes) -> bool {
        value.0@ == input.take(20)
    }

    fn deserialize(cursor: &mut SaveCursor) -> (res: Result<Dummy20Bytes, SaveError>) {
        match cursor.read(20) {
            Ok(bytes) => Ok(Dummy20Bytes(vstd::slice::slice_to_vec(bytes))),
            Err(e) => Err(e),
        }
    }
}

} // verus!
