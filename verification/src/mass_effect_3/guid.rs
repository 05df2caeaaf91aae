use vstd::prelude::*;

use crate::cursor::SaveCursor;
use crate::error::SaveError;
use crate::save_data::{fixed_extent, SaveData};

verus! {

/// A globally unique identifier, as its 16 raw bytes.
#[derive(Debug)]
pub struct Guid(pub Vec<u8>);

impl SaveData for Guid {
    open spec fn spec_extent(input: Seq<u8>) -> Result<nat, SaveError> {
        fixed_extent(input, 16)
    }

    open spec fn spec_encodes(input: Seq<u8>, value: Guid) -> bool {
        value.0@ == input.take(16)
    }

    fn deserialize(cursor: &mut SaveCursor) -> (res: Result<Guid, SaveError>) {
        match cursor.read(16) {
            Ok(bytes) => Ok(Guid(vstd::slice::slice_to_vec(bytes))),
            Err(e) => Err(e),
        }
    }
}

} // verus!
