use vstd::prelude::*;

verus! {

/// Why a save game could not be read.
#[derive(Clone, Copy, Debug, PartialEq, Eq, Structural)]
pub enum SaveError {
    /// The data ends before a value that should be there.
    UnexpectedEndOfFile,
    /// A length prefix announces more bytes than an address can hold.
    LengthOverflow,
    /// A UTF-16LE string holds malformed code units.
    Utf16Decoding,
    /// A Windows-1252 string could not be decoded without replacement characters.
    Windows1252Decoding,
    /// The save game was written by another version of the game.
    WrongVersion,
    /// An enumeration holds a value that names none of its variants.
    InvalidEnumValue,
}

} // verus!
