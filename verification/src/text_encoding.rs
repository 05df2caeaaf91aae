use vstd::prelude::*;

verus! {

/// The two text encodings that save games use for their strings.
#[derive(Clone, Copy, Debug, PartialEq, Eq, Structural)]
pub enum TextEncoding {
    /// Little-endian UTF-16, two bytes per code unit.
    Utf16Le,
    /// The Windows-1252 single-byte code page.
    Windows1252,
}

/// What `encoding_rs::Encoding::decode` returns for `bytes` under
/// `encoding`: the decoded characters, and whether malformed sequences were
/// replaced by U+FFFD.
pub uninterp spec fn decoded_text(encoding: TextEncoding, bytes: Seq<u8>) -> (Seq<char>, bool);

/// Decodes `bytes` with `encoding_rs::Encoding::decode` (which sniffs a
/// byte order mark before using `encoding`).
///
/// Trusted: the result is the named `decoded_text` of the encoding and the
/// bytes; nothing more is claimed of it.
#[verifier::external_body]
pub fn decode_text(encoding: TextEncoding, bytes: &[u8]) -> (res: (String, bool))
    ensures
        (res.0@, res.1) == decoded_text(encoding, bytes@),
{
    let outside = match encoding {
        TextEncoding::Utf16Le => encoding_rs::UTF_16LE,
        TextEncoding::Windows1252 => encoding_rs::WINDOWS_1252,
    };
    let (decoded, _, had_errors) = outside.decode(bytes);
    (decoded.into_owned(), had_errors)
}

} // verus!
