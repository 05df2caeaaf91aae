use vstd::prelude::*;

use crate::cursor::SaveCursor;
use crate::error::SaveError;
use crate::text_encoding::{decode_text, decoded_text, TextEncoding};

verus! {

broadcast use crate::seq_lemmas::lemma_skip_skip;

/// A value that is stored in a save file.
pub trait SaveData: Sized {
    /// Reading a value at the front of `input`: how many bytes it spans,
    /// or the error reading reports.
    spec fn spec_extent(input: Seq<u8>) -> Result<nat, SaveError>;

    /// Whether `value` is the value that the front of `input` encodes
    /// (meaningful where `spec_extent(input)` is `Ok`).
    spec fn spec_encodes(input: Seq<u8>, value: Self) -> bool;

    /// Reads a value at the cursor and moves the cursor past it.
    fn deserialize(cursor: &mut SaveCursor) -> (res: Result<Self, SaveError>)
        requires
            old(cursor).wf(),
        ensures
            final(cursor).wf(),
            final(cursor).bytes() == old(cursor).bytes(),
            match Self::spec_extent(old(cursor).remaining()) {
                Ok(n) => {
                    &&& final(cursor).position() == old(cursor).position() + n
                    &&& res matches Ok(v) && Self::spec_encodes(old(cursor).remaining(), v)
                },
                Err(e) => res == Err::<Self, SaveError>(e),
            },
    ;
}

/// Reading a value of type `T` after `prev` bytes were read from `input`
/// (or after `prev` failed): the bytes read in all, or the first error.
pub open spec fn then_extent<T: SaveData>(
    input: Seq<u8>,
    prev: Result<nat, SaveError>,
) -> Result<nat, SaveError> {
    match prev {
        Err(e) => Err(e),
        Ok(n) => match T::spec_extent(input.skip(n as int)) {
            Err(e) => Err(e),
            Ok(m) => Ok(n + m),
        },
    }
}

/// A field read at a fixed width: `width` bytes when that many are there.
pub open spec fn fixed_extent(input: Seq<u8>, width: nat) -> Result<nat, SaveError> {
    if width <= input.len() {
        Ok(width)
    } else {
        Err(SaveError::UnexpectedEndOfFile)
    }
}

/// A field stored as one byte naming a variant: its byte when it is there
/// and `known` (it names a variant), else the error.
pub open spec fn enum_extent(input: Seq<u8>, known: bool) -> Result<nat, SaveError> {
    if input.len() < 1 {
        Err(SaveError::UnexpectedEndOfFile)
    } else if known {
        Ok(1)
    } else {
        Err(SaveError::InvalidEnumValue)
    }
}

/// The unsigned little-endian number in the first four bytes of `b`.
pub open spec fn le_u32(b: Seq<u8>) -> int {
    b[0] + b[1] * 256 + b[2] * 65536 + b[3] * 16777216
}

/// The unsigned little-endian number in the first eight bytes of `b`.
pub open spec fn le_u64(b: Seq<u8>) -> int {
    le_u32(b) + le_u32(b.skip(4)) * 4294967296
}

/// The two's complement reading of a 32-bit pattern.
pub open spec fn as_signed32(u: int) -> int {
    if u < 0x8000_0000 {
        u
    } else {
        u - 0x1_0000_0000
    }
}

/// The signed little-endian number in the first four bytes of `b`.
pub open spec fn le_i32(b: Seq<u8>) -> int {
    as_signed32(le_u32(b))
}

fn read_u32_le(cursor: &mut SaveCursor) -> (res: Result<u32, SaveError>)
    requires
        old(cursor).wf(),
    ensures
        final(cursor).wf(),
        final(cursor).bytes() == old(cursor).bytes(),
        match res {
            Ok(v) => {
                &&& 4 <= old(cursor).remaining().len()
                &&& v == le_u32(old(cursor).remaining())
                &&& final(cursor).position() == old(cursor).position() + 4
            },
            Err(e) => {
                &&& e == SaveError::UnexpectedEndOfFile
                &&& old(cursor).remaining().len() < 4
            },
        },
{
    let b = match cursor.read(4) {
        Ok(b) => b,
        Err(e) => return Err(e),
    };
    Ok((b[0] as u32) + (b[1] as u32) * 256 + (b[2] as u32) * 65536 + (b[3] as u32) * 16777216)
}

impl SaveData for u8 {
    open spec fn spec_extent(input: Seq<u8>) -> Result<nat, SaveError> {
        fixed_extent(input, 1)
    }

    open spec fn spec_encodes(input: Seq<u8>, value: u8) -> bool {
        value == input[0]
    }

    fn deserialize(cursor: &mut SaveCursor) -> (res: Result<u8, SaveError>) {
        let ghost input = cursor.remaining();
        let b = match cursor.read(1) {
            Ok(b) => b,
            Err(e) => {
                assert(<u8 as SaveData>::spec_extent(input) == Err::<nat, SaveError>(e));
                return Err(e);
            },
        };
        assert(<u8 as SaveData>::spec_extent(input) == Ok::<nat, SaveError>(1));
        assert(<u8 as SaveData>::spec_encodes(input, b[0]));
        Ok(b[0])
    }
}

impl SaveData for u32 {
    open spec fn spec_extent(input: Seq<u8>) -> Result<nat, SaveError> {
        fixed_extent(input, 4)
    }

    open spec fn spec_encodes(input: Seq<u8>, value: u32) -> bool {
        value == le_u32(input)
    }

    #[verifier::spinoff_prover]
    fn deserialize(cursor: &mut SaveCursor) -> (res: Result<u32, SaveError>) {
        let ghost input = cursor.remaining();
        match read_u32_le(cursor) {
            Ok(v) => {
                assert(<u32 as SaveData>::spec_encodes(input, v));
                assert(<u32 as SaveData>::spec_extent(input) == Ok::<nat, SaveError>(4));
                assert(cursor.position() == old(cursor).position() + 4);
                Ok(v)
            },
            Err(e) => Err(e),
        }
    }
}

impl SaveData for u64 {
    open spec fn spec_extent(input: Seq<u8>) -> Result<nat, SaveError> {
        fixed_extent(input, 8)
    }

    open spec fn spec_encodes(input: Seq<u8>, value: u64) -> bool {
        value == le_u64(input)
    }

    fn deserialize(cursor: &mut SaveCursor) -> (res: Result<u64, SaveError>) {
        let b = match cursor.read(8) {
            Ok(b) => b,
            Err(e) => return Err(e),
        };
        let low: u64 = (b[0] as u64) + (b[1] as u64) * 256 + (b[2] as u64) * 65536 + (b[3] as u64)
            * 16777216;
        let high: u64 = (b[4] as u64) + (b[5] as u64) * 256 + (b[6] as u64) * 65536 + (b[7] as u64)
            * 16777216;
        proof {
            assert(b@.skip(4)[0] == b@[4] && b@.skip(4)[1] == b@[5] && b@.skip(4)[2] == b@[6]
                && b@.skip(4)[3] == b@[7]);
            assert(high * 4294967296 <= 0xffff_ffffu64 * 4294967296) by (nonlinear_arith)
                requires
                    high <= 0xffff_ffffu64,
            ;
        }
        Ok(low + high * 4294967296)
    }
}

/// The four bytes of `v`, lowest first.
pub open spec fn u32_le_bytes(v: u32) -> Seq<u8> {
    seq![(v & 0xff) as u8, ((v >> 8) & 0xff) as u8, ((v >> 16) & 0xff) as u8, ((v >> 24) & 0xff) as u8]
}

/// Writes the four bytes of `v`, lowest first, at the end of `out`.
pub fn write_u32_le(out: &mut Vec<u8>, v: u32)
    ensures
        final(out)@ == old(out)@ + u32_le_bytes(v),
{
    out.push((v & 0xff) as u8);
    out.push(((v >> 8) & 0xff) as u8);
    out.push(((v >> 16) & 0xff) as u8);
    out.push(((v >> 24) & 0xff) as u8);
    proof {
        assert(out@ =~= old(out)@ + u32_le_bytes(v));
    }
}

/// Writes the four bytes of `v` (two's complement), lowest first, at the
/// end of `out`.
pub fn write_i32_le(out: &mut Vec<u8>, v: i32)
    ensures
        final(out)@ == old(out)@ + u32_le_bytes(v as u32),
{
    write_u32_le(out, v as u32);
}

/// Law: the four bytes written for `v`, followed by anything, read back
/// as `v`.
pub proof fn law_u32_read_back(v: u32, rest: Seq<u8>)
    ensures
        le_u32(u32_le_bytes(v) + rest) == v,
        (u32_le_bytes(v) + rest).len() == 4 + rest.len(),
{
    let b = u32_le_bytes(v) + rest;
    assert(b[0] == (v & 0xff) as u8);
    assert(b[1] == ((v >> 8) & 0xff) as u8);
    assert(b[2] == ((v >> 16) & 0xff) as u8);
    assert(b[3] == ((v >> 24) & 0xff) as u8);
    assert((v & 0xff) as u8 == v & 0xff && ((v >> 8) & 0xff) as u8 == (v >> 8) & 0xff && ((v >> 16) & 0xff) as u8
        == (v >> 16) & 0xff && ((v >> 24) & 0xff) as u8 == (v >> 24) & 0xff) by (bit_vector);
    assert((v & 0xff) + ((v >> 8) & 0xff) * 256 + ((v >> 16) & 0xff) * 65536 + ((v >> 24) & 0xff) * 16777216 == v)
        by (bit_vector);
}

/// Law: the four bytes written for `v`, followed by anything, read back
/// as `v` when read as a signed number.
pub proof fn law_i32_read_back(v: i32, rest: Seq<u8>)
    ensures
        le_i32(u32_le_bytes(v as u32) + rest) == v,
{
    law_u32_read_back(v as u32, rest);
    assert(v >= 0 ==> (v as u32) == v) by (bit_vector);
    assert(v < 0 ==> (v as u32) >= 0x8000_0000u32) by (bit_vector);
    assert(v < 0 ==> (v as u32) as u64 == ((v as i64) + 0x1_0000_0000i64) as u64) by (bit_vector);
}

impl SaveData for i32 {
    open spec fn spec_extent(input: Seq<u8>) -> Result<nat, SaveError> {
        fixed_extent(input, 4)
    }

    open spec fn spec_encodes(input: Seq<u8>, value: i32) -> bool {
        value == le_i32(input)
    }

    fn deserialize(cursor: &mut SaveCursor) -> (res: Result<i32, SaveError>) {
        let u = match read_u32_le(cursor) {
            Ok(u) => u,
            Err(e) => return Err(e),
        };
        let wide: i64 = if u < 0x8000_0000 {
            u as i64
        } else {
            u as i64 - 0x1_0000_0000
        };
        Ok(wide as i32)
    }
}

/// Booleans are stored as 32-bit numbers; any number but zero is `true`.
impl SaveData for bool {
    open spec fn spec_extent(input: Seq<u8>) -> Result<nat, SaveError> {
        fixed_extent(input, 4)
    }

    open spec fn spec_encodes(input: Seq<u8>, value: bool) -> bool {
        value == (le_u32(input) != 0)
    }

    fn deserialize(cursor: &mut SaveCursor) -> (res: Result<bool, SaveError>) {
        match read_u32_le(cursor) {
            Ok(u) => Ok(u != 0),
            Err(e) => Err(e),
        }
    }
}

/// A 32-bit floating-point number, held as its IEEE 754 bit pattern.
#[derive(Clone, Copy, Debug, PartialEq, Eq, Structural, Default)]
pub struct Float32 {
    pub bits: u32,
}

impl SaveData for Float32 {
    open spec fn spec_extent(input: Seq<u8>) -> Result<nat, SaveError> {
        fixed_extent(input, 4)
    }

    open spec fn spec_encodes(input: Seq<u8>, value: Float32) -> bool {
        value.bits == le_u32(input)
    }

    fn deserialize(cursor: &mut SaveCursor) -> (res: Result<Float32, SaveError>) {
        match read_u32_le(cursor) {
            Ok(bits) => Ok(Float32 { bits }),
            Err(e) => Err(e),
        }
    }
}

/// The encoding and the byte length that a string's length prefix `len`
/// announces: a negative prefix counts UTF-16 code units, a positive one
/// counts Windows-1252 bytes.
pub open spec fn string_layout(len: int) -> (TextEncoding, int) {
    if len < 0 {
        (TextEncoding::Utf16Le, -2 * len)
    } else {
        (TextEncoding::Windows1252, len)
    }
}

/// The error that a decoder reports for `encoding`.
pub open spec fn decoding_error(encoding: TextEncoding) -> SaveError {
    match encoding {
        TextEncoding::Utf16Le => SaveError::Utf16Decoding,
        TextEncoding::Windows1252 => SaveError::Windows1252Decoding,
    }
}

/// The characters of the string whose length prefix is at the front of
/// `input` (meaningful where the string can be read).
pub open spec fn string_chars(input: Seq<u8>) -> Seq<char> {
    let len = le_i32(input);
    let (encoding, byte_len) = string_layout(len);
    if len == 0 {
        Seq::empty()
    } else {
        decoded_text(encoding, input.subrange(4, 4 + byte_len)).0
    }
}

/// A text string: a signed 32-bit length, then the characters, in
/// Windows-1252 when the length is positive and in UTF-16LE (with the
/// length counting code units) when it is negative.
#[derive(Clone, Debug, PartialEq, Eq, Default)]
pub struct ImguiString {
    pub text: String,
}

impl SaveData for ImguiString {
    closed spec fn spec_extent(input: Seq<u8>) -> Result<nat, SaveError> {
        if input.len() < 4 {
            Err(SaveError::UnexpectedEndOfFile)
        } else {
            let len = le_i32(input);
            let (encoding, byte_len) = string_layout(len);
            if len == 0 {
                Ok(4)
            } else if byte_len > i32::MAX {
                Err(SaveError::LengthOverflow)
            } else if 4 + byte_len > input.len() {
                Err(SaveError::UnexpectedEndOfFile)
            } else if decoded_text(encoding, input.subrange(4, 4 + byte_len)).1 {
                Err(decoding_error(encoding))
            } else {
                Ok((4 + byte_len) as nat)
            }
        }
    }

    open spec fn spec_encodes(input: Seq<u8>, value: ImguiString) -> bool {
        value.text@ == string_chars(input)
    }

    fn deserialize(cursor: &mut SaveCursor) -> (res: Result<ImguiString, SaveError>) {
        let ghost input = cursor.remaining();
        let len = match <i32 as SaveData>::deserialize(cursor) {
            Ok(len) => len,
            Err(e) => return Err(e),
        };
        if len == 0 {
            return Ok(ImguiString { text: String::new() });
        }
        let (encoding, byte_len): (TextEncoding, usize) = if len < 0 {
            if len < -0x3fff_ffff {
                return Err(SaveError::LengthOverflow);
            }
            (TextEncoding::Utf16Le, (-2 * len) as usize)
        } else {
            (TextEncoding::Windows1252, len as usize)
        };
        let ghost mid = cursor.remaining();
        let bytes = match cursor.read(byte_len) {
            Ok(bytes) => bytes,
            Err(e) => return Err(e),
        };
        proof {
            assert(mid == input.skip(4));
            assert(bytes@ =~= input.subrange(4, 4 + byte_len));
        }
        let (text, had_errors) = decode_text(encoding, bytes);
        if had_errors {
            return match encoding {
                TextEncoding::Utf16Le => Err(SaveError::Utf16Decoding),
                TextEncoding::Windows1252 => Err(SaveError::Windows1252Decoding),
            };
        }
        Ok(ImguiString { text })
    }
}

/// How a value of type `ImguiString` is laid out in a save file: the bytes its reader takes
/// and the value they encode.
pub proof fn lemma_imgui_string_layout(input: Seq<u8>, value: ImguiString)
    ensures
        <ImguiString as SaveData>::spec_extent(input) == ({
            if input.len() < 4 {
                Err(SaveError::UnexpectedEndOfFile)
            } else {
                let len = le_i32(input);
                let (encoding, byte_len) = string_layout(len);
                if len == 0 {
                    Ok(4)
                } else if byte_len > i32::MAX {
                    Err(SaveError::LengthOverflow)
                } else if 4 + byte_len > input.len() {
                    Err(SaveError::UnexpectedEndOfFile)
                } else if decoded_text(encoding, input.subrange(4, 4 + byte_len)).1 {
                    Err(decoding_error(encoding))
                } else {
                    Ok((4 + byte_len) as nat)
                }
            }
        }),
        <ImguiString as SaveData>::spec_encodes(input, value) == ({
            value.text@ == string_chars(input)
        }),
{
}


/// A run of `LEN` bytes whose meaning is not decoded.
#[derive(Clone, Debug)]
pub struct Dummy<const LEN: usize> {
    bytes: Vec<u8>,
}

impl<const LEN: usize> Dummy<LEN> {
    /// The bytes held.
    pub closed spec fn spec_bytes(&self) -> Seq<u8> {
        self.bytes@
    }

    /// The bytes held.
    pub fn bytes(&self) -> (res: &[u8])
        ensures
            res@ == self.spec_bytes(),
    {
        self.bytes.as_slice()
    }

    /// `LEN` zero bytes.
    pub fn zeroed() -> (res: Self)
        ensures
            res.spec_bytes() == Seq::new(LEN as nat, |i: int| 0u8),
    {
        let mut bytes: Vec<u8> = Vec::new();
        let mut i: usize = 0;
        while i < LEN
            invariant
                i <= LEN,
                bytes@ == Seq::new(i as nat, |j: int| 0u8),
            decreases LEN - i,
        {
            bytes.push(0);
            i = i + 1;
            assert(bytes@ =~= Seq::new(i as nat, |j: int| 0u8));
        }
        Dummy { bytes }
    }
}

impl<const LEN: usize> SaveData for Dummy<LEN> {
    open spec fn spec_extent(input: Seq<u8>) -> Result<nat, SaveError> {
        fixed_extent(input, LEN as nat)
    }

    open spec fn spec_encodes(input: Seq<u8>, value: Dummy<LEN>) -> bool {
        value.spec_bytes() == input.take(LEN as int)
    }

    fn deserialize(cursor: &mut SaveCursor) -> (res: Result<Dummy<LEN>, SaveError>) {
        let bytes = match cursor.read(LEN) {
            Ok(bytes) => bytes,
            Err(e) => return Err(e),
        };
        Ok(Dummy { bytes: vstd::slice::slice_to_vec(bytes) })
    }
}

/// Reading `count` values of type `T` one after the other from `input`.
pub open spec fn items_extent<T: SaveData>(input: Seq<u8>, count: nat) -> Result<nat, SaveError>
    decreases count,
{
    if count == 0 {
        Ok(0)
    } else {
        then_extent::<T>(input, items_extent::<T>(input, (count - 1) as nat))
    }
}

/// Where the `i`-th of a run of values of type `T` starts in `input`.
pub open spec fn item_offset<T: SaveData>(input: Seq<u8>, i: nat) -> int {
    items_extent::<T>(input, i)->Ok_0 as int
}

/// Once reading a run of values fails, reading a longer run fails the same way.
pub proof fn lemma_items_error_persists<T: SaveData>(input: Seq<u8>, i: nat, j: nat)
    requires
        i <= j,
        items_extent::<T>(input, i) is Err,
    ensures
        items_extent::<T>(input, j) == items_extent::<T>(input, i),
    decreases j,
{
    if j > i {
        lemma_items_error_persists::<T>(input, i, (j - 1) as nat);
    }
}

/// A read run of values spans no more than the input.
pub proof fn lemma_items_extent_bound<T: SaveData>(input: Seq<u8>, i: nat)
    requires
        forall|s: Seq<u8>| #[trigger] T::spec_extent(s) matches Ok(n) ==> n <= s.len(),
    ensures
        items_extent::<T>(input, i) matches Ok(n) ==> n <= input.len(),
    decreases i,
{
    if i > 0 {
        lemma_items_extent_bound::<T>(input, (i - 1) as nat);
    }
}

/// A list: a 32-bit count, then that many values one after the other.
impl<T: SaveData> SaveData for Vec<T> {
    closed spec fn spec_extent(input: Seq<u8>) -> Result<nat, SaveError> {
        if input.len() < 4 {
            Err(SaveError::UnexpectedEndOfFile)
        } else {
            match items_extent::<T>(input.skip(4), le_u32(input) as nat) {
                Ok(n) => Ok(4 + n),
                Err(e) => Err(e),
            }
        }
    }

    closed spec fn spec_encodes(input: Seq<u8>, value: Vec<T>) -> bool {
        &&& value@.len() == le_u32(input)
        &&& forall|i: int|
            0 <= i < value@.len() ==> T::spec_encodes(
                #[trigger] input.skip(4).skip(item_offset::<T>(input.skip(4), i as nat)),
                value@[i],
            )
    }

    fn deserialize(cursor: &mut SaveCursor) -> (res: Result<Vec<T>, SaveError>) {
        let ghost input = cursor.remaining();
        let count = match read_u32_le(cursor) {
            Ok(count) => count,
            Err(e) => return Err(e),
        };
        let ghost body = input.skip(4);
        let ghost base = cursor.position();
        let mut vec: Vec<T> = Vec::new();
        let mut i: u32 = 0;
        while i < count
            invariant
                i <= count,
                cursor.wf(),
                cursor.bytes() == old(cursor).bytes(),
                input == old(cursor).remaining(),
                body == input.skip(4),
                base == old(cursor).position() + 4,
                count == le_u32(input),
                vec@.len() == i,
                items_extent::<T>(body, i as nat) == Ok::<nat, SaveError>(
                    (cursor.position() - base) as nat,
                ),
                base <= cursor.position(),
                forall|j: int|
                    0 <= j < i ==> T::spec_encodes(
                        #[trigger] body.skip(item_offset::<T>(body, j as nat)),
                        vec@[j],
                    ),
            decreases count - i,
        {
            let ghost before = *cursor;
            let item = T::deserialize(cursor);
            match item {
                Ok(item) => {
                    vec.push(item);
                    i = i + 1;
                },
                Err(e) => {
                    proof {
                        lemma_items_error_persists::<T>(body, (i + 1) as nat, count as nat);
                    }
                    return Err(e);
                },
            }
        }
        Ok(vec)
    }
}

/// How a value of type `Vec<T>` is laid out in a save file: the bytes its reader takes
/// and the value they encode.
pub proof fn lemma_list_layout<T: SaveData>(input: Seq<u8>, value: Vec<T>)
    ensures
        <Vec<T> as SaveData>::spec_extent(input) == ({
            if input.len() < 4 {
                Err(SaveError::UnexpectedEndOfFile)
            } else {
                match items_extent::<T>(input.skip(4), le_u32(input) as nat) {
                    Ok(n) => Ok(4 + n),
                    Err(e) => Err(e),
                }
            }
        }),
        <Vec<T> as SaveData>::spec_encodes(input, value) == ({
            &&& value@.len() == le_u32(input)
            &&& forall|i: int|
                0 <= i < value@.len() ==> T::spec_encodes(
                    #[trigger] input.skip(4).skip(item_offset::<T>(input.skip(4), i as nat)),
                    value@[i],
                )
        }),
{
}


/// 2 values stored one after the other.
impl<A: SaveData, B: SaveData> SaveData for (A, B) {
    closed spec fn spec_extent(input: Seq<u8>) -> Result<nat, SaveError> {
        let r0 = A::spec_extent(input);
        let r1 = then_extent::<B>(input, r0);
        r1
    }

    closed spec fn spec_encodes(input: Seq<u8>, value: (A, B)) -> bool {
        let r0 = A::spec_extent(input);
        &&& A::spec_encodes(input, value.0)
        &&& B::spec_encodes(input.skip(r0->Ok_0 as int), value.1)
    }

    #[verifier::rlimit(50)]
    fn deserialize(cursor: &mut SaveCursor) -> (res: Result<(A, B), SaveError>) {
        let ghost input = cursor.remaining();
        let ghost start = cursor.position();
        let v0 = match A::deserialize(cursor) {
            Ok(v) => v,
            Err(e) => return Err(e),
        };
        let ghost r0 = A::spec_extent(input);
        assert(r0 == Ok::<nat, SaveError>((cursor.position() - start) as nat));
        let v1 = match B::deserialize(cursor) {
            Ok(v) => v,
            Err(e) => return Err(e),
        };
        let ghost r1 = then_extent::<B>(input, r0);
        assert(r1 == Ok::<nat, SaveError>((cursor.position() - start) as nat));
        Ok((v0, v1))
    }
}

/// How a value of type `(A, B)` is laid out in a save file: the bytes its reader takes
/// and the value they encode.
pub proof fn lemma_tuple2_layout<A: SaveData, B: SaveData>(input: Seq<u8>, value: (A, B))
    ensures
        <(A, B) as SaveData>::spec_extent(input) == ({
            let r0 = A::spec_extent(input);
            let r1 = then_extent::<B>(input, r0);
            r1
        }),
        <(A, B) as SaveData>::spec_encodes(input, value) == ({
            let r0 = A::spec_extent(input);
            &&& A::spec_encodes(input, value.0)
            &&& B::spec_encodes(input.skip(r0->Ok_0 as int), value.1)
        }),
{
}


/// 3 values stored one after the other.
impl<A: SaveData, B: SaveData, C: SaveData> SaveData for (A, B, C) {
    closed spec fn spec_extent(input: Seq<u8>) -> Result<nat, SaveError> {
        let r0 = A::spec_extent(input);
        let r1 = then_extent::<B>(input, r0);
        let r2 = then_extent::<C>(input, r1);
        r2
    }

    closed spec fn spec_encodes(input: Seq<u8>, value: (A, B, C)) -> bool {
        let r0 = A::spec_extent(input);
        let r1 = then_extent::<B>(input, r0);
        &&& A::spec_encodes(input, value.0)
        &&& B::spec_encodes(input.skip(r0->Ok_0 as int), value.1)
        &&& C::spec_encodes(input.skip(r1->Ok_0 as int), value.2)
    }

    #[verifier::rlimit(50)]
    fn deserialize(cursor: &mut SaveCursor) -> (res: Result<(A, B, C), SaveError>) {
        let ghost input = cursor.remaining();
        let ghost start = cursor.position();
        let v0 = match A::deserialize(cursor) {
            Ok(v) => v,
            Err(e) => return Err(e),
        };
        let ghost r0 = A::spec_extent(input);
        assert(r0 == Ok::<nat, SaveError>((cursor.position() - start) as nat));
        let v1 = match B::deserialize(cursor) {
            Ok(v) => v,
            Err(e) => return Err(e),
        };
        let ghost r1 = then_extent::<B>(input, r0);
        assert(r1 == Ok::<nat, SaveError>((cursor.position() - start) as nat));
        let v2 = match C::deserialize(cursor) {
            Ok(v) => v,
            Err(e) => return Err(e),
        };
        let ghost r2 = then_extent::<C>(input, r1);
        assert(r2 == Ok::<nat, SaveError>((cursor.position() - start) as nat));
        Ok((v0, v1, v2))
    }
}

/// How a value of type `(A, B, C)` is laid out in a save file: the bytes its reader takes
/// and the value they encode.
pub proof fn lemma_tuple3_layout<A: SaveData, B: SaveData, C: SaveData>(input: Seq<u8>, value: (A, B, C))
    ensures
        <(A, B, C) as SaveData>::spec_extent(input) == ({
            let r0 = A::spec_extent(input);
            let r1 = then_extent::<B>(input, r0);
            let r2 = then_extent::<C>(input, r1);
            r2
        }),
        <(A, B, C) as SaveData>::spec_encodes(input, value) == ({
            let r0 = A::spec_extent(input);
            let r1 = then_extent::<B>(input, r0);
            &&& A::spec_encodes(input, value.0)
            &&& B::spec_encodes(input.skip(r0->Ok_0 as int), value.1)
            &&& C::spec_encodes(input.skip(r1->Ok_0 as int), value.2)
        }),
{
}


/// 4 values stored one after the other.
impl<A: SaveData, B: SaveData, C: SaveData, D: SaveData> SaveData for (A, B, C, D) {
    closed spec fn spec_extent(input: Seq<u8>) -> Result<nat, SaveError> {
        let r0 = A::spec_extent(input);
        let r1 = then_extent::<B>(input, r0);
        let r2 = then_extent::<C>(input, r1);
        let r3 = then_extent::<D>(input, r2);
        r3
    }

    closed spec fn spec_encodes(input: Seq<u8>, value: (A, B, C, D)) -> bool {
        let r0 = A::spec_extent(input);
        let r1 = then_extent::<B>(input, r0);
        let r2 = then_extent::<C>(input, r1);
        &&& A::spec_encodes(input, value.0)
        &&& B::spec_encodes(input.skip(r0->Ok_0 as int), value.1)
        &&& C::spec_encodes(input.skip(r1->Ok_0 as int), value.2)
        &&& D::spec_encodes(input.skip(r2->Ok_0 as int), value.3)
    }

    #[verifier::rlimit(50)]
    fn deserialize(cursor: &mut SaveCursor) -> (res: Result<(A, B, C, D), SaveError>) {
        let ghost input = cursor.remaining();
        let ghost start = cursor.position();
        let v0 = match A::deserialize(cursor) {
            Ok(v) => v,
            Err(e) => return Err(e),
        };
        let ghost r0 = A::spec_extent(input);
        assert(r0 == Ok::<nat, SaveError>((cursor.position() - start) as nat));
        let v1 = match B::deserialize(cursor) {
            Ok(v) => v,
            Err(e) => return Err(e),
        };
        let ghost r1 = then_extent::<B>(input, r0);
        assert(r1 == Ok::<nat, SaveError>((cursor.position() - start) as nat));
        let v2 = match C::deserialize(cursor) {
            Ok(v) => v,
            Err(e) => return Err(e),
        };
        let ghost r2 = then_extent::<C>(input, r1);
        assert(r2 == Ok::<nat, SaveError>((cursor.position() - start) as nat));
        let v3 = match D::deserialize(cursor) {
            Ok(v) => v,
            Err(e) => return Err(e),
        };
        let ghost r3 = then_extent::<D>(input, r2);
        assert(r3 == Ok::<nat, SaveError>((cursor.position() - start) as nat));
        Ok((v0, v1, v2, v3))
    }
}

/// How a value of type `(A, B, C, D)` is laid out in a save file: the bytes its reader takes
/// and the value they encode.
pub proof fn lemma_tuple4_layout<A: SaveData, B: SaveData, C: SaveData, D: SaveData>(input: Seq<u8>, value: (A, B, C, D))
    ensures
        <(A, B, C, D) as SaveData>::spec_extent(input) == ({
            let r0 = A::spec_extent(input);
            let r1 = then_extent::<B>(input, r0);
            let r2 = then_extent::<C>(input, r1);
            let r3 = then_extent::<D>(input, r2);
            r3
        }),
        <(A, B, C, D) as SaveData>::spec_encodes(input, value) == ({
            let r0 = A::spec_extent(input);
            let r1 = then_extent::<B>(input, r0);
            let r2 = then_extent::<C>(input, r1);
            &&& A::spec_encodes(input, value.0)
            &&& B::spec_encodes(input.skip(r0->Ok_0 as int), value.1)
            &&& C::spec_encodes(input.skip(r1->Ok_0 as int), value.2)
            &&& D::spec_encodes(input.skip(r2->Ok_0 as int), value.3)
        }),
{
}


/// 5 values stored one after the other.
impl<A: SaveData, B: SaveData, C: SaveData, D: SaveData, E: SaveData> SaveData for (A, B, C, D, E) {
    closed spec fn spec_extent(input: Seq<u8>) -> Result<nat, SaveError> {
        let r0 = A::spec_extent(input);
        let r1 = then_extent::<B>(input, r0);
        let r2 = then_extent::<C>(input, r1);
        let r3 = then_extent::<D>(input, r2);
        let r4 = then_extent::<E>(input, r3);
        r4
    }

    closed spec fn spec_encodes(input: Seq<u8>, value: (A, B, C, D, E)) -> bool {
        let r0 = A::spec_extent(input);
        let r1 = then_extent::<B>(input, r0);
        let r2 = then_extent::<C>(input, r1);
        let r3 = then_extent::<D>(input, r2);
        &&& A::spec_encodes(input, value.0)
        &&& B::spec_encodes(input.skip(r0->Ok_0 as int), value.1)
        &&& C::spec_encodes(input.skip(r1->Ok_0 as int), value.2)
        &&& D::spec_encodes(input.skip(r2->Ok_0 as int), value.3)
        &&& E::spec_encodes(input.skip(r3->Ok_0 as int), value.4)
    }

    #[verifier::rlimit(50)]
    fn deserialize(cursor: &mut SaveCursor) -> (res: Result<(A, B, C, D, E), SaveError>) {
        let ghost input = cursor.remaining();
        let ghost start = cursor.position();
        let v0 = match A::deserialize(cursor) {
            Ok(v) => v,
            Err(e) => return Err(e),
        };
        let ghost r0 = A::spec_extent(input);
        assert(r0 == Ok::<nat, SaveError>((cursor.position() - start) as nat));
        let v1 = match B::deserialize(cursor) {
            Ok(v) => v,
            Err(e) => return Err(e),
        };
        let ghost r1 = then_extent::<B>(input, r0);
        assert(r1 == Ok::<nat, SaveError>((cursor.position() - start) as nat));
        let v2 = match C::deserialize(cursor) {
            Ok(v) => v,
            Err(e) => return Err(e),
        };
        let ghost r2 = then_extent::<C>(input, r1);
        assert(r2 == Ok::<nat, SaveError>((cursor.position() - start) as nat));
        let v3 = match D::deserialize(cursor) {
            Ok(v) => v,
            Err(e) => return Err(e),
        };
        let ghost r3 = then_extent::<D>(input, r2);
        assert(r3 == Ok::<nat, SaveError>((cursor.position() - start) as nat));
        let v4 = match E::deserialize(cursor) {
            Ok(v) => v,
            Err(e) => return Err(e),
        };
        let ghost r4 = then_extent::<E>(input, r3);
        assert(r4 == Ok::<nat, SaveError>((cursor.position() - start) as nat));
        Ok((v0, v1, v2, v3, v4))
    }
}

/// How a value of type `(A, B, C, D, E)` is laid out in a save file: the bytes its reader takes
/// and the value they encode.
pub proof fn lemma_tuple5_layout<A: SaveData, B: SaveData, C: SaveData, D: SaveData, E: SaveData>(input: Seq<u8>, value: (A, B, C, D, E))
    ensures
        <(A, B, C, D, E) as SaveData>::spec_extent(input) == ({
            let r0 = A::spec_extent(input);
            let r1 = then_extent::<B>(input, r0);
            let r2 = then_extent::<C>(input, r1);
            let r3 = then_extent::<D>(input, r2);
            let r4 = then_extent::<E>(input, r3);
            r4
        }),
        <(A, B, C, D, E) as SaveData>::spec_encodes(input, value) == ({
            let r0 = A::spec_extent(input);
            let r1 = then_extent::<B>(input, r0);
            let r2 = then_extent::<C>(input, r1);
            let r3 = then_extent::<D>(input, r2);
            &&& A::spec_encodes(input, value.0)
            &&& B::spec_encodes(input.skip(r0->Ok_0 as int), value.1)
            &&& C::spec_encodes(input.skip(r1->Ok_0 as int), value.2)
            &&& D::spec_encodes(input.skip(r2->Ok_0 as int), value.3)
            &&& E::spec_encodes(input.skip(r3->Ok_0 as int), value.4)
        }),
{
}


} // verus!
