//! Conversions between raw bytes and the values the renderer works with.

use vstd::prelude::*;
use vstd::utf8::{encode_utf8, valid_utf8};

verus! {

/// The word whose little-endian representation is `b0 b1 b2 b3`.
pub open spec fn word_from_le_bytes(b0: u8, b1: u8, b2: u8, b3: u8) -> int {
    b0 + 0x100 * b1 + 0x1_0000 * b2 + 0x100_0000 * b3
}

/// The words of a SPIR-V module: each full group of four bytes is one
/// little-endian word, and up to three bytes that are left over are dropped.
pub open spec fn spirv_words(bytes: Seq<u8>) -> Seq<u32> {
    Seq::new(
        (bytes.len() / 4) as nat,
        |i: int|
            word_from_le_bytes(
                bytes[4 * i],
                bytes[4 * i + 1],
                bytes[4 * i + 2],
                bytes[4 * i + 3],
            ) as u32,
    )
}

/// Decodes the bytes of a compiled shader into its 32-bit words.
pub fn shader_spirv(bytes: &[u8]) -> (words: Vec<u32>)
    ensures
        words@ == spirv_words(bytes@),
{
    let mut words: Vec<u32> = Vec::new();
    let mut at: usize = 0;
    while bytes.len() - at >= 4
        invariant
            at <= bytes.len(),
            at == 4 * words.len(),
            forall|i: int| 0 <= i < words.len() ==> words[i] == #[trigger] spirv_words(bytes@)[i],
        decreases bytes.len() - at,
    {
        let word: u32 = bytes[at] as u32 + 0x100 * (bytes[at + 1] as u32)
            + 0x1_0000 * (bytes[at + 2] as u32) + 0x100_0000 * (bytes[at + 3] as u32);
        words.push(word);
        at += 4;
    }
    assert(words@ =~= spirv_words(bytes@));
    words
}

/// How many bytes precede the first zero byte; all of them where there is
/// none.
pub open spec fn c_string_len(raw: Seq<u8>) -> int
    decreases raw.len(),
{
    if raw.len() == 0 || raw[0] == 0 {
        0
    } else {
        1 + c_string_len(raw.drop_first())
    }
}

/// The bytes of the C string that a character array holds: those before its
/// first zero byte.
pub open spec fn c_string_bytes(raw: Seq<u8>) -> Seq<u8> {
    raw.take(c_string_len(raw))
}

/// `c_string_len` is the least position that holds a zero byte, or the
/// length where no position does.
pub proof fn lemma_c_string_len(raw: Seq<u8>)
    ensures
        0 <= c_string_len(raw) <= raw.len(),
        forall|i: int| 0 <= i < c_string_len(raw) ==> raw[i] != 0,
        c_string_len(raw) < raw.len() ==> raw[c_string_len(raw)] == 0,
    decreases raw.len(),
{
    if raw.len() != 0 && raw[0] != 0 {
        let rest = raw.drop_first();
        lemma_c_string_len(rest);
        assert forall|i: int| 0 <= i < c_string_len(raw) implies raw[i] != 0 by {
            if i > 0 {
                assert(raw[i] == rest[i - 1]);
            }
        }
        if c_string_len(raw) < raw.len() {
            assert(raw[c_string_len(raw)] == rest[c_string_len(rest)]);
        }
    }
}

/// A position that holds zero and has no zero before it is `c_string_len`;
/// so is the length where no position holds zero.
proof fn lemma_c_string_len_is(raw: Seq<u8>, end: int)
    requires
        0 <= end <= raw.len(),
        forall|i: int| 0 <= i < end ==> raw[i] != 0,
        end < raw.len() ==> raw[end] == 0,
    ensures
        c_string_len(raw) == end,
{
    lemma_c_string_len(raw);
}

/// `String::from_utf8` of the standard library: it accepts exactly the byte
/// vectors that are valid UTF-8, and the string it then returns has those
/// bytes as its encoding.
pub assume_specification[ String::from_utf8 ](bytes: Vec<u8>) -> (text: Result<
    String,
    std::string::FromUtf8Error,
>)
    ensures
        text is Ok <==> valid_utf8(bytes@),
        text matches Ok(s) ==> encode_utf8(s@) == bytes@,
;

/// The error of `String::from_utf8`; nothing is read from it.
#[verifier::external_type_specification]
#[verifier::external_body]
pub struct ExFromUtf8Error(std::string::FromUtf8Error);

/// Reads the C string that a character array of the graphics API holds.
///
/// The string ends before the first zero byte, or with the array where
/// there is none. The result is `None` exactly when those bytes are not
/// UTF-8.
pub fn vk_to_string(raw_string_array: &[u8]) -> (text: Option<String>)
    ensures
        text is Some <==> valid_utf8(c_string_bytes(raw_string_array@)),
        text matches Some(s) ==> encode_utf8(s@) == c_string_bytes(raw_string_array@),
{
    let mut content: Vec<u8> = Vec::new();
    let mut at: usize = 0;
    while at < raw_string_array.len() && raw_string_array[at] != 0
        invariant
            at <= raw_string_array.len(),
            content@ == raw_string_array@.take(at as int),
            forall|i: int| 0 <= i < at ==> raw_string_array[i] != 0,
        decreases raw_string_array.len() - at,
    {
        content.push(raw_string_array[at]);
        at += 1;
        assert(content@ =~= raw_string_array@.take(at as int));
    }
    proof {
        lemma_c_string_len_is(raw_string_array@, at as int);
    }
    match String::from_utf8(content) {
        Ok(text) => Some(text),
        Err(_) => None,
    }
}

} // verus!
