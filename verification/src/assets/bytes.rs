//! Little-endian field readers over byte slices, and text conversion.
use vstd::prelude::*;
use byteorder::{ByteOrder, LittleEndian};

verus! {

/// The little-endian 16-bit value stored at `pos`.
pub open spec fn le16(b: Seq<u8>, pos: int) -> int {
    b[pos] as int + 256 * b[pos + 1] as int
}

/// The little-endian 24-bit value stored at `pos`.
pub open spec fn le24(b: Seq<u8>, pos: int) -> int {
    le16(b, pos) + 65536 * b[pos + 2] as int
}

/// The little-endian 32-bit value stored at `pos`.
pub open spec fn le32(b: Seq<u8>, pos: int) -> int {
    le24(b, pos) + 16777216 * b[pos + 3] as int
}

/// Reads a `u16` through `byteorder::LittleEndian::read_u16`, which takes the
/// first two bytes of the slice, low byte first (it panics on shorter slices,
/// which the precondition excludes).
#[verifier::external_body]
pub fn read_le_u16(bytes: &[u8], pos: usize) -> (r: u16)
    requires
        pos + 2 <= bytes@.len(),
    ensures
        r as int == le16(bytes@, pos as int),
{
    LittleEndian::read_u16(&bytes[pos..])
}

/// Reads a 24-bit value through `byteorder::LittleEndian::read_u24`, which
/// takes the first three bytes of the slice, low byte first.
#[verifier::external_body]
pub fn read_le_u24(bytes: &[u8], pos: usize) -> (r: u32)
    requires
        pos + 3 <= bytes@.len(),
    ensures
        r as int == le24(bytes@, pos as int),
{
    LittleEndian::read_u24(&bytes[pos..])
}

/// Reads a `u32` through `byteorder::LittleEndian::read_u32`, which takes the
/// first four bytes of the slice, low byte first.
#[verifier::external_body]
pub fn read_le_u32(bytes: &[u8], pos: usize) -> (r: u32)
    requires
        pos + 4 <= bytes@.len(),
    ensures
        r as int == le32(bytes@, pos as int),
{
    LittleEndian::read_u32(&bytes[pos..])
}

/// Reads an `i32` through `byteorder::LittleEndian::read_i32`, which
/// reinterprets the little-endian `u32` in the first four bytes as signed.
#[verifier::external_body]
pub fn read_le_i32(bytes: &[u8], pos: usize) -> (r: i32)
    requires
        pos + 4 <= bytes@.len(),
    ensures
        r == le32(bytes@, pos as int) as i32,
{
    LittleEndian::read_i32(&bytes[pos..])
}

/// What `String::from_utf8_lossy` makes of a byte sequence.
pub uninterp spec fn utf8_lossy(bytes: Seq<u8>) -> Seq<char>;

/// `true` when every byte is 7-bit ASCII.
pub open spec fn all_ascii(bytes: Seq<u8>) -> bool {
    forall|i: int| 0 <= i < bytes.len() ==> #[trigger] bytes[i] < 128
}

/// Decodes bytes as UTF-8 with `String::from_utf8_lossy`, replacing invalid
/// sequences by U+FFFD.  Stated: the result is `utf8_lossy` of the bytes, and
/// ASCII input (always valid UTF-8) comes out as the same characters.  What it
/// makes of other input is left unsaid.
#[verifier::external_body]
pub fn lossy_utf8_string(bytes: &[u8]) -> (s: String)
    ensures
        s@ == utf8_lossy(bytes@),
        all_ascii(bytes@) ==> s@ == bytes@.map_values(|b: u8| b as char),
{
    String::from_utf8_lossy(bytes).to_string()
}

/// A character with the Unicode White_Space property, which `str::trim`
/// uses to define whitespace.
pub open spec fn is_white_space(c: char) -> bool {
    let v = c as int;
    ||| 0x09 <= v <= 0x0D
    ||| v == 0x20
    ||| v == 0x85
    ||| v == 0xA0
    ||| v == 0x1680
    ||| 0x2000 <= v <= 0x200A
    ||| v == 0x2028
    ||| v == 0x2029
    ||| v == 0x202F
    ||| v == 0x205F
    ||| v == 0x3000
}

/// The index of the first non-whitespace character of `s` at or after `i`
/// (the length when there is none).
pub open spec fn skip_white_space(s: Seq<char>, i: int) -> int
    decreases s.len() - i,
{
    if 0 <= i < s.len() && is_white_space(s[i]) {
        skip_white_space(s, i + 1)
    } else {
        i
    }
}

/// The end of `s[lo..j]` once its trailing whitespace is dropped.
pub open spec fn drop_trailing_white_space(s: Seq<char>, lo: int, j: int) -> int
    decreases j - lo,
{
    if lo < j && is_white_space(s[j - 1]) {
        drop_trailing_white_space(s, lo, j - 1)
    } else {
        j
    }
}

/// What `str::trim` keeps of a string: the string without its leading and
/// trailing whitespace (see `is_white_space`).
pub open spec fn whitespace_trimmed(s: Seq<char>) -> Seq<char> {
    let a = skip_white_space(s, 0);
    s.subrange(a, drop_trailing_white_space(s, a, s.len() as int))
}

/// Removes leading and trailing whitespace with `str::trim`, whose
/// documentation defines whitespace by the Unicode White_Space property.
/// Stated: the result is `whitespace_trimmed` of the input.
#[verifier::external_body]
pub fn trim_whitespace(s: &str) -> (r: String)
    ensures
        r@ == whitespace_trimmed(s@),
{
    s.trim().to_string()
}

} // verus!
