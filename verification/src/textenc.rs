//! The boundary to the character coders.  The format stores text either as
//! UTF-16LE code units or in a Windows code page that the caller names by its
//! number; what those coders return is named here and relied upon, while all
//! the surrounding logic is verified against the names.

use vstd::prelude::*;
use vstd::utf8::is_ascii_chars;

verus! {

/// The text that the code-page coder reads out of `bytes` under the Windows
/// code page numbered `code_page`, or nothing where the code page is unknown
/// or a byte sequence is invalid in it.
pub uninterp spec fn cp_decoded(code_page: u16, bytes: Seq<u8>) -> Option<Seq<char>>;

/// The bytes that the code-page coder produces for `text` under the Windows
/// code page numbered `code_page`, or nothing where the code page is unknown
/// or a character cannot be represented in it.
pub uninterp spec fn cp_encoded(code_page: u16, text: Seq<char>) -> Option<Seq<u8>>;

/// The UTF-16 code units of one character: the code point itself below
/// 0x10000, else a surrogate pair.
pub open spec fn utf16_units_of_char(c: char) -> Seq<u16> {
    if (c as int) < 0x10000 {
        seq![(c as int) as u16]
    } else {
        seq![
            (0xD800 + ((c as int) - 0x10000) / 0x400) as u16,
            (0xDC00 + ((c as int) - 0x10000) % 0x400) as u16,
        ]
    }
}

/// The UTF-16 code units of `text`, character by character.
pub open spec fn utf16_units_of(text: Seq<char>) -> Seq<u16>
    decreases text.len(),
{
    if text.len() == 0 {
        Seq::empty()
    } else {
        utf16_units_of_char(text[0]) + utf16_units_of(text.skip(1))
    }
}

/// The text read out of UTF-16 code units, or nothing where they are not
/// valid UTF-16 (an unpaired surrogate).
pub uninterp spec fn utf16_decoded(units: Seq<u16>) -> Option<Seq<char>>;

/// Every byte is an ASCII byte.
pub open spec fn is_ascii_bytes(b: Seq<u8>) -> bool {
    forall|i: int| 0 <= i < b.len() ==> b[i] < 0x80
}

/// `text` is exactly `bytes` read as ASCII characters.
pub open spec fn ascii_matches(bytes: Seq<u8>, text: Seq<char>) -> bool {
    &&& bytes.len() == text.len()
    &&& forall|i: int| 0 <= i < bytes.len() ==> bytes[i] == #[trigger] text[i] as u8
    &&& is_ascii_chars(text)
    &&& is_ascii_bytes(bytes)
}

/// Relies on `encoding_rs::Encoding::for_label` (to resolve the label
/// `windows-<code_page>`) and `encoding_rs::Encoding::decode_without_bom_handling`:
/// the decoded text is a function of the code page and the bytes alone, and
/// every encoding such a label resolves to is ASCII-compatible, so ASCII-only
/// bytes decode to the same characters.
#[verifier::external_body]
pub(crate) fn cp_decode(code_page: u16, bytes: &[u8]) -> (r: Option<String>)
    ensures
        match r {
            Some(s) => cp_decoded(code_page, bytes@) == Some(s@),
            None => cp_decoded(code_page, bytes@) is None,
        },
        r matches Some(s) ==> (is_ascii_bytes(bytes@) ==> ascii_matches(bytes@, s@)),
{
    let label = format!("windows-{}", code_page);
    let enc = encoding_rs::Encoding::for_label(label.as_bytes())?;
    let (text, had_errors) = enc.decode_without_bom_handling(bytes);
    if had_errors {
        None
    } else {
        Some(text.into_owned())
    }
}

/// Relies on `encoding_rs::Encoding::for_label` and
/// `encoding_rs::Encoding::encode`: the encoded bytes are a function of the
/// code page and the text alone, every character yields at least one byte,
/// and an ASCII-only text encodes to exactly its ASCII bytes (the coder
/// returns the input bytes unchanged then).
#[verifier::external_body]
pub(crate) fn cp_encode(code_page: u16, text: &str) -> (r: Option<Vec<u8>>)
    ensures
        match r {
            Some(b) => cp_encoded(code_page, text@) == Some(b@) && b@.len() >= text@.len(),
            None => cp_encoded(code_page, text@) is None,
        },
        r matches Some(b) ==> (is_ascii_chars(text@) ==> ascii_matches(b@, text@)),
{
    let label = format!("windows-{}", code_page);
    let enc = encoding_rs::Encoding::for_label(label.as_bytes())?;
    let (bytes, _, had_errors) = enc.encode(text);
    if had_errors {
        None
    } else {
        Some(bytes.into_owned())
    }
}

/// Relies on `str::encode_utf16`: it produces exactly the units that
/// `utf16_units_of` states, so every character yields at least one unit, and
/// decoding them (valid UTF-16 by construction) gives the text back.
#[verifier::external_body]
pub(crate) fn utf16_units(text: &str) -> (r: Vec<u16>)
    ensures
        r@ == utf16_units_of(text@),
        r@.len() >= text@.len(),
        utf16_decoded(r@) == Some(text@),
{
    text.encode_utf16().collect()
}

/// Relies on `String::from_utf16`: it succeeds exactly on valid UTF-16, and
/// `str::encode_utf16` maps the decoded text back to the same units.
#[verifier::external_body]
pub(crate) fn utf16_decode(units: &[u16]) -> (r: Option<String>)
    ensures
        match r {
            Some(s) => utf16_decoded(units@) == Some(s@) && utf16_units_of(s@) == units@,
            None => utf16_decoded(units@) is None,
        },
{
    String::from_utf16(units).ok()
}

} // verus!
