//! Decoding of a buffer that was classified as plain text.
//!
//! There is one fallback tier and no sniffing of the character set. A
//! buffer that is valid UTF-8 is decoded as such. Any other buffer is
//! decoded permissively as Windows-1252, byte by byte, and that reading
//! is final.

use vstd::prelude::*;
use vstd::utf8::{decode_utf8, valid_utf8};

verus! {

/// The longest buffer that can be decoded: the Windows-1252 decoder sizes
/// its output at three bytes for each byte of input, and a string holds
/// less than half of what the machine can address.
pub const MAX_DECODABLE: usize = usize::MAX / 8;

/// The characters of the bytes 0x80 to 0x9F under Windows-1252, in the
/// order of the bytes. The five bytes that the code page leaves open
/// stand for the control characters of their own number.
pub open spec fn windows_1252_upper() -> Seq<char> {
    seq![
        '\u{20ac}',
        '\u{81}',
        '\u{201a}',
        '\u{192}',
        '\u{201e}',
        '\u{2026}',
        '\u{2020}',
        '\u{2021}',
        '\u{2c6}',
        '\u{2030}',
        '\u{160}',
        '\u{2039}',
        '\u{152}',
        '\u{8d}',
        '\u{17d}',
        '\u{8f}',
        '\u{90}',
        '\u{2018}',
        '\u{2019}',
        '\u{201c}',
        '\u{201d}',
        '\u{2022}',
        '\u{2013}',
        '\u{2014}',
        '\u{2dc}',
        '\u{2122}',
        '\u{161}',
        '\u{203a}',
        '\u{153}',
        '\u{9d}',
        '\u{17e}',
        '\u{178}',
    ]
}

/// The character of a byte under Windows-1252: a byte of ASCII or of the
/// upper half of Latin-1 stands for the character of its own number, a
/// byte between them for its entry in [`windows_1252_upper`].
pub open spec fn windows_1252_char(byte: u8) -> char {
    if 0x80 <= byte < 0xa0 {
        windows_1252_upper()[byte - 0x80]
    } else {
        byte as char
    }
}

/// The Windows-1252 reading of a buffer: one character for each byte.
pub open spec fn windows_1252_text(bytes: Seq<u8>) -> Seq<char> {
    Seq::new(bytes.len(), |i: int| windows_1252_char(bytes[i]))
}

/// The text of a buffer: its decoding as UTF-8 where it is valid UTF-8,
/// else its Windows-1252 reading.
pub open spec fn normalized_text(bytes: Seq<u8>) -> Seq<char> {
    if valid_utf8(bytes) {
        decode_utf8(bytes)
    } else {
        windows_1252_text(bytes)
    }
}

/// Calls
/// `encoding_rs::UTF_8.decode_without_bom_handling_and_without_replacement`,
/// the strict UTF-8 decoder: it returns the decoded buffer where the
/// buffer is valid UTF-8, and `None` where it meets a malformed sequence.
#[verifier::external_body]
fn read_strict_utf8(data: &[u8]) -> (reading: Option<String>)
    ensures
        match reading {
            Some(text) => valid_utf8(data@) && text@ == decode_utf8(data@),
            None => !valid_utf8(data@),
        },
{
    encoding_rs::UTF_8.decode_without_bom_handling_and_without_replacement(data).map(
        |text| text.into_owned(),
    )
}

/// Calls `encoding_rs::WINDOWS_1252.decode_without_bom_handling`, which
/// decodes each byte to one character: a byte of ASCII or of the upper
/// half of Latin-1 to the character of the same number, any other byte
/// as the table of the encoding has it, which [`windows_1252_upper`]
/// states. The call panics where it cannot size its output, hence the
/// bound.
#[verifier::external_body]
fn read_windows_1252(data: &[u8]) -> (text: String)
    requires
        data@.len() <= MAX_DECODABLE,
    ensures
        text@.len() == data@.len(),
        forall|i: int| 0 <= i < data@.len() ==> #[trigger] text@[i] == windows_1252_char(data@[i]),
{
    encoding_rs::WINDOWS_1252.decode_without_bom_handling(data).0.into_owned()
}

/// The one-tier fallback, given the strict UTF-8 reading of `data`: the
/// reading itself where there is one, else the Windows-1252 reading.
pub fn settle_reading(data: &[u8], reading: Option<String>) -> (text: String)
    requires
        data@.len() <= MAX_DECODABLE,
    ensures
        text@ == match reading {
            Some(strict) => strict@,
            None => windows_1252_text(data@),
        },
{
    match reading {
        Some(strict) => strict,
        None => {
            let text = read_windows_1252(data);
            assert(text@ =~= windows_1252_text(data@));
            text
        },
    }
}

/// Decodes a buffer of plain text.
pub fn normalize(data: &[u8]) -> (text: String)
    requires
        data@.len() <= MAX_DECODABLE,
    ensures
        text@ == normalized_text(data@),
        !valid_utf8(data@) ==> text@.len() == data@.len() && forall|i: int|
            0 <= i < data@.len() ==> #[trigger] text@[i] == windows_1252_char(data@[i]),
{
    let reading = read_strict_utf8(data);
    settle_reading(data, reading)
}

/// The Windows-1252 reading has one character for each byte. A byte of
/// ASCII or from 0xA0 up keeps its number; the byte 0x80 is the euro
/// sign, which tells the code page from Latin-1.
pub proof fn lemma_windows_1252_reading(bytes: Seq<u8>)
    ensures
        windows_1252_text(bytes).len() == bytes.len(),
        forall|i: int|
            0 <= i < bytes.len() && (bytes[i] < 0x80 || bytes[i] >= 0xa0)
                ==> #[trigger] windows_1252_text(bytes)[i] == bytes[i] as char,
        forall|i: int|
            0 <= i < bytes.len() && bytes[i] == 0x80 ==> #[trigger] windows_1252_text(bytes)[i]
                == '\u{20ac}',
        windows_1252_upper().len() == 32,
{
}


} // verus!
