//! The JSON decoder: a buffer that parses as JSON is printed again with
//! indentation; any other buffer is returned as text.

use vstd::prelude::*;
use vstd::utf8::{decode_utf8, valid_utf8};

verus! {

/// A parsed JSON document of `serde_json`.
#[verifier::external_type_specification]
#[verifier::external_body]
pub struct ExValue(serde_json::Value);

/// The text that `String::from_utf8_lossy` returns for `bytes`.
pub uninterp spec fn lossy_reading(bytes: Seq<u8>) -> Seq<char>;

/// Whether `serde_json::from_str` accepts `text` as a JSON document.
pub uninterp spec fn is_json(text: Seq<char>) -> bool;

/// Calls `String::from_utf8_lossy`, which decodes a buffer as UTF-8 and
/// puts U+FFFD in the place of what is malformed. The text is a function
/// of the bytes alone, named [`lossy_reading`]; of a valid buffer it is
/// the decoded buffer.
#[verifier::external_body]
fn read_lossy(data: &[u8]) -> (text: String)
    ensures
        text@ == lossy_reading(data@),
        valid_utf8(data@) ==> text@ == decode_utf8(data@),
{
    String::from_utf8_lossy(data).into_owned()
}

/// The indented printing, by `serde_json::to_string_pretty`, of the
/// document that `serde_json::from_str` reads from `text`; `None` where
/// the document cannot be printed.
pub uninterp spec fn pretty_printing(text: Seq<char>) -> Option<Seq<char>>;

/// What a document holds, as `serde_json::to_string_pretty` prints it;
/// `None` where it cannot be printed.
pub uninterp spec fn value_printing(value: serde_json::Value) -> Option<Seq<char>>;

/// The output of the JSON decoder for a buffer that reads as `text`: the
/// indented printing of its document where it is JSON and can be printed,
/// else the text itself.
pub open spec fn json_output(text: Seq<char>) -> Seq<char> {
    if is_json(text) && pretty_printing(text) is Some {
        pretty_printing(text)->0
    } else {
        text
    }
}

/// Calls `serde_json::from_str` for a `serde_json::Value`. Whether it
/// succeeds is a function of the text alone, named [`is_json`], and so is
/// what the document prints as, named [`pretty_printing`].
#[verifier::external_body]
fn read_value(text: &str) -> (value: Option<serde_json::Value>)
    ensures
        match value {
            Some(document) => is_json(text@) && value_printing(document) == pretty_printing(
                text@,
            ),
            None => !is_json(text@),
        },
{
    serde_json::from_str::<serde_json::Value>(text).ok()
}

/// Calls `serde_json::to_string_pretty`: what the document holds, as it
/// is printed with indentation.
#[verifier::external_body]
fn print_value(value: &serde_json::Value) -> (printed: Option<String>)
    ensures
        match printed {
            Some(text) => value_printing(*value) == Some(text@),
            None => value_printing(*value) is None,
        },
{
    serde_json::to_string_pretty(value).ok()
}

/// The output for a buffer that reads as `text`, given the indented
/// printing of its document where there is one: the printing, or the text
/// itself without one.
pub fn settle_json(text: String, printed: Option<String>) -> (output: String)
    ensures
        output@ == match printed {
            Some(pretty) => pretty@,
            None => text@,
        },
{
    match printed {
        Some(pretty) => pretty,
        None => text,
    }
}

/// What the JSON decoder returns for a buffer: it never fails.
pub open spec fn json_outcome(data: Seq<u8>) -> Result<Seq<char>, Seq<char>> {
    Ok(json_output(lossy_reading(data)))
}

/// Decodes a JSON buffer: the indented printing of its document, or the
/// lossy UTF-8 reading of a buffer that is not JSON.
pub fn parse_json(data: &[u8]) -> (output: String)
    ensures
        output@ == json_output(lossy_reading(data@)),
{
    let text = read_lossy(data);
    let printed = match read_value(text.as_str()) {
        Some(value) => print_value(&value),
        None => None,
    };
    settle_json(text, printed)
}

} // verus!
