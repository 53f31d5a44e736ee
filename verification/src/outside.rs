//! The calls into other crates. Nothing in this file is proved: each
//! function states what is taken on trust of the call that it makes.

use vstd::prelude::*;
use crate::json::{Json, JsonView};
use crate::text::strings_view;

verus! {

/// Appends one character with `String::push`. Trusted: std documents that
/// the character is appended to the end of the string.
#[verifier::external_body]
pub(crate) fn push_char(s: &mut String, c: char)
    ensures
        final(s)@ == old(s)@.push(c),
{
    s.push(c)
}

/// The values of `serde_json`, which the library takes over without
/// looking into them.
#[verifier::external_type_specification]
#[verifier::external_body]
pub struct ExJsonValue(serde_json::Value);

/// What `serde_json` reads from a text: the value, or the words of its
/// complaint.
pub uninterp spec fn parsed_json(text: Seq<char>) -> Result<JsonView, Seq<char>>;

/// The library's form of a `serde_json::Value`, variant by variant; a number
/// becomes the text that `serde_json` writes for it, and the members of an
/// object come in the order in which `serde_json` holds them. Trusted: a
/// conversion, of which nothing is claimed.
#[verifier::external_body]
fn json_of(value: &serde_json::Value) -> Json {
    match value {
        serde_json::Value::Null => Json::Null,
        serde_json::Value::Bool(b) => Json::Bool(*b),
        serde_json::Value::Number(n) => Json::Number(n.to_string()),
        serde_json::Value::String(s) => Json::Text(s.clone()),
        serde_json::Value::Array(items) => Json::Array(items.iter().map(json_of).collect()),
        serde_json::Value::Object(map) => Json::Object(
            map.iter().map(|(k, v)| (k.clone(), json_of(v))).collect(),
        ),
    }
}

/// Reads a JSON text with `serde_json::from_str`. Trusted: the outcome
/// depends on the text alone; what it is for a given text is not stated.
#[verifier::external_body]
pub(crate) fn parse_json(text: &str) -> (r: Result<Json, String>)
    ensures
        match r {
            Ok(json) => parsed_json(text@) == Ok::<JsonView, Seq<char>>(json@),
            Err(words) => parsed_json(text@) == Err::<JsonView, Seq<char>>(words@),
        },
{
    match serde_json::from_str::<serde_json::Value>(text) {
        Ok(value) => Ok(json_of(&value)),
        Err(e) => Err(e.to_string()),
    }
}

/// Whether a byte stands for itself in a percent-encoded text: the ASCII
/// letters and digits and `-`, `.`, `_`, `~`.
pub open spec fn is_unreserved(b: u8) -> bool {
    (0x30 <= b <= 0x39) || (0x41 <= b <= 0x5A) || (0x61 <= b <= 0x7A) || b == 0x2D || b == 0x2E
        || b == 0x5F || b == 0x7E
}

/// The upper-case hexadecimal digit for a value below sixteen.
pub open spec fn hex_upper(d: u8) -> char {
    if d < 10 {
        (0x30 + d) as char
    } else {
        (0x41 + (d - 10)) as char
    }
}

/// Bytes in percent-encoding: an unreserved byte stands for itself, every
/// other byte is written as `%` and its two hexadecimal digits.
pub open spec fn percent_encoded(bytes: Seq<u8>) -> Seq<char>
    decreases bytes.len(),
{
    if bytes.len() == 0 {
        Seq::empty()
    } else {
        let b = bytes.last();
        percent_encoded(bytes.drop_last()) + if is_unreserved(b) {
            seq![b as char]
        } else {
            seq!['%', hex_upper(b / 16), hex_upper(b % 16)]
        }
    }
}

/// Percent-encodes a text with `urlencoding::encode`. Trusted: every byte of
/// the text's UTF-8 form except the ASCII letters and digits and `-`, `.`,
/// `_`, `~` is written as `%` and two upper-case hexadecimal digits.
#[verifier::external_body]
pub(crate) fn url_encode(text: &str) -> (r: String)
    ensures
        r@ == percent_encoded(vstd::utf8::encode_utf8(text@)),
{
    urlencoding::encode(text).into_owned()
}

/// The CRC-32 checksum that `crc32fast` computes of a run of bytes.
pub uninterp spec fn crc32_of(bytes: Seq<u8>) -> u32;

/// The checksum of `bytes`, computed by `crc32fast::hash`. Trusted: the
/// checksum depends on the bytes alone.
#[verifier::external_body]
pub(crate) fn crc32(bytes: &[u8]) -> (r: u32)
    ensures
        r == crc32_of(bytes@),
{
    crc32fast::hash(bytes)
}

/// What `regex` leaves of a text when the first match of a pattern is
/// replaced; `None` for a pattern that `regex` does not take.
pub uninterp spec fn replaced_first(pattern: Seq<char>, text: Seq<char>, with: Seq<char>) -> Option<
    Seq<char>,
>;

/// Replaces the first match of `pattern` in `text` with `Regex::new` and
/// `Regex::replace`. Trusted: the outcome depends on the three texts alone;
/// a pattern that `Regex::new` refuses gives `None`.
#[verifier::external_body]
pub(crate) fn regex_replace_first(pattern: &str, text: &str, with: &str) -> (r: Option<String>)
    ensures
        crate::text::opt_view(r) == replaced_first(pattern@, text@, with@),
{
    match regex::Regex::new(pattern) {
        Ok(re) => Some(re.replace(text, with).into_owned()),
        Err(_) => None,
    }
}

/// What `regex` leaves of a text when every match of a pattern is replaced;
/// `None` for a pattern that `regex` does not take.
pub uninterp spec fn replaced_all(pattern: Seq<char>, text: Seq<char>, with: Seq<char>) -> Option<
    Seq<char>,
>;

/// Replaces every match of `pattern` in `text` with `Regex::new` and
/// `Regex::replace_all`. Trusted: the outcome depends on the three texts
/// alone; a pattern that `Regex::new` refuses gives `None`.
#[verifier::external_body]
pub(crate) fn regex_replace_all(pattern: &str, text: &str, with: &str) -> (r: Option<String>)
    ensures
        crate::text::opt_view(r) == replaced_all(pattern@, text@, with@),
{
    match regex::Regex::new(pattern) {
        Ok(re) => Some(re.replace_all(text, with).into_owned()),
        Err(_) => None,
    }
}

/// Texts put together with `sep` between each two of them.
pub open spec fn joined_with(parts: Seq<Seq<char>>, sep: Seq<char>) -> Seq<char>
    decreases parts.len(),
{
    if parts.len() == 0 {
        Seq::empty()
    } else if parts.len() == 1 {
        parts[0]
    } else {
        joined_with(parts.drop_last(), sep) + sep + parts.last()
    }
}

/// Puts `parts` together with `Itertools::join`. Trusted: the result is
/// the parts in their order with `sep` between each two of them.
#[verifier::external_body]
pub(crate) fn join_with(parts: &Vec<String>, sep: &str) -> (r: String)
    ensures
        r@ == joined_with(strings_view(parts@), sep@),
{
    itertools::Itertools::join(&mut parts.iter(), sep)
}

/// A text in lower case, as `str::to_lowercase` gives it.
pub uninterp spec fn lowercased(text: Seq<char>) -> Seq<char>;

/// Turns a text into lower case with `str::to_lowercase`. Trusted: the
/// result depends on the text alone.
#[verifier::external_body]
pub(crate) fn lowercase(text: &str) -> (r: String)
    ensures
        r@ == lowercased(text@),
{
    text.to_lowercase()
}

} // verus!
