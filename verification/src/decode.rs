//! Decoding the text that a service answers with: by its content type the
//! text is read as JSON, with YAML as the second try, or as YAML alone.

use crate::codec::{json_parsed, json_text, parse_json, parse_yaml, write_json, yaml_parsed};
use crate::model::Json;
use crate::node::Node;
use crate::text::chars_of;
use vstd::prelude::*;

verus! {

/// How a text is decoded.
#[derive(Clone, Copy, Debug, PartialEq, Eq)]
pub enum Decoder {
    /// As JSON; where that fails, as YAML.
    JsonThenYaml,
    /// As YAML.
    Yaml,
}

/// Whether `pattern` stands in `text` at the position `i`.
pub open spec fn occurs_at(text: Seq<char>, pattern: Seq<char>, i: int) -> bool {
    &&& 0 <= i
    &&& i + pattern.len() <= text.len()
    &&& text.subrange(i, i + pattern.len()) == pattern
}

/// Whether `pattern` stands somewhere in `text`.
pub open spec fn contains_text(text: Seq<char>, pattern: Seq<char>) -> bool {
    exists|i: int| occurs_at(text, pattern, i)
}

/// The decoder for a content type in lower case. YAML alone is tried only
/// where the type names YAML and neither JSON nor OpenAPI's own type.
pub open spec fn decoder_for(content_type: Seq<char>) -> Decoder {
    if contains_text(content_type, "vnd.oai.openapi"@) || contains_text(content_type, "json"@) {
        Decoder::JsonThenYaml
    } else if contains_text(content_type, "yaml"@) || contains_text(content_type, "yml"@) {
        Decoder::Yaml
    } else {
        Decoder::JsonThenYaml
    }
}

/// The document that the decoder reads from the text, or the message of
/// the YAML parser where nothing could be read.
pub open spec fn decoded(decoder: Decoder, text: Seq<char>) -> Result<Json, Seq<char>> {
    match decoder {
        Decoder::JsonThenYaml => match json_parsed(text) {
            Ok(tree) => Ok(tree),
            Err(_) => yaml_parsed(text),
        },
        Decoder::Yaml => yaml_parsed(text),
    }
}

/// The lower-case form of a text as `str::to_lowercase` gives it.
pub uninterp spec fn lowercase_of(text: Seq<char>) -> Seq<char>;

/// The lower-case form of a text.
///
/// Calls std's `str::to_lowercase`, which lower-cases by the rules of
/// Unicode. The contract claims only that the result depends on the text
/// alone.
#[verifier::external_body]
fn to_lowercase(text: &str) -> (r: String)
    ensures
        r@ == lowercase_of(text@),
{
    text.to_lowercase()
}

/// Whether `pattern` stands in `text` at the position `i`.
fn matches_at(text: &Vec<char>, pattern: &Vec<char>, i: usize) -> (r: bool)
    requires
        i + pattern.len() <= text.len(),
    ensures
        r == occurs_at(text@, pattern@, i as int),
{
    let mut k: usize = 0;
    while k < pattern.len()
        invariant
            k <= pattern.len(),
            i + pattern.len() <= text.len(),
            forall|j: int| 0 <= j < k ==> text@[i + j] == pattern@[j],
        decreases pattern.len() - k,
    {
        if text[i + k] != pattern[k] {
            assert(text@.subrange(i as int, i + pattern.len())[k as int] != pattern@[k as int]);
            return false;
        }
        k += 1;
    }
    assert(text@.subrange(i as int, i + pattern.len()) =~= pattern@);
    true
}

/// Whether `pattern` stands somewhere in `text`.
pub fn contains(text: &str, pattern: &str) -> (r: bool)
    ensures
        r == contains_text(text@, pattern@),
{
    let hay = chars_of(text);
    let needle = chars_of(pattern);
    if needle.len() > hay.len() {
        return false;
    }
    let last: usize = hay.len() - needle.len();
    let mut i: usize = 0;
    while i < last
        invariant
            i <= last,
            last == hay.len() - needle.len(),
            needle.len() <= hay.len(),
            hay@ == text@,
            needle@ == pattern@,
            forall|j: int| 0 <= j < i ==> !occurs_at(text@, pattern@, j),
        decreases last - i,
    {
        if matches_at(&hay, &needle, i) {
            return true;
        }
        i += 1;
    }
    matches_at(&hay, &needle, last)
}

/// The decoder for a content type in lower case.
pub fn choose_decoder(content_type: &str) -> (r: Decoder)
    ensures
        r == decoder_for(content_type@),
{
    if contains(content_type, "vnd.oai.openapi") || contains(content_type, "json") {
        Decoder::JsonThenYaml
    } else if contains(content_type, "yaml") || contains(content_type, "yml") {
        Decoder::Yaml
    } else {
        Decoder::JsonThenYaml
    }
}

/// Reads a document from a text with the given decoder.
pub fn decode_with(decoder: Decoder, text: &str) -> (r: Result<Node, String>)
    ensures
        match r {
            Ok(doc) => decoded(decoder, text@) == Ok::<Json, Seq<char>>(doc@) && doc.wf(),
            Err(message) => decoded(decoder, text@) == Err::<Json, Seq<char>>(message@),
        },
{
    match decoder {
        Decoder::JsonThenYaml => match parse_json(text) {
            Ok(doc) => Ok(doc),
            Err(_) => parse_yaml(text),
        },
        Decoder::Yaml => parse_yaml(text),
    }
}

/// The JSON text of the document that a service's answer holds, or a
/// message that says why there is none.
pub open spec fn decoded_text(content_type: Seq<char>, text: Seq<char>) -> Result<
    Seq<char>,
    Seq<char>,
> {
    match decoded(decoder_for(lowercase_of(content_type)), text) {
        Ok(doc) => json_text(doc),
        Err(message) => Err(message),
    }
}

/// Decodes the text that a service answered with and hands the document
/// back as JSON text.
///
/// The content type is compared in lower case. A type that names JSON or
/// `vnd.oai.openapi`, and one that names neither these nor YAML, has the
/// text read as JSON and, where that fails, as YAML. A type that names
/// `yaml` or `yml` only has it read as YAML.
pub fn decode_schema(content_type: &str, text: &str) -> (r: Result<String, String>)
    ensures
        match r {
            Ok(json) => decoded_text(content_type@, text@) == Ok::<Seq<char>, Seq<char>>(json@),
            Err(message) => decoded_text(content_type@, text@) == Err::<Seq<char>, Seq<char>>(
                message@,
            ),
        },
{
    let lowered = to_lowercase(content_type);
    let decoder = choose_decoder(lowered.as_str());
    match decode_with(decoder, text) {
        Ok(doc) => write_json(&doc),
        Err(message) => Err(message),
    }
}

} // verus!
