//! Reading and writing documents as JSON and YAML text, through
//! `serde_json` and `serde_yaml`.

use crate::model::Json;
use crate::node::Node;
use serde_json::Value as Tree;
use vstd::prelude::*;

verus! {

/// `serde_json::Value`, carried between the functions of this module. The
/// library sees nothing of what a value holds but what `outside_tree` names.
#[verifier::external_type_specification]
#[verifier::external_body]
pub struct ExTree(serde_json::Value);

/// `serde_json::Error`, of which the library uses the message alone.
#[verifier::external_type_specification]
#[verifier::external_body]
pub struct ExJsonError(serde_json::Error);

/// `serde_yaml::Error`, of which the library uses the message alone.
#[verifier::external_type_specification]
#[verifier::external_body]
pub struct ExYamlError(serde_yaml::Error);

/// What a `serde_json::Value` holds: its tree, with the members of each
/// object in the order in which its map hands them out, and each number as
/// the text that it is displayed as.
pub uninterp spec fn outside_tree(v: serde_json::Value) -> Json;

/// The message of a `serde_json::Error`: what its `Display` writes.
pub uninterp spec fn json_error_text(e: serde_json::Error) -> Seq<char>;

/// The message of a `serde_yaml::Error`: what its `Display` writes.
pub uninterp spec fn yaml_error_text(e: serde_yaml::Error) -> Seq<char>;

/// What `serde_json::from_str` makes of a text: the tree of the value, or
/// the message of the error.
pub uninterp spec fn json_parsed(text: Seq<char>) -> Result<Json, Seq<char>>;

/// What `serde_yaml::from_str` makes of a text: the tree of the value, or
/// the message of the error.
pub uninterp spec fn yaml_parsed(text: Seq<char>) -> Result<Json, Seq<char>>;

/// The tree of the `serde_json::Value` that a document is turned into, or
/// the message of the error where one of its numbers is no number.
pub uninterp spec fn outside_form(tree: Json) -> Result<Json, Seq<char>>;

/// What `serde_json::to_string` writes for a value with the given tree, or
/// the message of the error.
pub uninterp spec fn json_written(tree: Json) -> Result<Seq<char>, Seq<char>>;

/// Parses a JSON text.
///
/// Calls `serde_json::from_str` for a `serde_json::Value`. The contract
/// claims only that the result depends on the text alone.
#[verifier::external_body]
pub(crate) fn json_from_str(text: &str) -> (r: Result<Tree, serde_json::Error>)
    ensures
        match r {
            Ok(v) => json_parsed(text@) == Ok::<Json, Seq<char>>(outside_tree(v)),
            Err(e) => json_parsed(text@) == Err::<Json, Seq<char>>(json_error_text(e)),
        },
{
    serde_json::from_str::<Tree>(text)
}

/// Parses a YAML text.
///
/// Calls `serde_yaml::from_str` for a `serde_json::Value`. The contract
/// claims only that the result depends on the text alone.
#[verifier::external_body]
pub(crate) fn yaml_from_str(text: &str) -> (r: Result<Tree, serde_yaml::Error>)
    ensures
        match r {
            Ok(v) => yaml_parsed(text@) == Ok::<Json, Seq<char>>(outside_tree(v)),
            Err(e) => yaml_parsed(text@) == Err::<Json, Seq<char>>(yaml_error_text(e)),
        },
{
    serde_yaml::from_str::<Tree>(text)
}

/// Writes a value as JSON text.
///
/// Calls `serde_json::to_string`. The contract claims only that the result
/// depends on the value's tree alone.
#[verifier::external_body]
pub(crate) fn json_to_string(v: &Tree) -> (r: Result<String, serde_json::Error>)
    ensures
        match r {
            Ok(text) => json_written(outside_tree(*v)) == Ok::<Seq<char>, Seq<char>>(text@),
            Err(e) => json_written(outside_tree(*v)) == Err::<Seq<char>, Seq<char>>(
                json_error_text(e),
            ),
        },
{
    serde_json::to_string(v)
}

/// The message of a JSON error: calls the `Display` of `serde_json::Error`
/// through `to_string`.
#[verifier::external_body]
pub(crate) fn json_error_message(e: &serde_json::Error) -> (r: String)
    ensures
        r@ == json_error_text(*e),
{
    e.to_string()
}

/// The message of a YAML error: calls the `Display` of `serde_yaml::Error`
/// through `to_string`.
#[verifier::external_body]
pub(crate) fn yaml_error_message(e: &serde_yaml::Error) -> (r: String)
    ensures
        r@ == yaml_error_text(*e),
{
    e.to_string()
}

/// Turns a `serde_json::Value` into a document, variant by variant.
///
/// A number becomes the text that `serde_json::Number` is displayed as. An
/// object's members come in the order of its `serde_json::Map`. The
/// contract claims that the document is the value's tree, and that it is
/// well formed: a map holds each key once.
#[verifier::external_body]
pub(crate) fn from_outside(v: Tree) -> (r: Node)
    ensures
        r@ == outside_tree(v),
        r.wf(),
{
    match v {
        Tree::Null => Node::Null,
        Tree::Bool(b) => Node::Bool(b),
        Tree::Number(n) => Node::Number(n.to_string()),
        Tree::String(s) => Node::Text(s),
        Tree::Array(a) => Node::Array(a.into_iter().map(from_outside).collect()),
        Tree::Object(m) => Node::Object(m.into_iter().map(|(k, x)| (k, from_outside(x))).collect()),
    }
}

/// Turns a document into a `serde_json::Value`, variant by variant.
///
/// A number's text is parsed by `serde_json::Number`'s `FromStr`, whose
/// error ends the conversion. The members of an object go into a
/// `serde_json::Map`, which orders them in its own way and keeps the last
/// of those that share a key. The contract claims only that the result
/// depends on the document alone.
#[verifier::external_body]
pub(crate) fn to_outside(v: &Node) -> (r: Result<Tree, serde_json::Error>)
    ensures
        match r {
            Ok(o) => outside_form(v@) == Ok::<Json, Seq<char>>(outside_tree(o)),
            Err(e) => outside_form(v@) == Err::<Json, Seq<char>>(json_error_text(e)),
        },
{
    Ok(match v {
        Node::Null => Tree::Null,
        Node::Bool(b) => Tree::Bool(*b),
        Node::Number(n) => Tree::Number(n.parse()?),
        Node::Text(s) => Tree::String(s.clone()),
        Node::Array(a) => Tree::Array(a.iter().map(to_outside).collect::<Result<_, _>>()?),
        Node::Object(m) => Tree::Object(
            m.iter().map(|(k, x)| Ok((k.clone(), to_outside(x)?))).collect::<Result<_, serde_json::Error>>()?,
        ),
    })
}

/// The JSON text of a document, or the message of the error.
pub open spec fn json_text(tree: Json) -> Result<Seq<char>, Seq<char>> {
    match outside_form(tree) {
        Ok(outside) => json_written(outside),
        Err(message) => Err(message),
    }
}

/// Reads a document from JSON text.
pub fn parse_json(text: &str) -> (r: Result<Node, String>)
    ensures
        match r {
            Ok(v) => json_parsed(text@) == Ok::<Json, Seq<char>>(v@) && v.wf(),
            Err(message) => json_parsed(text@) == Err::<Json, Seq<char>>(message@),
        },
{
    match json_from_str(text) {
        Ok(tree) => Ok(from_outside(tree)),
        Err(e) => Err(json_error_message(&e)),
    }
}

/// Reads a document from YAML text.
pub fn parse_yaml(text: &str) -> (r: Result<Node, String>)
    ensures
        match r {
            Ok(v) => yaml_parsed(text@) == Ok::<Json, Seq<char>>(v@) && v.wf(),
            Err(message) => yaml_parsed(text@) == Err::<Json, Seq<char>>(message@),
        },
{
    match yaml_from_str(text) {
        Ok(tree) => Ok(from_outside(tree)),
        Err(e) => Err(yaml_error_message(&e)),
    }
}

/// Writes a document as JSON text.
pub fn write_json(v: &Node) -> (r: Result<String, String>)
    ensures
        match r {
            Ok(text) => json_text(v@) == Ok::<Seq<char>, Seq<char>>(text@),
            Err(message) => json_text(v@) == Err::<Seq<char>, Seq<char>>(message@),
        },
{
    match to_outside(v) {
        Ok(tree) => match json_to_string(&tree) {
            Ok(text) => Ok(text),
            Err(e) => Err(json_error_message(&e)),
        },
        Err(e) => Err(json_error_message(&e)),
    }
}

} // verus!
