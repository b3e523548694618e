//! The document validator: the structural validation that a document passes
//! before it takes part in a merge.

use crate::model::{has_key, lookup, Json};
use crate::node::{find_member, members_view, Node};
use vstd::prelude::*;

verus! {

/// Whether the members are those of an `info` block: `title` and `version`
/// are there.
pub open spec fn is_info(members: Seq<(Seq<char>, Json)>) -> bool {
    has_key(members, "title"@) && has_key(members, "version"@)
}

/// Whether a document is well enough formed to be merged: it is an object
/// that holds `openapi` or `swagger`, an `info` object with `title` and
/// `version`, and a `paths` object.
pub open spec fn is_valid_document(doc: Json) -> bool {
    match doc {
        Json::Object(members) => {
            &&& has_key(members, "openapi"@) || has_key(members, "swagger"@)
            &&& lookup(members, "info"@) matches Some(Json::Object(info)) && is_info(info)
            &&& lookup(members, "paths"@) matches Some(Json::Object(_))
        },
        _ => false,
    }
}

/// Validates the structure of a document before a merge.
///
/// The answer is `true` exactly when the document is an object with a
/// version marker (`openapi` or `swagger`), an `info` object that holds
/// `title` and `version`, and a `paths` object, which may be empty.
pub fn validate_schema(schema: &Node) -> (r: bool)
    ensures
        r == is_valid_document(schema@),
{
    match schema {
        Node::Object(members) => {
            if find_member(members, "openapi").is_none() && find_member(members, "swagger").is_none() {
                return false;
            }
            let info_ok = match find_member(members, "info") {
                Some(i) => {
                    assert(members_view(members@)[i as int].1 == members@[i as int].1@);
                    match &members[i].1 {
                        Node::Object(info) => find_member(info, "title").is_some() && find_member(
                            info,
                            "version",
                        ).is_some(),
                        _ => false,
                    }
                },
                None => false,
            };
            if !info_ok {
                return false;
            }
            match find_member(members, "paths") {
                Some(p) => {
                    assert(members_view(members@)[p as int].1 == members@[p as int].1@);
                    members[p].1.is_object()
                },
                None => false,
            }
        },
        _ => false,
    }
}

} // verus!
