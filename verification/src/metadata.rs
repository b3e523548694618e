//! The metadata updater: rewrites the `info` block of a document and sets
//! its format version.

use crate::error::MergeError;
use crate::model::{lemma_lookup_wf, lemma_put_wf, lookup, put, Json};
use crate::node::{copy_members, find_member, members_view, put_member, Node};
use vstd::prelude::*;

verus! {

/// The format version that an updated document carries.
pub open spec fn target_version() -> Seq<char> {
    "3.1.0"@
}

/// The members of an `info` block with the three fields set.
pub open spec fn info_with(
    info: Seq<(Seq<char>, Json)>,
    title: Seq<char>,
    description: Seq<char>,
    version: Seq<char>,
) -> Seq<(Seq<char>, Json)> {
    put(
        put(put(info, "title"@, Json::Text(title)), "description"@, Json::Text(description)),
        "version"@,
        Json::Text(version),
    )
}

/// The `info` block after the update: the old block with the three fields
/// set where it is an object, else a block of the three fields alone.
pub open spec fn updated_info(
    old_info: Option<Json>,
    title: Seq<char>,
    description: Seq<char>,
    version: Seq<char>,
) -> Json {
    match old_info {
        Some(Json::Object(info)) => Json::Object(info_with(info, title, description, version)),
        _ => Json::Object(info_with(Seq::empty(), title, description, version)),
    }
}

/// The members of a document after the update.
pub open spec fn updated_members(
    members: Seq<(Seq<char>, Json)>,
    title: Seq<char>,
    description: Seq<char>,
    version: Seq<char>,
) -> Seq<(Seq<char>, Json)> {
    put(
        put(members, "info"@, updated_info(lookup(members, "info"@), title, description, version)),
        "openapi"@,
        Json::Text(target_version()),
    )
}

/// The document after the update. An object keeps its other members; null
/// counts as an object without members; nothing else can be updated.
pub open spec fn with_metadata(
    doc: Json,
    title: Seq<char>,
    description: Seq<char>,
    version: Seq<char>,
) -> Option<Json> {
    match doc {
        Json::Object(members) => Some(
            Json::Object(updated_members(members, title, description, version)),
        ),
        Json::Null => Some(Json::Object(updated_members(Seq::empty(), title, description, version))),
        _ => None,
    }
}

/// Sets the three fields of an `info` block.
fn set_info_fields(info: &mut Vec<(String, Node)>, title: &str, description: &str, version: &str)
    ensures
        members_view(final(info)@) == info_with(
            members_view(old(info)@),
            title@,
            description@,
            version@,
        ),
{
    put_member(info, "title".to_owned(), Node::text(title));
    put_member(info, "description".to_owned(), Node::text(description));
    put_member(info, "version".to_owned(), Node::text(version));
}

/// Updates the members of a document.
fn update_members(
    members: &mut Vec<(String, Node)>,
    title: &str,
    description: &str,
    version: &str,
)
    ensures
        members_view(final(members)@) == updated_members(
            members_view(old(members)@),
            title@,
            description@,
            version@,
        ),
{
    let mut info: Vec<(String, Node)> = Vec::new();
    assert(members_view(info@) =~= Seq::empty());
    match find_member(members, "info") {
        Some(i) => {
            assert(members_view(members@)[i as int].1 == members@[i as int].1@);
            match &members[i].1 {
                Node::Object(old_info) => {
                    info = copy_members(old_info);
                },
                _ => {},
            }
        },
        None => {},
    }
    set_info_fields(&mut info, title, description, version);
    put_member(members, "info".to_owned(), Node::Object(info));
    put_member(members, "openapi".to_owned(), Node::text("3.1.0"));
}

/// Rewrites the `info` block of a document and sets its format version.
///
/// `title`, `description` and `version` are written into `info`, which is
/// made if it is absent or no object, and `openapi` is set to `3.1.0`. A
/// null document is updated like an object without members. A document
/// that is neither an object nor null gives `NotAnObject`.
pub fn update_schema_metadata(schema: &Node, title: &str, description: &str, version: &str) -> (r:
    Result<Node, MergeError>)
    ensures
        match with_metadata(schema@, title@, description@, version@) {
            Some(updated) => r matches Ok(doc) && doc@ == updated,
            None => r matches Err(e) && e@ == crate::error::ErrorModel::NotAnObject,
        },
        schema.wf() ==> (r matches Ok(doc) ==> doc.wf()),
{
    proof {
        if schema.wf() {
            lemma_with_metadata_wf(schema@, title@, description@, version@);
        }
    }
    match schema {
        Node::Object(members) => {
            let mut out = copy_members(members);
            update_members(&mut out, title, description, version);
            Ok(Node::Object(out))
        },
        Node::Null => {
            let mut out: Vec<(String, Node)> = Vec::new();
            assert(members_view(out@) =~= Seq::empty());
            update_members(&mut out, title, description, version);
            Ok(Node::Object(out))
        },
        _ => Err(MergeError::NotAnObject),
    }
}

/// A well-formed document is well formed after the update.
pub proof fn lemma_with_metadata_wf(
    doc: Json,
    title: Seq<char>,
    description: Seq<char>,
    version: Seq<char>,
)
    requires
        doc.wf(),
    ensures
        with_metadata(doc, title, description, version) matches Some(updated) ==> updated.wf(),
{
    let members = match doc {
        Json::Object(members) => members,
        _ => Seq::empty(),
    };
    if doc is Object || doc is Null {
        assert(Json::Object(members).wf());
        lemma_lookup_wf(members, "info"@);
        let info = match lookup(members, "info"@) {
            Some(Json::Object(info)) => info,
            _ => Seq::empty(),
        };
        assert(Json::Object(info).wf());
        let first = put(info, "title"@, Json::Text(title));
        lemma_put_wf(info, "title"@, Json::Text(title));
        let second = put(first, "description"@, Json::Text(description));
        lemma_put_wf(first, "description"@, Json::Text(description));
        lemma_put_wf(second, "version"@, Json::Text(version));
        let new_info = updated_info(lookup(members, "info"@), title, description, version);
        lemma_put_wf(members, "info"@, new_info);
        lemma_put_wf(put(members, "info"@, new_info), "openapi"@, Json::Text(target_version()));
    }
}

} // verus!
