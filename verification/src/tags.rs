//! The tag namespacer: puts the name of the owning service in front of
//! every tag of a document.

use crate::model::{lemma_lookup_wf, lemma_put_wf, lookup, put, Json};
use crate::operations::{
    apply_to_operations, edit_operations, lemma_edit_operations_wf, prefixed, Edit, OperationEdit,
};
use crate::text::join3;
use crate::node::{copy_members, find_member, items_view, members_view, put_member, Node};
use vstd::prelude::*;

verus! {

/// A tag object of the document with the prefix in front of its name. What
/// is not an object, or holds no text under `name`, stays as it is.
pub open spec fn with_prefixed_name(tag: Json, prefix: Seq<char>) -> Json {
    match tag {
        Json::Object(members) => match lookup(members, "name"@) {
            Some(Json::Text(name)) => Json::Object(
                put(members, "name"@, Json::Text(prefixed(prefix, name))),
            ),
            _ => tag,
        },
        _ => tag,
    }
}

/// Each of the tag objects with the prefix in front of its name.
pub open spec fn with_prefixed_names(tags: Seq<Json>, prefix: Seq<char>) -> Seq<Json> {
    Seq::new(tags.len(), |i: int| with_prefixed_name(tags[i], prefix))
}

/// The document with the prefix in front of the name of each tag object
/// under `tags`. A document that is not an object, or holds no array under
/// `tags`, stays as it is.
pub open spec fn with_document_tags(doc: Json, prefix: Seq<char>) -> Json {
    match doc {
        Json::Object(members) => match lookup(members, "tags"@) {
            Some(Json::Array(tags)) => Json::Object(
                put(members, "tags"@, Json::Array(with_prefixed_names(tags, prefix))),
            ),
            _ => doc,
        },
        _ => doc,
    }
}

/// The document with every tag namespaced: the tag objects under `tags`
/// and the tags of every operation under `paths.*.*`.
pub open spec fn namespace_tags(doc: Json, prefix: Seq<char>) -> Json {
    edit_operations(with_document_tags(doc, prefix), Edit::PrefixTags { prefix })
}

/// A tag object with the prefix in front of its name.
pub fn prefix_tag_name(tag: &Node, prefix: &str) -> (r: Node)
    ensures
        r@ == with_prefixed_name(tag@, prefix@),
{
    match tag {
        Node::Object(members) => {
            match find_member(members, "name") {
                Some(i) => {
                    assert(members_view(members@)[i as int].1 == members@[i as int].1@);
                    match &members[i].1 {
                        Node::Text(name) => {
                            let mut out = copy_members(members);
                            put_member(
                                &mut out,
                                "name".to_owned(),
                                Node::Text(join3(prefix, " | ", name.as_str())),
                            );
                            Node::Object(out)
                        },
                        _ => tag.deep_copy(),
                    }
                },
                None => tag.deep_copy(),
            }
        },
        _ => tag.deep_copy(),
    }
}

/// The document with the prefix in front of the name of each tag object
/// under `tags`.
pub fn prefix_document_tags(doc: &Node, prefix: &str) -> (r: Node)
    ensures
        r@ == with_document_tags(doc@, prefix@),
{
    match doc {
        Node::Object(members) => {
            match find_member(members, "tags") {
                Some(i) => {
                    assert(members_view(members@)[i as int].1 == members@[i as int].1@);
                    match &members[i].1 {
                        Node::Array(tags) => {
                            let mut list: Vec<Node> = Vec::new();
                            let mut k: usize = 0;
                            while k < tags.len()
                                invariant
                                    k <= tags.len(),
                                    list@.len() == k,
                                    forall|j: int|
                                        0 <= j < k ==> (#[trigger] list@[j])@
                                            == with_prefixed_name(tags@[j]@, prefix@),
                                decreases tags.len() - k,
                            {
                                list.push(prefix_tag_name(&tags[k], prefix));
                                k += 1;
                            }
                            assert(items_view(list@) =~= with_prefixed_names(
                                items_view(tags@),
                                prefix@,
                            ));
                            let mut out = copy_members(members);
                            put_member(&mut out, "tags".to_owned(), Node::Array(list));
                            Node::Object(out)
                        },
                        _ => doc.deep_copy(),
                    }
                },
                None => doc.deep_copy(),
            }
        },
        _ => doc.deep_copy(),
    }
}

/// Puts `"<service> | "` in front of every tag of the document: the name of
/// each tag object under `tags`, and each text entry of the `tags` of every
/// operation under `paths.*.*`. Tag objects without a text `name` and
/// operation tags that are not text are left as they are.
pub fn add_service_prefix_to_tags(schema: &mut Node, service_name: &str)
    ensures
        final(schema)@ == namespace_tags(old(schema)@, service_name@),
        old(schema).wf() ==> final(schema).wf(),
{
    proof {
        if schema.wf() {
            lemma_namespace_tags_wf(schema@, service_name@);
        }
    }
    let renamed = prefix_document_tags(schema, service_name);
    let edit = OperationEdit::PrefixTags { prefix: service_name };
    *schema = apply_to_operations(&renamed, &edit);
}

/// A tag object stays well formed when its name gets the prefix.
pub proof fn lemma_with_prefixed_name_wf(tag: Json, prefix: Seq<char>)
    requires
        tag.wf(),
    ensures
        with_prefixed_name(tag, prefix).wf(),
{
    match tag {
        Json::Object(members) => {
            match lookup(members, "name"@) {
                Some(Json::Text(name)) => {
                    lemma_put_wf(members, "name"@, Json::Text(prefixed(prefix, name)));
                },
                _ => {},
            }
        },
        _ => {},
    }
}

/// A well-formed document stays well formed when its tags are namespaced.
pub proof fn lemma_namespace_tags_wf(doc: Json, prefix: Seq<char>)
    requires
        doc.wf(),
    ensures
        namespace_tags(doc, prefix).wf(),
{
    match doc {
        Json::Object(members) => {
            match lookup(members, "tags"@) {
                Some(Json::Array(tags)) => {
                    lemma_lookup_wf(members, "tags"@);
                    let renamed = with_prefixed_names(tags, prefix);
                    assert forall|i: int| 0 <= i < renamed.len() implies (#[trigger] renamed[i]).wf() by {
                        assert(tags[i].wf());
                        lemma_with_prefixed_name_wf(tags[i], prefix);
                    }
                    lemma_put_wf(members, "tags"@, Json::Array(renamed));
                },
                _ => {},
            }
        },
        _ => {},
    }
    lemma_edit_operations_wf(with_document_tags(doc, prefix), Edit::PrefixTags { prefix });
}

} // verus!
