//! The walk over the operations of a document, `paths.*.*`, and the two
//! edits that are applied to each operation: adding a server entry and
//! prefixing the tags.

use crate::model::{lemma_lookup_wf, lemma_put_wf, lookup, put, Json};
use crate::text::{join3, same_text};
use crate::node::{copy_items, copy_members, find_member, items_view, members_view, put_member, Node};
use vstd::prelude::*;

verus! {

/// The model of an edit of one operation.
pub enum Edit {
    /// Add `entry` to the servers unless one of them has the URL `url`.
    AddServer { url: Seq<char>, entry: Json },
    /// Put `prefix` and a separator in front of every tag.
    PrefixTags { prefix: Seq<char> },
}

/// An edit of one operation.
pub enum OperationEdit<'a> {
    /// Add `entry` to the servers unless one of them has the URL `url`.
    AddServer { url: &'a str, entry: &'a Node },
    /// Put `prefix` and a separator in front of every tag.
    PrefixTags { prefix: &'a str },
}

impl<'a> View for OperationEdit<'a> {
    type V = Edit;

    open spec fn view(&self) -> Edit {
        match self {
            OperationEdit::AddServer { url, entry } => Edit::AddServer { url: url@, entry: entry@ },
            OperationEdit::PrefixTags { prefix } => Edit::PrefixTags { prefix: prefix@ },
        }
    }
}

/// Whether one of the servers is an object whose `url` is the text `url`.
pub open spec fn lists_url(servers: Seq<Json>, url: Seq<char>) -> bool {
    exists|i: int| 0 <= i < servers.len() && (#[trigger] servers[i]).get("url"@) == Some(Json::Text(url))
}

/// The servers of an operation with the given members: none where the key
/// is absent, and no list at all where `servers` is not an array.
pub open spec fn server_list(members: Seq<(Seq<char>, Json)>) -> Option<Seq<Json>> {
    match lookup(members, "servers"@) {
        None => Some(Seq::empty()),
        Some(Json::Array(servers)) => Some(servers),
        Some(_) => None,
    }
}

/// The operation with `entry` added to its servers, unless one of them has
/// the URL `url` already. What is not an object, or holds a `servers` that
/// is not an array, stays as it is.
pub open spec fn with_server(op: Json, url: Seq<char>, entry: Json) -> Json {
    match op {
        Json::Object(members) => match server_list(members) {
            Some(servers) => if lists_url(servers, url) {
                op
            } else {
                Json::Object(put(members, "servers"@, Json::Array(servers.push(entry))))
            },
            None => op,
        },
        _ => op,
    }
}

/// The tag name `tag` of the service `prefix`.
pub open spec fn prefixed(prefix: Seq<char>, tag: Seq<char>) -> Seq<char> {
    prefix + " | "@ + tag
}

/// A tag of an operation with the prefix in front; what is not text stays
/// as it is.
pub open spec fn with_prefix(tag: Json, prefix: Seq<char>) -> Json {
    match tag {
        Json::Text(t) => Json::Text(prefixed(prefix, t)),
        _ => tag,
    }
}

/// Each of the tags with the prefix in front.
pub open spec fn with_prefixes(tags: Seq<Json>, prefix: Seq<char>) -> Seq<Json> {
    Seq::new(tags.len(), |i: int| with_prefix(tags[i], prefix))
}

/// The operation with the prefix in front of each of its tags. What is not
/// an object, or holds no array under `tags`, stays as it is.
pub open spec fn with_prefixed_tags(op: Json, prefix: Seq<char>) -> Json {
    match op {
        Json::Object(members) => match lookup(members, "tags"@) {
            Some(Json::Array(tags)) => Json::Object(
                put(members, "tags"@, Json::Array(with_prefixes(tags, prefix))),
            ),
            _ => op,
        },
        _ => op,
    }
}

/// The operation after the edit.
pub open spec fn edit_operation(op: Json, edit: Edit) -> Json {
    match edit {
        Edit::AddServer { url, entry } => with_server(op, url, entry),
        Edit::PrefixTags { prefix } => with_prefixed_tags(op, prefix),
    }
}

/// The methods of a path with each operation edited.
pub open spec fn edit_methods(methods: Seq<(Seq<char>, Json)>, edit: Edit) -> Seq<(Seq<char>, Json)> {
    Seq::new(methods.len(), |i: int| (methods[i].0, edit_operation(methods[i].1, edit)))
}

/// A path's item with each operation edited; what is not an object stays as
/// it is.
pub open spec fn edit_path_item(item: Json, edit: Edit) -> Json {
    match item {
        Json::Object(methods) => Json::Object(edit_methods(methods, edit)),
        _ => item,
    }
}

/// The paths with each item edited.
pub open spec fn edit_paths(paths: Seq<(Seq<char>, Json)>, edit: Edit) -> Seq<(Seq<char>, Json)> {
    Seq::new(paths.len(), |i: int| (paths[i].0, edit_path_item(paths[i].1, edit)))
}

/// The document with every operation under `paths.*.*` edited. A document
/// that is not an object, or holds no object under `paths`, stays as it is.
pub open spec fn edit_operations(doc: Json, edit: Edit) -> Json {
    match doc {
        Json::Object(members) => match lookup(members, "paths"@) {
            Some(Json::Object(paths)) => Json::Object(
                put(members, "paths"@, Json::Object(edit_paths(paths, edit))),
            ),
            _ => doc,
        },
        _ => doc,
    }
}

/// Whether one of the servers is an object whose `url` is the text `url`.
pub fn has_server(servers: &Vec<Node>, url: &str) -> (r: bool)
    ensures
        r == lists_url(items_view(servers@), url@),
{
    let ghost model = items_view(servers@);
    let mut i: usize = 0;
    while i < servers.len()
        invariant
            i <= servers.len(),
            model == items_view(servers@),
            forall|j: int| 0 <= j < i ==> (#[trigger] model[j]).get("url"@) != Some(Json::Text(url@)),
        decreases servers.len() - i,
    {
        assert(model[i as int] == servers@[i as int]@);
        match servers[i].get("url") {
            Some(found) => match found.as_str() {
                Some(text) => {
                    if same_text(text, url) {
                        return true;
                    }
                },
                None => {},
            },
            None => {},
        }
        i += 1;
    }
    false
}

/// The operation with `entry` added to its servers, unless one of them has
/// the URL `url` already.
pub fn add_server(op: &Node, url: &str, entry: &Node) -> (r: Node)
    ensures
        r@ == with_server(op@, url@, entry@),
{
    match op {
        Node::Object(members) => {
            let mut list: Vec<Node> = Vec::new();
            match find_member(members, "servers") {
                None => {
                    assert(items_view(list@) =~= Seq::empty());
                },
                Some(i) => {
                    assert(members_view(members@)[i as int].1 == members@[i as int].1@);
                    match &members[i].1 {
                        Node::Array(servers) => {
                            if has_server(servers, url) {
                                return op.deep_copy();
                            }
                            list = copy_items(servers);
                        },
                        _ => {
                            return op.deep_copy();
                        },
                    }
                },
            }
            let ghost before = items_view(list@);
            list.push(entry.deep_copy());
            assert(items_view(list@) =~= before.push(entry@));
            let mut out = copy_members(members);
            put_member(&mut out, "servers".to_owned(), Node::Array(list));
            Node::Object(out)
        },
        _ => op.deep_copy(),
    }
}

/// A tag of an operation with the prefix in front.
pub fn prefix_tag(tag: &Node, prefix: &str) -> (r: Node)
    ensures
        r@ == with_prefix(tag@, prefix@),
{
    match tag {
        Node::Text(t) => Node::Text(join3(prefix, " | ", t.as_str())),
        _ => tag.deep_copy(),
    }
}

/// The operation with the prefix in front of each of its tags.
pub fn prefix_tags(op: &Node, prefix: &str) -> (r: Node)
    ensures
        r@ == with_prefixed_tags(op@, prefix@),
{
    match op {
        Node::Object(members) => {
            match find_member(members, "tags") {
                Some(i) => {
                    assert(members_view(members@)[i as int].1 == members@[i as int].1@);
                    match &members[i].1 {
                        Node::Array(tags) => {
                            let mut list: Vec<Node> = Vec::new();
                            let mut k: usize = 0;
                            while k < tags.len()
                                invariant
                                    k <= tags.len(),
                                    list@.len() == k,
                                    forall|j: int|
                                        0 <= j < k ==> (#[trigger] list@[j])@ == with_prefix(
                                            tags@[j]@,
                                            prefix@,
                                        ),
                                decreases tags.len() - k,
                            {
                                list.push(prefix_tag(&tags[k], prefix));
                                k += 1;
                            }
                            assert(items_view(list@) =~= with_prefixes(
                                items_view(tags@),
                                prefix@,
                            ));
                            let mut out = copy_members(members);
                            put_member(&mut out, "tags".to_owned(), Node::Array(list));
                            Node::Object(out)
                        },
                        _ => op.deep_copy(),
                    }
                },
                None => op.deep_copy(),
            }
        },
        _ => op.deep_copy(),
    }
}

/// The operation after the edit.
pub fn apply_edit(op: &Node, edit: &OperationEdit) -> (r: Node)
    ensures
        r@ == edit_operation(op@, edit@),
{
    match edit {
        OperationEdit::AddServer { url, entry } => add_server(op, url, entry),
        OperationEdit::PrefixTags { prefix } => prefix_tags(op, prefix),
    }
}

/// A path's item with each operation edited.
pub fn apply_to_path_item(item: &Node, edit: &OperationEdit) -> (r: Node)
    ensures
        r@ == edit_path_item(item@, edit@),
{
    match item {
        Node::Object(methods) => {
            let mut out: Vec<(String, Node)> = Vec::new();
            let mut i: usize = 0;
            while i < methods.len()
                invariant
                    i <= methods.len(),
                    out@.len() == i,
                    forall|j: int|
                        0 <= j < i ==> (#[trigger] out@[j]).0@ == methods@[j].0@ && out@[j].1@
                            == edit_operation(methods@[j].1@, edit@),
                decreases methods.len() - i,
            {
                let key = methods[i].0.clone();
                let value = apply_edit(&methods[i].1, edit);
                out.push((key, value));
                i += 1;
            }
            assert(members_view(out@) =~= edit_methods(members_view(methods@), edit@));
            Node::Object(out)
        },
        _ => item.deep_copy(),
    }
}

/// The document with every operation under `paths.*.*` edited.
pub fn apply_to_operations(doc: &Node, edit: &OperationEdit) -> (r: Node)
    ensures
        r@ == edit_operations(doc@, edit@),
{
    match doc {
        Node::Object(members) => {
            match find_member(members, "paths") {
                Some(p) => {
                    assert(members_view(members@)[p as int].1 == members@[p as int].1@);
                    match &members[p].1 {
                        Node::Object(paths) => {
                            let mut edited: Vec<(String, Node)> = Vec::new();
                            let mut i: usize = 0;
                            while i < paths.len()
                                invariant
                                    i <= paths.len(),
                                    edited@.len() == i,
                                    forall|j: int|
                                        0 <= j < i ==> (#[trigger] edited@[j]).0@ == paths@[j].0@
                                            && edited@[j].1@ == edit_path_item(
                                            paths@[j].1@,
                                            edit@,
                                        ),
                                decreases paths.len() - i,
                            {
                                let key = paths[i].0.clone();
                                let value = apply_to_path_item(&paths[i].1, edit);
                                edited.push((key, value));
                                i += 1;
                            }
                            assert(members_view(edited@) =~= edit_paths(
                                members_view(paths@),
                                edit@,
                            ));
                            let mut out = copy_members(members);
                            put_member(&mut out, "paths".to_owned(), Node::Object(edited));
                            Node::Object(out)
                        },
                        _ => doc.deep_copy(),
                    }
                },
                None => doc.deep_copy(),
            }
        },
        _ => doc.deep_copy(),
    }
}

/// An operation stays well formed when a well-formed server entry is added.
pub proof fn lemma_with_server_wf(op: Json, url: Seq<char>, entry: Json)
    requires
        op.wf(),
        entry.wf(),
    ensures
        with_server(op, url, entry).wf(),
{
    match op {
        Json::Object(members) => {
            lemma_lookup_wf(members, "servers"@);
            match server_list(members) {
                Some(servers) => {
                    let list = servers.push(entry);
                    assert forall|i: int| 0 <= i < list.len() implies (#[trigger] list[i]).wf() by {
                        if i < servers.len() {
                            assert(list[i] == servers[i]);
                        }
                    }
                    lemma_put_wf(members, "servers"@, Json::Array(list));
                },
                None => {},
            }
        },
        _ => {},
    }
}

/// An operation stays well formed when its tags get a prefix.
pub proof fn lemma_with_prefixed_tags_wf(op: Json, prefix: Seq<char>)
    requires
        op.wf(),
    ensures
        with_prefixed_tags(op, prefix).wf(),
{
    match op {
        Json::Object(members) => {
            match lookup(members, "tags"@) {
                Some(Json::Array(tags)) => {
                    lemma_lookup_wf(members, "tags"@);
                    let renamed = with_prefixes(tags, prefix);
                    assert forall|i: int| 0 <= i < renamed.len() implies (#[trigger] renamed[i]).wf() by {
                        assert(tags[i].wf());
                    }
                    lemma_put_wf(members, "tags"@, Json::Array(renamed));
                },
                _ => {},
            }
        },
        _ => {},
    }
}

/// The edit of a kind that keeps well-formed operations well formed: its
/// server entry, if it has one, is well formed.
pub open spec fn edit_wf(edit: Edit) -> bool {
    match edit {
        Edit::AddServer { url, entry } => entry.wf(),
        Edit::PrefixTags { prefix } => true,
    }
}

/// A document stays well formed when its operations are edited.
pub proof fn lemma_edit_operations_wf(doc: Json, edit: Edit)
    requires
        doc.wf(),
        edit_wf(edit),
    ensures
        edit_operations(doc, edit).wf(),
{
    match doc {
        Json::Object(members) => {
            lemma_lookup_wf(members, "paths"@);
            match lookup(members, "paths"@) {
                Some(Json::Object(paths)) => {
                    let edited = edit_paths(paths, edit);
                    assert forall|i: int| 0 <= i < edited.len() implies (#[trigger] edited[i]).1.wf() by {
                        assert(paths[i].1.wf());
                        lemma_edit_path_item_wf(paths[i].1, edit);
                    }
                    assert forall|i: int, j: int| 0 <= i < j < edited.len() implies (
                    #[trigger] edited[i]).0 != (#[trigger] edited[j]).0 by {
                        assert(paths[i].0 != paths[j].0);
                    }
                    lemma_put_wf(members, "paths"@, Json::Object(edited));
                },
                _ => {},
            }
        },
        _ => {},
    }
}

/// A path's item stays well formed when its operations are edited.
pub proof fn lemma_edit_path_item_wf(item: Json, edit: Edit)
    requires
        item.wf(),
        edit_wf(edit),
    ensures
        edit_path_item(item, edit).wf(),
{
    match item {
        Json::Object(methods) => {
            let edited = edit_methods(methods, edit);
            assert forall|i: int| 0 <= i < edited.len() implies (#[trigger] edited[i]).1.wf() by {
                assert(methods[i].1.wf());
                match edit {
                    Edit::AddServer { url, entry } => lemma_with_server_wf(methods[i].1, url, entry),
                    Edit::PrefixTags { prefix } => lemma_with_prefixed_tags_wf(methods[i].1, prefix),
                }
            }
            assert forall|i: int, j: int| 0 <= i < j < edited.len() implies (#[trigger] edited[i]).0
                != (#[trigger] edited[j]).0 by {
                assert(methods[i].0 != methods[j].0);
            }
        },
        _ => {},
    }
}

} // verus!
