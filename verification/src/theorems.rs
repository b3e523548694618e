//! Theorems about the library: what holds of the merge, of the server injector
//! and of the metadata updater on every input.

use crate::merge::{
    absorb, absorb_all, assembled, claim_all, claim_key, collides, conflicts_in, members_at,
    merged, nothing, prepared, schemas_of, suffixed, Gathered, SectionModel, SourceModel,
};
use crate::metadata::{info_with, target_version, updated_info, with_metadata};
use crate::model::{
    distinct_keys, has_key, key_set, lemma_has_key, lemma_index_of, lemma_put, lemma_put_other,
    lemma_put_twice, lookup, put, Json,
};
use crate::operations::{
    edit_methods, edit_operation, edit_operations, edit_path_item, edit_paths, lists_url,
    server_list, with_server, Edit,
};
use crate::servers::{add_servers, server_entry};
use vstd::prelude::*;

verus! {

/// The entries under `paths` of a document.
pub open spec fn path_entries(doc: Json) -> Seq<(Seq<char>, Json)> {
    members_at(doc.get("paths"@))
}

/// The entries under `components.schemas` of a document.
pub open spec fn schema_entries(doc: Json) -> Seq<(Seq<char>, Json)> {
    members_at(schemas_of(doc))
}

/// No key stands in both lists of members.
pub open spec fn disjoint_keys(a: Seq<(Seq<char>, Json)>, b: Seq<(Seq<char>, Json)>) -> bool {
    forall|i: int, j: int|
        0 <= i < a.len() && 0 <= j < b.len() ==> (#[trigger] a[i]).0 != (#[trigger] b[j]).0
}

/// Two documents do not conflict: each names its paths once and its
/// schemas once, and no path and no schema is named by both.
pub open spec fn no_conflict(a: Json, b: Json) -> bool {
    &&& distinct_keys(path_entries(a))
    &&& distinct_keys(path_entries(b))
    &&& disjoint_keys(path_entries(a), path_entries(b))
    &&& distinct_keys(schema_entries(a))
    &&& distinct_keys(schema_entries(b))
    &&& disjoint_keys(schema_entries(a), schema_entries(b))
}

/// The two lists hold the same keys at the same positions.
pub open spec fn same_keys(a: Seq<(Seq<char>, Json)>, b: Seq<(Seq<char>, Json)>) -> bool {
    &&& a.len() == b.len()
    &&& forall|i: int| 0 <= i < a.len() ==> (#[trigger] a[i]).0 == b[i].0
}

/// Lists with the same keys at the same positions have the same key set.
pub proof fn lemma_same_keys(a: Seq<(Seq<char>, Json)>, b: Seq<(Seq<char>, Json)>)
    requires
        same_keys(a, b),
    ensures
        key_set(a) == key_set(b),
        distinct_keys(a) == distinct_keys(b),
{
    assert forall|k: Seq<char>| has_key(a, k) == has_key(b, k) by {
        lemma_has_key(a, k);
        lemma_has_key(b, k);
        if has_key(a, k) {
            let i = choose|i: int| 0 <= i < a.len() && (#[trigger] a[i]).0 == k;
            assert(b[i].0 == k);
        }
        if has_key(b, k) {
            let i = choose|i: int| 0 <= i < b.len() && (#[trigger] b[i]).0 == k;
            assert(a[i].0 == k);
        }
    }
    assert(key_set(a) =~= key_set(b));
    if distinct_keys(a) {
        assert forall|i: int, j: int| 0 <= i < j < b.len() implies (#[trigger] b[i]).0 != (
        #[trigger] b[j]).0 by {
            assert(a[i].0 != a[j].0);
        }
    }
    if distinct_keys(b) {
        assert forall|i: int, j: int| 0 <= i < j < a.len() implies (#[trigger] a[i]).0 != (
        #[trigger] a[j]).0 by {
            assert(b[i].0 != b[j].0);
        }
    }
}

/// Where the entries are named once and none of their names is taken,
/// storing them renames nothing: the names afterwards are those taken
/// before and those of the entries.
pub proof fn lemma_claim_all_free(
    taken: Seq<(Seq<char>, Json)>,
    entries: Seq<(Seq<char>, Json)>,
    source: Seq<char>,
)
    requires
        distinct_keys(entries),
        forall|i: int| 0 <= i < entries.len() ==> !has_key(taken, (#[trigger] entries[i]).0),
    ensures
        key_set(claim_all(taken, entries, source)) == key_set(taken).union(key_set(entries)),
    decreases entries.len(),
{
    if entries.len() == 0 {
        assert forall|k: Seq<char>| !has_key(entries, k) by {
            lemma_index_of(entries, k);
        }
        assert(key_set(taken).union(key_set(entries)) =~= key_set(taken));
    } else {
        let earlier = entries.drop_last();
        let last = entries.last();
        assert(last == entries[entries.len() - 1]);
        assert forall|i: int, j: int| 0 <= i < j < earlier.len() implies (#[trigger] earlier[i]).0
            != (#[trigger] earlier[j]).0 by {
            assert(earlier[i] == entries[i] && earlier[j] == entries[j]);
        }
        assert forall|i: int| 0 <= i < earlier.len() implies !has_key(
            taken,
            (#[trigger] earlier[i]).0,
        ) by {
            assert(earlier[i] == entries[i]);
        }
        lemma_claim_all_free(taken, earlier, source);
        let before = claim_all(taken, earlier, source);
        lemma_has_key(earlier, last.0);
        if has_key(earlier, last.0) {
            let i = choose|i: int| 0 <= i < earlier.len() && (#[trigger] earlier[i]).0 == last.0;
            assert(earlier[i] == entries[i]);
            assert(entries[i].0 != entries[entries.len() - 1].0);
        }
        assert(!key_set(before).contains(last.0));
        assert(claim_key(before, last.0, source) == last.0);
        lemma_put(before, last.0, last.1);
        assert forall|k: Seq<char>| has_key(entries, k) == (has_key(earlier, k) || k == last.0) by {
            lemma_has_key(entries, k);
            lemma_has_key(earlier, k);
            if has_key(earlier, k) {
                let i = choose|i: int| 0 <= i < earlier.len() && (#[trigger] earlier[i]).0 == k;
                assert(entries[i] == earlier[i]);
            }
            if has_key(entries, k) && k != last.0 {
                let i = choose|i: int| 0 <= i < entries.len() && (#[trigger] entries[i]).0 == k;
                assert(earlier[i] == entries[i]);
            }
        }
        assert(key_set(entries) =~= key_set(earlier).insert(last.0));
        assert(key_set(claim_all(taken, entries, source)) =~= key_set(taken).union(
            key_set(entries),
        ));
    }
}

/// The server injector keeps the keys under `paths` and leaves the schemas
/// as they are.
pub proof fn lemma_add_servers_keeps_keys(doc: Json, url: Seq<char>, name: Seq<char>, proxy: bool)
    ensures
        same_keys(path_entries(add_servers(doc, url, name, proxy)), path_entries(doc)),
        schemas_of(add_servers(doc, url, name, proxy)) == schemas_of(doc),
{
    reveal_strlit("paths");
    reveal_strlit("components");
    let edit = Edit::AddServer { url, entry: server_entry(url, name, proxy) };
    match doc {
        Json::Object(members) => match lookup(members, "paths"@) {
            Some(Json::Object(paths)) => {
                lemma_put(members, "paths"@, Json::Object(edit_paths(paths, edit)));
                assert("components"@.len() != "paths"@.len());
                lemma_put_other(
                    members,
                    "paths"@,
                    Json::Object(edit_paths(paths, edit)),
                    "components"@,
                );
            },
            _ => {},
        },
        _ => {},
    }
}

/// What `paths` and `components.schemas` of an assembled document hold is
/// what was gathered.
pub proof fn lemma_assembled_entries(state: Gathered, grouping: bool)
    ensures
        path_entries(assembled(state, grouping)) == state.paths,
        schema_entries(assembled(state, grouping)) == state.schemas,
{
    reveal_strlit("info");
    reveal_strlit("paths");
    reveal_strlit("components");
    reveal_strlit("schemas");
    match assembled(state, grouping) {
        Json::Object(members) => {
            assert(members[0].0 == "info"@ && members[1].0 == "paths"@ && members[2].0
                == "components"@);
            assert("info"@.len() == 4 && "paths"@.len() == 5 && "components"@.len() == 10);
            crate::model::lemma_first_is_index(members, "paths"@, 1);
            assert forall|j: int| 0 <= j < 2 implies (#[trigger] members[j]).0 != "components"@ by {
                if j == 0 {
                    assert(members[0].0.len() == 4);
                } else {
                    assert(members[1].0.len() == 5);
                }
            }
            crate::model::lemma_first_is_index(members, "components"@, 2);
            let components = seq![("schemas"@, Json::Object(state.schemas))] + state.kinds;
            assert(components[0] == ("schemas"@, Json::Object(state.schemas)));
            crate::model::lemma_first_is_index(components, "schemas"@, 0);
        },
        _ => {},
    }
}

/// The names of the paths and schemas after a source is taken in, where
/// the source names each once and none of them is taken: those before and
/// those of the source.
pub proof fn lemma_absorb_free(state: Gathered, source: SourceModel, proxy: bool)
    requires
        distinct_keys(path_entries(source.document)),
        distinct_keys(schema_entries(source.document)),
        forall|i: int|
            0 <= i < path_entries(source.document).len() ==> !has_key(
                state.paths,
                (#[trigger] path_entries(source.document)[i]).0,
            ),
        forall|i: int|
            0 <= i < schema_entries(source.document).len() ==> !has_key(
                state.schemas,
                (#[trigger] schema_entries(source.document)[i]).0,
            ),
    ensures
        key_set(absorb(state, source, false, proxy).paths) == key_set(state.paths).union(
            key_set(path_entries(source.document)),
        ),
        key_set(absorb(state, source, false, proxy).schemas) == key_set(state.schemas).union(
            key_set(schema_entries(source.document)),
        ),
{
    let given_paths = path_entries(source.document);
    let given_schemas = schema_entries(source.document);
    if source.document is Null {
        assert forall|k: Seq<char>| !has_key(given_paths, k) && !has_key(given_schemas, k) by {
            lemma_index_of(given_paths, k);
            lemma_index_of(given_schemas, k);
        }
        assert(key_set(state.paths).union(key_set(given_paths)) =~= key_set(state.paths));
        assert(key_set(state.schemas).union(key_set(given_schemas)) =~= key_set(state.schemas));
    } else {
        let doc = prepared(source, false, proxy);
        lemma_add_servers_keeps_keys(source.document, source.url, source.name, proxy);
        let paths = path_entries(doc);
        lemma_same_keys(paths, given_paths);
        assert forall|i: int| 0 <= i < paths.len() implies !has_key(
            state.paths,
            (#[trigger] paths[i]).0,
        ) by {
            assert(paths[i].0 == given_paths[i].0);
        }
        lemma_claim_all_free(state.paths, paths, source.name);
        lemma_claim_all_free(state.schemas, given_schemas, source.name);
    }
}

/// The names of the paths and schemas after two sources that do not
/// conflict are merged: those of the first and those of the second.
pub proof fn lemma_merged_keys(first: SourceModel, second: SourceModel, proxy: bool)
    requires
        no_conflict(first.document, second.document),
    ensures
        key_set(path_entries(merged(seq![first, second], false, proxy))) == key_set(
            path_entries(first.document),
        ).union(key_set(path_entries(second.document))),
        key_set(schema_entries(merged(seq![first, second], false, proxy))) == key_set(
            schema_entries(first.document),
        ).union(key_set(schema_entries(second.document))),
{
    let sources = seq![first, second];
    assert(sources.drop_last() =~= seq![first]);
    assert(seq![first].drop_last() =~= Seq::<SourceModel>::empty());
    assert(sources.last() == second);
    assert(seq![first].last() == first);
    let start = nothing();
    assert(absorb_all(Seq::<SourceModel>::empty(), false, proxy) == start);
    assert(absorb_all(seq![first], false, proxy) == absorb(start, first, false, proxy)) by {
        reveal_with_fuel(absorb_all, 2);
    }
    let one = absorb(start, first, false, proxy);
    assert(absorb_all(sources, false, proxy) == absorb(one, second, false, proxy)) by {
        reveal_with_fuel(absorb_all, 3);
    }
    let two = absorb(one, second, false, proxy);
    let empty = Seq::<(Seq<char>, Json)>::empty();
    assert forall|k: Seq<char>| !has_key(empty, k) by {
        lemma_index_of(empty, k);
    }
    lemma_absorb_free(start, first, proxy);
    assert(key_set(one.paths) =~= key_set(path_entries(first.document)));
    assert(key_set(one.schemas) =~= key_set(schema_entries(first.document)));
    let p1 = path_entries(first.document);
    let p2 = path_entries(second.document);
    assert forall|j: int| 0 <= j < p2.len() implies !has_key(one.paths, (#[trigger] p2[j]).0) by {
        lemma_has_key(p1, p2[j].0);
        if has_key(p1, p2[j].0) {
            let i = choose|i: int| 0 <= i < p1.len() && (#[trigger] p1[i]).0 == p2[j].0;
            assert(p1[i].0 != p2[j].0);
        }
        assert(key_set(one.paths).contains(p2[j].0) == key_set(p1).contains(p2[j].0));
    }
    let s1 = schema_entries(first.document);
    let s2 = schema_entries(second.document);
    assert forall|j: int| 0 <= j < s2.len() implies !has_key(one.schemas, (#[trigger] s2[j]).0) by {
        lemma_has_key(s1, s2[j].0);
        if has_key(s1, s2[j].0) {
            let i = choose|i: int| 0 <= i < s1.len() && (#[trigger] s1[i]).0 == s2[j].0;
            assert(s1[i].0 != s2[j].0);
        }
        assert(key_set(one.schemas).contains(s2[j].0) == key_set(s1).contains(s2[j].0));
    }
    lemma_absorb_free(one, second, proxy);
    lemma_assembled_entries(two, false);
}

/// Merging two sources that do not conflict gives the same names of paths
/// and of schemas in either order, with grouping off.
pub proof fn lemma_merge_keys_ignore_order(a: SourceModel, b: SourceModel, proxy: bool)
    requires
        no_conflict(a.document, b.document),
    ensures
        key_set(path_entries(merged(seq![a, b], false, proxy))) == key_set(
            path_entries(merged(seq![b, a], false, proxy)),
        ),
        key_set(schema_entries(merged(seq![a, b], false, proxy))) == key_set(
            schema_entries(merged(seq![b, a], false, proxy)),
        ),
{
    lemma_merged_keys(a, b, proxy);
    assert(no_conflict(b.document, a.document)) by {
        let pa = path_entries(a.document);
        let pb = path_entries(b.document);
        assert forall|i: int, j: int| 0 <= i < pb.len() && 0 <= j < pa.len() implies (
        #[trigger] pb[i]).0 != (#[trigger] pa[j]).0 by {
            assert(pa[j].0 != pb[i].0);
        }
        let sa = schema_entries(a.document);
        let sb = schema_entries(b.document);
        assert forall|i: int, j: int| 0 <= i < sb.len() && 0 <= j < sa.len() implies (
        #[trigger] sb[i]).0 != (#[trigger] sa[j]).0 by {
            assert(sa[j].0 != sb[i].0);
        }
    }
    lemma_merged_keys(b, a, proxy);
    let pa = key_set(path_entries(a.document));
    let pb = key_set(path_entries(b.document));
    assert(pa.union(pb) =~= pb.union(pa));
    let sa = key_set(schema_entries(a.document));
    let sb = key_set(schema_entries(b.document));
    assert(sa.union(sb) =~= sb.union(sa));
}

/// The number of servers whose `url` is the text `url`.
pub open spec fn url_count(servers: Seq<Json>, url: Seq<char>) -> nat
    decreases servers.len(),
{
    if servers.len() == 0 {
        0
    } else {
        let earlier = url_count(servers.drop_last(), url);
        if servers.last().get("url"@) == Some(Json::Text(url)) {
            earlier + 1
        } else {
            earlier
        }
    }
}

/// The number of servers of an operation whose `url` is the text `url`.
pub open spec fn raw_url_count(op: Json, url: Seq<char>) -> nat {
    match op.get("servers"@) {
        Some(Json::Array(servers)) => url_count(servers, url),
        _ => 0,
    }
}

/// The operation at the position `j` of the path at the position `i`.
pub open spec fn operation_at(doc: Json, i: int, j: int) -> Json {
    members_at(Some(path_entries(doc)[i].1))[j].1
}

/// Whether the document has a path at the position `i` with an operation
/// at the position `j`.
pub open spec fn has_operation(doc: Json, i: int, j: int) -> bool {
    &&& 0 <= i < path_entries(doc).len()
    &&& 0 <= j < members_at(Some(path_entries(doc)[i].1)).len()
}

/// One more server adds one to the count if its `url` is the text, and
/// nothing if not.
pub proof fn lemma_url_count_push(servers: Seq<Json>, entry: Json, url: Seq<char>)
    ensures
        url_count(servers.push(entry), url) == url_count(servers, url) + if entry.get("url"@)
            == Some(Json::Text(url)) {
            1nat
        } else {
            0nat
        },
{
    assert(servers.push(entry).drop_last() =~= servers);
    assert(servers.push(entry).last() == entry);
}

/// Adding a server entry a second time changes nothing where the entry's
/// own `url` is the URL that is looked for.
pub proof fn lemma_with_server_twice(op: Json, url: Seq<char>, entry: Json)
    requires
        entry.get("url"@) == Some(Json::Text(url)),
    ensures
        with_server(with_server(op, url, entry), url, entry) == with_server(op, url, entry),
{
    match op {
        Json::Object(members) => match server_list(members) {
            Some(servers) => {
                if !lists_url(servers, url) {
                    let list = servers.push(entry);
                    lemma_put(members, "servers"@, Json::Array(list));
                    assert(list[servers.len() as int] == entry);
                    assert(lists_url(list, url));
                }
            },
            None => {},
        },
        _ => {},
    }
}

/// Adding a server entry a second time adds no server whose `url` is the
/// URL that is looked for, whatever the entry holds.
pub proof fn lemma_with_server_again(op: Json, url: Seq<char>, entry: Json)
    ensures
        raw_url_count(with_server(with_server(op, url, entry), url, entry), url) == raw_url_count(
            with_server(op, url, entry),
            url,
        ),
{
    if entry.get("url"@) == Some(Json::Text(url)) {
        lemma_with_server_twice(op, url, entry);
    } else {
        match op {
            Json::Object(members) => match server_list(members) {
                Some(servers) => {
                    if !lists_url(servers, url) {
                        let list = servers.push(entry);
                        let once = put(members, "servers"@, Json::Array(list));
                        lemma_put(members, "servers"@, Json::Array(list));
                        assert(!lists_url(list, url)) by {
                            if lists_url(list, url) {
                                let i = choose|i: int|
                                    0 <= i < list.len() && (#[trigger] list[i]).get("url"@) == Some(
                                        Json::Text(url),
                                    );
                                if i < servers.len() {
                                    assert(list[i] == servers[i]);
                                }
                            }
                        }
                        lemma_put(once, "servers"@, Json::Array(list.push(entry)));
                        lemma_url_count_push(list, entry, url);
                    }
                },
                None => {},
            },
            _ => {},
        }
    }
}

/// The operations of a document after an edit are the edited operations of
/// the document.
pub proof fn lemma_edited_operation(doc: Json, edit: Edit, i: int, j: int)
    requires
        has_operation(edit_operations(doc, edit), i, j),
    ensures
        has_operation(doc, i, j),
        operation_at(edit_operations(doc, edit), i, j) == edit_operation(
            operation_at(doc, i, j),
            edit,
        ),
{
    match doc {
        Json::Object(members) => match lookup(members, "paths"@) {
            Some(Json::Object(paths)) => {
                lemma_put(members, "paths"@, Json::Object(edit_paths(paths, edit)));
                assert(path_entries(edit_operations(doc, edit)) == edit_paths(paths, edit));
                assert(edit_paths(paths, edit)[i].1 == edit_path_item(paths[i].1, edit));
            },
            _ => {},
        },
        _ => {},
    }
}

/// Running the server injector a second time with the same URL and the
/// same proxy setting adds no server whose `url` is that URL to any
/// operation.
pub proof fn lemma_second_injection_adds_no_raw_url(
    doc: Json,
    url: Seq<char>,
    name: Seq<char>,
    proxy: bool,
    i: int,
    j: int,
)
    requires
        has_operation(add_servers(add_servers(doc, url, name, proxy), url, name, proxy), i, j),
    ensures
        has_operation(add_servers(doc, url, name, proxy), i, j),
        raw_url_count(
            operation_at(
                add_servers(add_servers(doc, url, name, proxy), url, name, proxy),
                i,
                j,
            ),
            url,
        ) == raw_url_count(operation_at(add_servers(doc, url, name, proxy), i, j), url),
{
    let entry = server_entry(url, name, proxy);
    let edit = Edit::AddServer { url, entry };
    let once = add_servers(doc, url, name, proxy);
    lemma_edited_operation(once, edit, i, j);
    lemma_edited_operation(doc, edit, i, j);
    lemma_with_server_again(operation_at(doc, i, j), url, entry);
}

/// Editing the operations of a document twice with an edit that changes
/// no operation the second time is editing them once.
pub proof fn lemma_edit_operations_twice(doc: Json, edit: Edit)
    requires
        forall|op: Json| #[trigger]
            edit_operation(edit_operation(op, edit), edit) == edit_operation(op, edit),
    ensures
        edit_operations(edit_operations(doc, edit), edit) == edit_operations(doc, edit),
{
    match doc {
        Json::Object(members) => match lookup(members, "paths"@) {
            Some(Json::Object(paths)) => {
                let once = edit_paths(paths, edit);
                lemma_put(members, "paths"@, Json::Object(once));
                assert forall|i: int| 0 <= i < paths.len() implies edit_path_item(
                    #[trigger] once[i].1,
                    edit,
                ) == once[i].1 by {
                    match paths[i].1 {
                        Json::Object(methods) => {
                            let edited = edit_methods(methods, edit);
                            assert forall|k: int| 0 <= k < edited.len() implies edit_operation(
                                #[trigger] edited[k].1,
                                edit,
                            ) == edited[k].1 by {
                                assert(edited[k].1 == edit_operation(methods[k].1, edit));
                            }
                            assert(edit_methods(edited, edit) =~= edited);
                        },
                        _ => {},
                    }
                }
                assert(edit_paths(once, edit) =~= once);
                lemma_put_twice(members, "paths"@, Json::Object(once), Json::Object(once));
            },
            _ => {},
        },
        _ => {},
    }
}

/// Without the proxy the server injector is idempotent: run on its own
/// result with the same URL it changes nothing.
pub proof fn lemma_add_servers_twice(doc: Json, url: Seq<char>, name: Seq<char>)
    ensures
        add_servers(add_servers(doc, url, name, false), url, name, false) == add_servers(
            doc,
            url,
            name,
            false,
        ),
{
    let entry = server_entry(url, name, false);
    let edit = Edit::AddServer { url, entry };
    match entry {
        Json::Object(members) => {
            assert(members[0] == ("url"@, Json::Text(url)));
            crate::model::lemma_first_is_index(members, "url"@, 0);
        },
        _ => {},
    }
    assert forall|op: Json| #[trigger]
        edit_operation(edit_operation(op, edit), edit) == edit_operation(op, edit) by {
        lemma_with_server_twice(op, url, entry);
    }
    lemma_edit_operations_twice(doc, edit);
}

/// The metadata updater succeeds on every object and on null, and its
/// result holds the format version and an `info` object with the three
/// fields as given.
pub proof fn lemma_metadata_total(
    doc: Json,
    title: Seq<char>,
    description: Seq<char>,
    version: Seq<char>,
)
    requires
        doc is Object || doc is Null,
    ensures
        with_metadata(doc, title, description, version) matches Some(updated) && {
            &&& updated.get("openapi"@) == Some(Json::Text(target_version()))
            &&& updated.get("info"@) matches Some(Json::Object(info)) && {
                &&& lookup(info, "title"@) == Some(Json::Text(title))
                &&& lookup(info, "description"@) == Some(Json::Text(description))
                &&& lookup(info, "version"@) == Some(Json::Text(version))
            }
        },
{
    reveal_strlit("openapi");
    reveal_strlit("info");
    reveal_strlit("title");
    reveal_strlit("description");
    reveal_strlit("version");
    let members = match doc {
        Json::Object(members) => members,
        _ => Seq::empty(),
    };
    let old_info = match lookup(members, "info"@) {
        Some(Json::Object(info)) => info,
        _ => Seq::empty(),
    };
    let new_info = updated_info(lookup(members, "info"@), title, description, version);
    assert(new_info == Json::Object(info_with(old_info, title, description, version)));
    let first = put(old_info, "title"@, Json::Text(title));
    let second = put(first, "description"@, Json::Text(description));
    lemma_put(old_info, "title"@, Json::Text(title));
    lemma_put(first, "description"@, Json::Text(description));
    lemma_put(second, "version"@, Json::Text(version));
    assert("title"@.len() == 5 && "description"@.len() == 11 && "version"@.len() == 7);
    lemma_put_other(first, "description"@, Json::Text(description), "title"@);
    lemma_put_other(second, "version"@, Json::Text(version), "title"@);
    lemma_put_other(second, "version"@, Json::Text(version), "description"@);
    let with_info = put(members, "info"@, new_info);
    lemma_put(members, "info"@, new_info);
    lemma_put(with_info, "openapi"@, Json::Text(target_version()));
    assert("info"@.len() == 4 && "openapi"@.len() == 7);
    lemma_put_other(with_info, "openapi"@, Json::Text(target_version()), "info"@);
}

/// Storing entries loses no name: what was taken stays taken.
pub proof fn lemma_claim_all_keeps_names(
    taken: Seq<(Seq<char>, Json)>,
    entries: Seq<(Seq<char>, Json)>,
    source: Seq<char>,
    key: Seq<char>,
)
    requires
        has_key(taken, key),
    ensures
        has_key(claim_all(taken, entries, source), key),
    decreases entries.len(),
{
    if entries.len() > 0 {
        lemma_claim_all_keeps_names(taken, entries.drop_last(), source, key);
        let before = claim_all(taken, entries.drop_last(), source);
        let stored = claim_key(before, entries.last().0, source);
        lemma_put(before, stored, entries.last().1);
    }
}

/// After the entries are stored, the key of each of them is taken: by the
/// entry itself, or by the one that took it earlier.
pub proof fn lemma_claim_all_takes_keys(
    taken: Seq<(Seq<char>, Json)>,
    entries: Seq<(Seq<char>, Json)>,
    source: Seq<char>,
    i: int,
)
    requires
        0 <= i < entries.len(),
    ensures
        has_key(claim_all(taken, entries, source), entries[i].0),
    decreases entries.len(),
{
    let earlier = entries.drop_last();
    let before = claim_all(taken, earlier, source);
    let stored = claim_key(before, entries.last().0, source);
    lemma_put(before, stored, entries.last().1);
    if i < entries.len() - 1 {
        lemma_claim_all_takes_keys(taken, earlier, source, i);
        assert(earlier[i] == entries[i]);
    }
}

/// Every name that is taken after the entries are stored was taken before,
/// or is the key of one of the entries, or that key with the source's
/// suffix.
pub proof fn lemma_claim_all_origin(
    taken: Seq<(Seq<char>, Json)>,
    entries: Seq<(Seq<char>, Json)>,
    source: Seq<char>,
    key: Seq<char>,
)
    requires
        has_key(claim_all(taken, entries, source), key),
    ensures
        has_key(taken, key) || exists|i: int|
            0 <= i < entries.len() && (key == (#[trigger] entries[i]).0 || key == suffixed(
                entries[i].0,
                source,
            )),
    decreases entries.len(),
{
    if entries.len() > 0 {
        let earlier = entries.drop_last();
        let before = claim_all(taken, earlier, source);
        let last = entries.last();
        let stored = claim_key(before, last.0, source);
        lemma_put(before, stored, last.1);
        if key == stored {
            assert(entries[entries.len() - 1] == last);
        } else {
            lemma_claim_all_origin(taken, earlier, source, key);
            if !has_key(taken, key) {
                let i = choose|i: int|
                    0 <= i < earlier.len() && (key == (#[trigger] earlier[i]).0 || key == suffixed(
                        earlier[i].0,
                        source,
                    ));
                assert(entries[i] == earlier[i]);
            }
        }
    }
}

/// Where storing the entries reports no conflict, nothing is overwritten:
/// every name that was taken keeps its value, and every entry is found
/// under its own key or under that key with the source's suffix.
pub proof fn lemma_no_conflict_no_overwrite(
    taken: Seq<(Seq<char>, Json)>,
    entries: Seq<(Seq<char>, Json)>,
    source: Seq<char>,
    section: SectionModel,
)
    requires
        conflicts_in(taken, entries, source, section).len() == 0,
    ensures
        forall|key: Seq<char>|
            has_key(taken, key) ==> #[trigger] lookup(claim_all(taken, entries, source), key)
                == lookup(taken, key),
        forall|i: int|
            0 <= i < entries.len() ==> {
                ||| lookup(claim_all(taken, entries, source), (#[trigger] entries[i]).0) == Some(
                    entries[i].1,
                )
                ||| lookup(claim_all(taken, entries, source), suffixed(entries[i].0, source))
                    == Some(entries[i].1)
            },
    decreases entries.len(),
{
    if entries.len() > 0 {
        let earlier = entries.drop_last();
        let before = claim_all(taken, earlier, source);
        let last = entries.last();
        let stored = claim_key(before, last.0, source);
        let after = claim_all(taken, entries, source);
        assert(conflicts_in(taken, earlier, source, section).len() == 0 && !collides(
            before,
            last.0,
            source,
        )) by {
            if collides(before, last.0, source) {
                assert(conflicts_in(taken, entries, source, section).len() == conflicts_in(
                    taken,
                    earlier,
                    source,
                    section,
                ).len() + 1);
            }
        }
        lemma_no_conflict_no_overwrite(taken, earlier, source, section);
        assert(!has_key(before, stored));
        lemma_put(before, stored, last.1);
        assert forall|key: Seq<char>| has_key(taken, key) implies #[trigger] lookup(after, key)
            == lookup(taken, key) by {
            lemma_claim_all_keeps_names(taken, earlier, source, key);
            lemma_put_other(before, stored, last.1, key);
            assert(lookup(before, key) == lookup(taken, key));
        }
        assert forall|i: int| 0 <= i < entries.len() implies {
            ||| lookup(after, (#[trigger] entries[i]).0) == Some(entries[i].1)
            ||| lookup(after, suffixed(entries[i].0, source)) == Some(entries[i].1)
        } by {
            if i < entries.len() - 1 {
                assert(earlier[i] == entries[i]);
                let bare = entries[i].0;
                let long = suffixed(entries[i].0, source);
                if lookup(before, bare) == Some(entries[i].1) {
                    assert(has_key(before, bare));
                    lemma_put_other(before, stored, last.1, bare);
                } else {
                    assert(lookup(before, long) == Some(entries[i].1));
                    assert(has_key(before, long));
                    lemma_put_other(before, stored, last.1, long);
                }
            } else {
                assert(entries[i] == last);
            }
        }
    }
}

} // verus!
