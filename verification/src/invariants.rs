//! The merge keeps documents well formed: where every source's document has
//! distinct keys in each of its objects, so has the merged document.

use crate::merge::{
    absorb, absorb_all, assembled, claim_all, claim_key, claim_kinds, default_info,
    items_at, members_at, merged, prepared, schemas_of, Gathered, SourceModel,
};
use crate::model::{
    distinct_keys, has_key, lemma_array_wf, lemma_has_key, lemma_lookup_wf, lemma_put_other, lemma_put_wf, lookup,
    Json,
};
use crate::servers::lemma_add_servers_wf;
use crate::tags::lemma_namespace_tags_wf;
use vstd::prelude::*;

verus! {

/// Every value of the members is well formed.
pub open spec fn values_wf(members: Seq<(Seq<char>, Json)>) -> bool {
    forall|i: int| 0 <= i < members.len() ==> (#[trigger] members[i]).1.wf()
}

/// What a merge has gathered is well formed: the names of each section are
/// distinct and hold well-formed values, and no component kind is called
/// `schemas`.
pub open spec fn gathered_wf(state: Gathered) -> bool {
    &&& Json::Object(state.paths).wf()
    &&& Json::Object(state.schemas).wf()
    &&& Json::Object(state.kinds).wf()
    &&& !has_key(state.kinds, "schemas"@)
    &&& Json::Array(state.tags).wf()
}

/// Every document of the sources is well formed.
pub open spec fn sources_wf(sources: Seq<SourceModel>) -> bool {
    forall|i: int| 0 <= i < sources.len() ==> (#[trigger] sources[i]).document.wf()
}

/// The members of a value that may be absent are those of a well-formed
/// object where the value is well formed.
pub proof fn lemma_members_at_wf(value: Option<Json>)
    requires
        value matches Some(v) ==> v.wf(),
    ensures
        Json::Object(members_at(value)).wf(),
        values_wf(members_at(value)),
{
}

/// What is found under a key of a well-formed document is well formed.
pub proof fn lemma_get_wf(doc: Json, key: Seq<char>)
    requires
        doc.wf(),
    ensures
        doc.get(key) matches Some(v) ==> v.wf(),
{
    match doc {
        Json::Object(members) => lemma_lookup_wf(members, key),
        _ => {},
    }
}

/// Storing well-formed entries keeps the names distinct and the values
/// well formed.
pub proof fn lemma_claim_all_wf(
    taken: Seq<(Seq<char>, Json)>,
    entries: Seq<(Seq<char>, Json)>,
    source: Seq<char>,
)
    requires
        Json::Object(taken).wf(),
        values_wf(entries),
    ensures
        Json::Object(claim_all(taken, entries, source)).wf(),
    decreases entries.len(),
{
    if entries.len() > 0 {
        let earlier = entries.drop_last();
        assert forall|i: int| 0 <= i < earlier.len() implies (#[trigger] earlier[i]).1.wf() by {
            assert(earlier[i] == entries[i]);
        }
        lemma_claim_all_wf(taken, earlier, source);
        let before = claim_all(taken, earlier, source);
        assert(entries.last() == entries[entries.len() - 1]);
        lemma_put_wf(before, claim_key(before, entries.last().0, source), entries.last().1);
    }
}

/// Storing the component kinds of a well-formed source keeps the kinds
/// well formed, and makes none that is called `schemas`.
pub proof fn lemma_claim_kinds_wf(
    kinds: Seq<(Seq<char>, Json)>,
    components: Seq<(Seq<char>, Json)>,
    source: Seq<char>,
)
    requires
        Json::Object(kinds).wf(),
        !has_key(kinds, "schemas"@),
        values_wf(components),
    ensures
        Json::Object(claim_kinds(kinds, components, source)).wf(),
        !has_key(claim_kinds(kinds, components, source), "schemas"@),
    decreases components.len(),
{
    if components.len() > 0 {
        let earlier = components.drop_last();
        assert forall|i: int| 0 <= i < earlier.len() implies (#[trigger] earlier[i]).1.wf() by {
            assert(earlier[i] == components[i]);
        }
        lemma_claim_kinds_wf(kinds, earlier, source);
        let before = claim_kinds(kinds, earlier, source);
        let component = components.last();
        assert(component == components[components.len() - 1]);
        if component.0 != "schemas"@ {
            lemma_lookup_wf(before, component.0);
            lemma_members_at_wf(lookup(before, component.0));
            lemma_members_at_wf(Some(component.1));
            let names = claim_all(
                members_at(lookup(before, component.0)),
                members_at(Some(component.1)),
                source,
            );
            lemma_claim_all_wf(
                members_at(lookup(before, component.0)),
                members_at(Some(component.1)),
                source,
            );
            lemma_put_wf(before, component.0, Json::Object(names));
            lemma_put_other(before, component.0, Json::Object(names), "schemas"@);
        }
    }
}

/// A well-formed source enters the merge as a well-formed document.
pub proof fn lemma_prepared_wf(source: SourceModel, grouping: bool, proxy: bool)
    requires
        source.document.wf(),
    ensures
        prepared(source, grouping, proxy).wf(),
{
    lemma_add_servers_wf(source.document, source.url, source.name, proxy);
    if grouping {
        lemma_namespace_tags_wf(
            crate::servers::add_servers(source.document, source.url, source.name, proxy),
            source.name,
        );
    }
}

/// Taking in a well-formed source keeps what is gathered well formed.
pub proof fn lemma_absorb_wf(state: Gathered, source: SourceModel, grouping: bool, proxy: bool)
    requires
        gathered_wf(state),
        source.document.wf(),
    ensures
        gathered_wf(absorb(state, source, grouping, proxy)),
{
    if !(source.document is Null) {
        lemma_prepared_wf(source, grouping, proxy);
        let doc = prepared(source, grouping, proxy);
        lemma_get_wf(doc, "paths"@);
        lemma_members_at_wf(doc.get("paths"@));
        lemma_claim_all_wf(state.paths, members_at(doc.get("paths"@)), source.name);
        lemma_get_wf(doc, "components"@);
        match doc.get("components"@) {
            Some(components) => lemma_get_wf(components, "schemas"@),
            None => {},
        }
        lemma_members_at_wf(schemas_of(doc));
        lemma_claim_all_wf(state.schemas, members_at(schemas_of(doc)), source.name);
        lemma_members_at_wf(doc.get("components"@));
        lemma_claim_kinds_wf(state.kinds, members_at(doc.get("components"@)), source.name);
        lemma_get_wf(doc, "tags"@);
        if grouping {
            let more = items_at(doc.get("tags"@));
            let tags = state.tags + more;
            lemma_array_wf(state.tags);
            lemma_array_wf(more);
            assert forall|i: int| 0 <= i < tags.len() implies (#[trigger] tags[i]).wf() by {
                if i < state.tags.len() {
                    assert(tags[i] == state.tags[i]);
                    assert(state.tags[i].wf());
                } else {
                    assert(tags[i] == more[i - state.tags.len()]);
                    assert(more[i - state.tags.len()].wf());
                }
            }
            lemma_array_wf(tags);
        }
    }
}

/// What is gathered from well-formed sources is well formed.
pub proof fn lemma_absorb_all_wf(sources: Seq<SourceModel>, grouping: bool, proxy: bool)
    requires
        sources_wf(sources),
    ensures
        gathered_wf(absorb_all(sources, grouping, proxy)),
    decreases sources.len(),
{
    if sources.len() > 0 {
        let earlier = sources.drop_last();
        assert forall|i: int| 0 <= i < earlier.len() implies (#[trigger] earlier[i]).document.wf() by {
            assert(earlier[i] == sources[i]);
        }
        lemma_absorb_all_wf(earlier, grouping, proxy);
        assert(sources.last() == sources[sources.len() - 1]);
        lemma_absorb_wf(absorb_all(earlier, grouping, proxy), sources.last(), grouping, proxy);
    }
}

/// The document assembled from what is gathered is well formed.
pub proof fn lemma_assembled_wf(state: Gathered, grouping: bool)
    requires
        gathered_wf(state),
    ensures
        assembled(state, grouping).wf(),
{
    reveal_strlit("info");
    reveal_strlit("paths");
    reveal_strlit("components");
    reveal_strlit("tags");
    reveal_strlit("title");
    reveal_strlit("description");
    reveal_strlit("version");
    reveal_strlit("schemas");
    match default_info() {
        Json::Object(info) => {
            assert(info.len() == 3);
            assert(info[0].0.len() == 5 && info[1].0.len() == 11 && info[2].0.len() == 7);
            assert(info[0].1.wf() && info[1].1.wf() && info[2].1.wf());
            assert(distinct_keys(info));
        },
        _ => {},
    }
    assert(default_info().wf());
    let first = seq![("schemas"@, Json::Object(state.schemas))];
    let components = first + state.kinds;
    lemma_has_key(state.kinds, "schemas"@);
    assert forall|i: int, j: int| 0 <= i < j < components.len() implies (#[trigger] components[i]).0
        != (#[trigger] components[j]).0 by {
        assert(components[j] == state.kinds[j - 1]);
        if i == 0 {
            assert(components[0].0 == "schemas"@);
        } else {
            assert(components[i] == state.kinds[i - 1]);
        }
    }
    assert forall|i: int| 0 <= i < components.len() implies (#[trigger] components[i]).1.wf() by {
        if i > 0 {
            assert(components[i] == state.kinds[i - 1]);
        }
    }
    assert(Json::Object(components).wf());
    match assembled(state, grouping) {
        Json::Object(members) => {
            assert(members[0].0 == "info"@ && members[1].0 == "paths"@ && members[2].0
                == "components"@);
            assert("info"@[0] == 'i' && "tags"@[0] == 't');
            assert(members[0].0.len() == 4 && members[1].0.len() == 5 && members[2].0.len() == 10);
            assert(members[0].1.wf());
            assert(members[1].1.wf());
            assert(members[2].1.wf());
            if grouping {
                assert(members.len() == 4);
                assert(members[3].0 == "tags"@);
                assert(members[3].1.wf());
            } else {
                assert(members.len() == 3);
            }
            assert(distinct_keys(members));
        },
        _ => {},
    }
}

/// The merge of well-formed documents is a well-formed document: no object
/// in it holds a key twice.
pub proof fn lemma_merged_wf(sources: Seq<SourceModel>, grouping: bool, proxy: bool)
    requires
        sources_wf(sources),
    ensures
        merged(sources, grouping, proxy).wf(),
{
    if sources.len() > 0 {
        lemma_absorb_all_wf(sources, grouping, proxy);
        lemma_assembled_wf(absorb_all(sources, grouping, proxy), grouping);
    } else {
        assert(distinct_keys(Seq::<(Seq<char>, Json)>::empty()));
    }
}

} // verus!

