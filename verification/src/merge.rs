//! The merge engine: folds the documents of several services into one.

use crate::invariants::{lemma_merged_wf, sources_wf};
use crate::model::{has_key, lookup, put, Json};
use crate::servers::{add_servers, add_servers_to_schema};
use crate::tags::{add_service_prefix_to_tags, namespace_tags};
use crate::text::{join3, same_text};
use crate::node::{copy_members, find_member, items_view, members_view, put_member, Node};
use vstd::prelude::*;

verus! {

/// One service's contribution to a merge: its name, the URL of its origin,
/// and its document.
#[derive(Clone, Debug, PartialEq, Eq)]
pub struct SourceDocument {
    pub name: String,
    pub url: String,
    pub document: Node,
}

/// The model of a `SourceDocument`.
pub struct SourceModel {
    pub name: Seq<char>,
    pub url: Seq<char>,
    pub document: Json,
}

impl View for SourceDocument {
    type V = SourceModel;

    open spec fn view(&self) -> SourceModel {
        SourceModel { name: self.name@, url: self.url@, document: self.document@ }
    }
}

/// The part of the merged document in which a name was claimed.
#[derive(Clone, Debug, PartialEq, Eq)]
pub enum Section {
    Paths,
    Schemas,
    /// A component kind other than `schemas`.
    Components(String),
}

/// The model of a `Section`.
pub enum SectionModel {
    Paths,
    Schemas,
    Components(Seq<char>),
}

impl View for Section {
    type V = SectionModel;

    open spec fn view(&self) -> SectionModel {
        match self {
            Section::Paths => SectionModel::Paths,
            Section::Schemas => SectionModel::Schemas,
            Section::Components(kind) => SectionModel::Components(kind@),
        }
    }
}

/// Something that a merge reports beside its result.
#[derive(Clone, Debug, PartialEq, Eq)]
pub enum MergeEvent {
    /// The source's document failed validation and was kept out
    /// of the merge.
    InvalidSource { name: String },
    /// The source's document was null and took no part.
    SkippedSource { name: String },
    /// `key` was taken, and so was `renamed`, the name with the source's
    /// suffix: the entry under `renamed` was overwritten.
    Conflict { section: Section, key: String, renamed: String },
}

/// The model of a `MergeEvent`.
pub enum EventModel {
    InvalidSource { name: Seq<char> },
    SkippedSource { name: Seq<char> },
    Conflict { section: SectionModel, key: Seq<char>, renamed: Seq<char> },
}

impl View for MergeEvent {
    type V = EventModel;

    open spec fn view(&self) -> EventModel {
        match self {
            MergeEvent::InvalidSource { name } => EventModel::InvalidSource { name: name@ },
            MergeEvent::SkippedSource { name } => EventModel::SkippedSource { name: name@ },
            MergeEvent::Conflict { section, key, renamed } => EventModel::Conflict {
                section: section@,
                key: key@,
                renamed: renamed@,
            },
        }
    }
}

/// What a merge returns: the merged document, or the empty object where
/// there was nothing to merge, and the events in the order in which they
/// occurred.
#[derive(Clone, Debug, PartialEq, Eq)]
pub struct MergeReport {
    pub document: Node,
    pub events: Vec<MergeEvent>,
}

/// The model of a list of sources.
pub open spec fn sources_view(sources: Seq<SourceDocument>) -> Seq<SourceModel> {
    Seq::new(sources.len(), |i: int| sources[i]@)
}

/// The model of a list of events.
pub open spec fn events_view(events: Seq<MergeEvent>) -> Seq<EventModel> {
    Seq::new(events.len(), |i: int| events[i]@)
}

/// The name with the source's suffix.
pub open spec fn suffixed(key: Seq<char>, source: Seq<char>) -> Seq<char> {
    key + "_"@ + source
}

/// The name under which an entry is stored: its own key where that is
/// free, else the key with the source's suffix.
pub open spec fn claim_key(taken: Seq<(Seq<char>, Json)>, key: Seq<char>, source: Seq<char>) -> Seq<
    char,
> {
    if has_key(taken, key) {
        suffixed(key, source)
    } else {
        key
    }
}

/// Whether the key and the key with the source's suffix are both taken.
pub open spec fn collides(taken: Seq<(Seq<char>, Json)>, key: Seq<char>, source: Seq<char>) -> bool {
    has_key(taken, key) && has_key(taken, suffixed(key, source))
}

/// The names after one entry of a source is stored.
pub open spec fn claim(taken: Seq<(Seq<char>, Json)>, entry: (Seq<char>, Json), source: Seq<char>) -> Seq<
    (Seq<char>, Json),
> {
    put(taken, claim_key(taken, entry.0, source), entry.1)
}

/// The names after the entries of a source are stored, in their order.
pub open spec fn claim_all(
    taken: Seq<(Seq<char>, Json)>,
    entries: Seq<(Seq<char>, Json)>,
    source: Seq<char>,
) -> Seq<(Seq<char>, Json)>
    decreases entries.len(),
{
    if entries.len() == 0 {
        taken
    } else {
        claim(claim_all(taken, entries.drop_last(), source), entries.last(), source)
    }
}

/// The conflicts that occur while the entries of a source are stored.
pub open spec fn conflicts_in(
    taken: Seq<(Seq<char>, Json)>,
    entries: Seq<(Seq<char>, Json)>,
    source: Seq<char>,
    section: SectionModel,
) -> Seq<EventModel>
    decreases entries.len(),
{
    if entries.len() == 0 {
        Seq::empty()
    } else {
        let before = claim_all(taken, entries.drop_last(), source);
        let earlier = conflicts_in(taken, entries.drop_last(), source, section);
        let key = entries.last().0;
        if collides(before, key, source) {
            earlier.push(EventModel::Conflict { section, key, renamed: suffixed(key, source) })
        } else {
            earlier
        }
    }
}

/// The members of an object that may be absent: none where there is no
/// value or the value is not an object.
pub open spec fn members_at(value: Option<Json>) -> Seq<(Seq<char>, Json)> {
    match value {
        Some(Json::Object(members)) => members,
        _ => Seq::empty(),
    }
}

/// The items of an array that may be absent: none where there is no value
/// or the value is not an array.
pub open spec fn items_at(value: Option<Json>) -> Seq<Json> {
    match value {
        Some(Json::Array(items)) => items,
        _ => Seq::empty(),
    }
}

/// The component kinds after one kind of a source is stored. The kind
/// `schemas` is not stored here. Any other kind gets a name map of its own,
/// also where the source holds no object under it.
pub open spec fn claim_kind(
    kinds: Seq<(Seq<char>, Json)>,
    component: (Seq<char>, Json),
    source: Seq<char>,
) -> Seq<(Seq<char>, Json)> {
    if component.0 == "schemas"@ {
        kinds
    } else {
        put(
            kinds,
            component.0,
            Json::Object(
                claim_all(
                    members_at(lookup(kinds, component.0)),
                    members_at(Some(component.1)),
                    source,
                ),
            ),
        )
    }
}

/// The conflicts that occur while one kind of a source is stored.
pub open spec fn kind_conflicts(
    kinds: Seq<(Seq<char>, Json)>,
    component: (Seq<char>, Json),
    source: Seq<char>,
) -> Seq<EventModel> {
    if component.0 == "schemas"@ {
        Seq::empty()
    } else {
        conflicts_in(
            members_at(lookup(kinds, component.0)),
            members_at(Some(component.1)),
            source,
            SectionModel::Components(component.0),
        )
    }
}

/// The component kinds after the kinds of a source are stored, in their
/// order.
pub open spec fn claim_kinds(
    kinds: Seq<(Seq<char>, Json)>,
    components: Seq<(Seq<char>, Json)>,
    source: Seq<char>,
) -> Seq<(Seq<char>, Json)>
    decreases components.len(),
{
    if components.len() == 0 {
        kinds
    } else {
        claim_kind(claim_kinds(kinds, components.drop_last(), source), components.last(), source)
    }
}

/// The conflicts that occur while the kinds of a source are stored.
pub open spec fn kinds_conflicts(
    kinds: Seq<(Seq<char>, Json)>,
    components: Seq<(Seq<char>, Json)>,
    source: Seq<char>,
) -> Seq<EventModel>
    decreases components.len(),
{
    if components.len() == 0 {
        Seq::empty()
    } else {
        kinds_conflicts(kinds, components.drop_last(), source) + kind_conflicts(
            claim_kinds(kinds, components.drop_last(), source),
            components.last(),
            source,
        )
    }
}

/// What a merge has gathered so far.
pub struct Gathered {
    pub paths: Seq<(Seq<char>, Json)>,
    pub schemas: Seq<(Seq<char>, Json)>,
    /// One object of names for each component kind other than `schemas`.
    pub kinds: Seq<(Seq<char>, Json)>,
    pub tags: Seq<Json>,
    pub events: Seq<EventModel>,
}

/// Nothing gathered.
pub open spec fn nothing() -> Gathered {
    Gathered {
        paths: Seq::empty(),
        schemas: Seq::empty(),
        kinds: Seq::empty(),
        tags: Seq::empty(),
        events: Seq::empty(),
    }
}

/// A source's document as it enters the merge: with the server entries,
/// and under grouping with its tags namespaced.
pub open spec fn prepared(source: SourceModel, grouping: bool, proxy: bool) -> Json {
    let with_servers = add_servers(source.document, source.url, source.name, proxy);
    if grouping {
        namespace_tags(with_servers, source.name)
    } else {
        with_servers
    }
}

/// The schemas of a document: what stands under `components.schemas`.
pub open spec fn schemas_of(doc: Json) -> Option<Json> {
    match doc.get("components"@) {
        Some(components) => components.get("schemas"@),
        None => None,
    }
}

/// What is gathered after one more source. A source whose document is null
/// is skipped and reported.
pub open spec fn absorb(state: Gathered, source: SourceModel, grouping: bool, proxy: bool) -> Gathered {
    if source.document is Null {
        Gathered { events: state.events.push(EventModel::SkippedSource { name: source.name }), ..state }
    } else {
        let doc = prepared(source, grouping, proxy);
        let paths = members_at(doc.get("paths"@));
        let schemas = members_at(schemas_of(doc));
        let components = members_at(doc.get("components"@));
        Gathered {
            paths: claim_all(state.paths, paths, source.name),
            schemas: claim_all(state.schemas, schemas, source.name),
            kinds: claim_kinds(state.kinds, components, source.name),
            tags: if grouping {
                state.tags + items_at(doc.get("tags"@))
            } else {
                state.tags
            },
            events: state.events + conflicts_in(
                state.paths,
                paths,
                source.name,
                SectionModel::Paths,
            ) + conflicts_in(state.schemas, schemas, source.name, SectionModel::Schemas)
                + kinds_conflicts(state.kinds, components, source.name),
        }
    }
}

/// What is gathered from the sources, in their order.
pub open spec fn absorb_all(sources: Seq<SourceModel>, grouping: bool, proxy: bool) -> Gathered
    decreases sources.len(),
{
    if sources.len() == 0 {
        nothing()
    } else {
        absorb(absorb_all(sources.drop_last(), grouping, proxy), sources.last(), grouping, proxy)
    }
}

/// The `info` block of a merged document.
pub open spec fn default_info() -> Json {
    Json::Object(
        seq![
            ("title"@, Json::Text("Merged API"@)),
            ("description"@, Json::Text(""@)),
            ("version"@, Json::Text("1.0.0"@)),
        ],
    )
}

/// The merged document made of what was gathered: `info`, `paths`,
/// `components` with `schemas` first, and under grouping `tags`.
pub open spec fn assembled(state: Gathered, grouping: bool) -> Json {
    let components = Json::Object(seq![("schemas"@, Json::Object(state.schemas))] + state.kinds);
    let base = seq![
        ("info"@, default_info()),
        ("paths"@, Json::Object(state.paths)),
        ("components"@, components),
    ];
    if grouping {
        Json::Object(base.push(("tags"@, Json::Array(state.tags))))
    } else {
        Json::Object(base)
    }
}

/// The result of merging the sources: the empty object where there is no
/// source, else the document assembled from what the sources give.
pub open spec fn merged(sources: Seq<SourceModel>, grouping: bool, proxy: bool) -> Json {
    if sources.len() == 0 {
        Json::Object(Seq::empty())
    } else {
        assembled(absorb_all(sources, grouping, proxy), grouping)
    }
}

/// The events of merging the sources.
pub open spec fn merge_events(sources: Seq<SourceModel>, grouping: bool, proxy: bool) -> Seq<
    EventModel,
> {
    absorb_all(sources, grouping, proxy).events
}

impl Section {
    /// A copy of the section.
    pub fn copy(&self) -> (r: Section)
        ensures
            r@ == self@,
    {
        match self {
            Section::Paths => Section::Paths,
            Section::Schemas => Section::Schemas,
            Section::Components(kind) => Section::Components(kind.clone()),
        }
    }
}

/// Stores the entries of a source among the names taken so far, and adds
/// the conflicts to the events.
///
/// An entry goes under its own key where that is free, else under the key
/// with the suffix `_<source>`. Where that name is taken too, the entry
/// under it is overwritten and a conflict is reported.
pub fn claim_entries(
    taken: &mut Vec<(String, Node)>,
    entries: &Vec<(String, Node)>,
    source: &str,
    section: &Section,
    events: &mut Vec<MergeEvent>,
)
    ensures
        members_view(final(taken)@) == claim_all(
            members_view(old(taken)@),
            members_view(entries@),
            source@,
        ),
        events_view(final(events)@) == events_view(old(events)@) + conflicts_in(
            members_view(old(taken)@),
            members_view(entries@),
            source@,
            section@,
        ),
{
    let ghost taken0 = members_view(taken@);
    let ghost events0 = events_view(events@);
    let ghost all = members_view(entries@);
    let mut i: usize = 0;
    assert(all.take(0) =~= Seq::empty());
    assert(events_view(events@) =~= events0 + Seq::empty());
    while i < entries.len()
        invariant
            i <= entries.len(),
            all == members_view(entries@),
            members_view(taken@) == claim_all(taken0, all.take(i as int), source@),
            events_view(events@) == events0 + conflicts_in(
                taken0,
                all.take(i as int),
                source@,
                section@,
            ),
        decreases entries.len() - i,
    {
        let ghost events_before = events_view(events@);
        proof {
            assert(all.take(i + 1).drop_last() =~= all.take(i as int));
            assert(all.take(i + 1).last() == all[i as int]);
            assert(all[i as int] == (entries@[i as int].0@, entries@[i as int].1@));
        }
        let key = entries[i].0.as_str();
        let value = entries[i].1.deep_copy();
        if find_member(taken, key).is_some() {
            let renamed = join3(key, "_", source);
            if find_member(taken, renamed.as_str()).is_some() {
                events.push(
                    MergeEvent::Conflict {
                        section: section.copy(),
                        key: key.to_owned(),
                        renamed: renamed.clone(),
                    },
                );
                assert(events_view(events@) =~= events_before.push(
                    EventModel::Conflict {
                        section: section@,
                        key: key@,
                        renamed: suffixed(key@, source@),
                    },
                ));
            }
            put_member(taken, renamed, value);
        } else {
            put_member(taken, key.to_owned(), value);
        }
        assert(events_view(events@) =~= events0 + conflicts_in(
            taken0,
            all.take(i + 1),
            source@,
            section@,
        ));
        i += 1;
    }
    assert(all.take(entries.len() as int) =~= all);
}

/// Stores the component kinds of a source, each among the names of its own
/// kind, and adds the conflicts to the events. The kind `schemas` is left
/// out here.
pub fn claim_components(
    kinds: &mut Vec<(String, Node)>,
    components: &Vec<(String, Node)>,
    source: &str,
    events: &mut Vec<MergeEvent>,
)
    ensures
        members_view(final(kinds)@) == claim_kinds(
            members_view(old(kinds)@),
            members_view(components@),
            source@,
        ),
        events_view(final(events)@) == events_view(old(events)@) + kinds_conflicts(
            members_view(old(kinds)@),
            members_view(components@),
            source@,
        ),
{
    let ghost kinds0 = members_view(kinds@);
    let ghost events0 = events_view(events@);
    let ghost all = members_view(components@);
    let mut i: usize = 0;
    assert(all.take(0) =~= Seq::empty());
    assert(events_view(events@) =~= events0 + Seq::empty());
    while i < components.len()
        invariant
            i <= components.len(),
            all == members_view(components@),
            members_view(kinds@) == claim_kinds(kinds0, all.take(i as int), source@),
            events_view(events@) == events0 + kinds_conflicts(kinds0, all.take(i as int), source@),
        decreases components.len() - i,
    {
        let ghost before = members_view(kinds@);
        proof {
            assert(all.take(i + 1).drop_last() =~= all.take(i as int));
            assert(all.take(i + 1).last() == all[i as int]);
            assert(all[i as int] == (components@[i as int].0@, components@[i as int].1@));
        }
        let kind = components[i].0.as_str();
        if !same_text(kind, "schemas") {
            let mut current: Vec<(String, Node)> = Vec::new();
            assert(members_view(current@) =~= Seq::empty());
            match find_member(kinds, kind) {
                Some(j) => {
                    assert(before[j as int].1 == kinds@[j as int].1@);
                    match &kinds[j].1 {
                        Node::Object(names) => {
                            current = copy_members(names);
                        },
                        _ => {},
                    }
                },
                None => {},
            }
            assert(members_view(current@) == members_at(lookup(before, kind@)));
            let ghost events_before = events_view(events@);
            match &components[i].1 {
                Node::Object(entries) => {
                    let section = Section::Components(kind.to_owned());
                    claim_entries(&mut current, entries, source, &section, events);
                },
                _ => {
                    assert(events_view(events@) =~= events_before + Seq::empty());
                },
            }
            put_member(kinds, kind.to_owned(), Node::Object(current));
            assert(events_view(events@) =~= events0 + kinds_conflicts(
                kinds0,
                all.take(i + 1),
                source@,
            ));
        } else {
            assert(events_view(events@) =~= events0 + kinds_conflicts(
                kinds0,
                all.take(i + 1),
                source@,
            ));
        }
        i += 1;
    }
    assert(all.take(components.len() as int) =~= all);
}

/// What a merge has gathered so far.
pub struct Gathering {
    pub paths: Vec<(String, Node)>,
    pub schemas: Vec<(String, Node)>,
    pub kinds: Vec<(String, Node)>,
    pub tags: Vec<Node>,
    pub events: Vec<MergeEvent>,
}

impl View for Gathering {
    type V = Gathered;

    open spec fn view(&self) -> Gathered {
        Gathered {
            paths: members_view(self.paths@),
            schemas: members_view(self.schemas@),
            kinds: members_view(self.kinds@),
            tags: items_view(self.tags@),
            events: events_view(self.events@),
        }
    }
}

impl Gathering {
    /// Nothing gathered.
    pub fn new() -> (r: Gathering)
        ensures
            r@ == nothing(),
    {
        let r = Gathering {
            paths: Vec::new(),
            schemas: Vec::new(),
            kinds: Vec::new(),
            tags: Vec::new(),
            events: Vec::new(),
        };
        assert(members_view(r.paths@) =~= Seq::empty());
        assert(members_view(r.schemas@) =~= Seq::empty());
        assert(members_view(r.kinds@) =~= Seq::empty());
        assert(items_view(r.tags@) =~= Seq::empty());
        assert(events_view(r.events@) =~= Seq::empty());
        r
    }

    /// Takes in one more source: prepares its document and stores its tags,
    /// paths, schemas and other components. A source whose document is null
    /// is skipped and reported.
    pub fn absorb_source(&mut self, source: &SourceDocument, grouping: bool, proxy: bool)
        ensures
            final(self)@ == absorb(old(self)@, source@, grouping, proxy),
    {
        let ghost state = self@;
        let name = source.name.as_str();
        if source.document.is_null() {
            self.events.push(MergeEvent::SkippedSource { name: source.name.clone() });
            assert(events_view(self.events@) =~= state.events.push(
                EventModel::SkippedSource { name: name@ },
            ));
            return ;
        }
        let mut doc = add_servers_to_schema(&source.document, source.url.as_str(), name, proxy);
        if grouping {
            add_service_prefix_to_tags(&mut doc, name);
            append_items(&mut self.tags, doc.get("tags"));
        }
        assert(doc@ == prepared(source@, grouping, proxy));
        match doc.get("paths") {
            Some(Node::Object(paths)) => {
                claim_entries(&mut self.paths, paths, name, &Section::Paths, &mut self.events);
            },
            _ => {
                assert(events_view(self.events@) =~= state.events + Seq::empty());
            },
        }
        let ghost events1 = events_view(self.events@);
        let mut found_schemas = false;
        match doc.get("components") {
            Some(components) => {
                match components.get("schemas") {
                    Some(Node::Object(schemas)) => {
                        claim_entries(
                            &mut self.schemas,
                            schemas,
                            name,
                            &Section::Schemas,
                            &mut self.events,
                        );
                        found_schemas = true;
                    },
                    _ => {},
                }
            },
            None => {},
        }
        if !found_schemas {
            assert(events_view(self.events@) =~= events1 + Seq::empty());
        }
        let ghost events2 = events_view(self.events@);
        match doc.get("components") {
            Some(Node::Object(components)) => {
                claim_components(&mut self.kinds, components, name, &mut self.events);
            },
            _ => {
                assert(events_view(self.events@) =~= events2 + Seq::empty());
            },
        }
    }

    /// The merged document made of what was gathered.
    pub fn assemble(self, grouping: bool) -> (r: MergeReport)
        ensures
            r.document@ == assembled(self@, grouping),
            events_view(r.events@) == self@.events,
    {
        let mut info: Vec<(String, Node)> = Vec::new();
        info.push(("title".to_owned(), Node::text("Merged API")));
        info.push(("description".to_owned(), Node::text("")));
        info.push(("version".to_owned(), Node::text("1.0.0")));
        assert(members_view(info@) =~= seq![
            ("title"@, Json::Text("Merged API"@)),
            ("description"@, Json::Text(""@)),
            ("version"@, Json::Text("1.0.0"@)),
        ]);
        let ghost kinds_model = members_view(self.kinds@);
        let ghost schemas_model = members_view(self.schemas@);
        let mut kinds = self.kinds;
        let mut components: Vec<(String, Node)> = Vec::new();
        components.push(("schemas".to_owned(), Node::Object(self.schemas)));
        components.append(&mut kinds);
        assert(members_view(components@) =~= seq![("schemas"@, Json::Object(schemas_model))]
            + kinds_model);
        let ghost paths_model = members_view(self.paths@);
        let ghost tags_model = items_view(self.tags@);
        let mut out: Vec<(String, Node)> = Vec::new();
        out.push(("info".to_owned(), Node::Object(info)));
        out.push(("paths".to_owned(), Node::Object(self.paths)));
        out.push(("components".to_owned(), Node::Object(components)));
        let ghost base = seq![
            ("info"@, default_info()),
            ("paths"@, Json::Object(paths_model)),
            ("components"@, Json::Object(seq![("schemas"@, Json::Object(schemas_model))] + kinds_model)),
        ];
        assert(members_view(out@) =~= base);
        if grouping {
            out.push(("tags".to_owned(), Node::Array(self.tags)));
            assert(members_view(out@) =~= base.push(("tags"@, Json::Array(tags_model))));
        }
        MergeReport { document: Node::Object(out), events: self.events }
    }
}

/// Adds copies of the items of an array that may be absent to the list.
pub fn append_items(list: &mut Vec<Node>, value: Option<&Node>)
    ensures
        items_view(final(list)@) == items_view(old(list)@) + items_at(
            match value {
                Some(v) => Some(v@),
                None => None,
            },
        ),
{
    let ghost before = items_view(list@);
    match value {
        Some(Node::Array(items)) => {
            let mut i: usize = 0;
            assert(items_view(items@).take(0) =~= Seq::empty());
            assert(items_view(list@) =~= before + Seq::empty());
            while i < items.len()
                invariant
                    i <= items.len(),
                    items_view(list@) == before + items_view(items@).take(i as int),
                decreases items.len() - i,
            {
                let ghost so_far = items_view(list@);
                list.push(items[i].deep_copy());
                assert(items_view(list@) =~= so_far.push(items@[i as int]@));
                assert(items_view(items@).take(i + 1) =~= items_view(items@).take(i as int).push(
                    items@[i as int]@,
                ));
                assert(items_view(list@) =~= before + items_view(items@).take(i + 1));
                i += 1;
            }
            assert(items_view(items@).take(items.len() as int) =~= items_view(items@));
        },
        _ => {
            assert(items_view(list@) =~= before + Seq::empty());
        },
    }
}

/// Merges the documents of the sources into one.
///
/// With no source the result is the empty object, which stands for "nothing
/// merged". Otherwise each source in turn gets its server entries and,
/// under grouping, its tags namespaced; its paths, schemas and other
/// components are then stored under their own names where those are free,
/// else under the name with the suffix `_<source>`. The result holds the
/// default `info`, the paths, the components with `schemas` always there,
/// and under grouping the tags of all sources.
pub fn merge_documents(sources: &Vec<SourceDocument>, grouping: bool, proxy: bool) -> (r:
    MergeReport)
    ensures
        r.document@ == merged(sources_view(sources@), grouping, proxy),
        events_view(r.events@) == merge_events(sources_view(sources@), grouping, proxy),
        sources_wf(sources_view(sources@)) ==> r.document.wf(),
{
    proof {
        if sources_wf(sources_view(sources@)) {
            lemma_merged_wf(sources_view(sources@), grouping, proxy);
        }
    }
    if sources.len() == 0 {
        let events: Vec<MergeEvent> = Vec::new();
        assert(events_view(events@) =~= Seq::empty());
        return MergeReport { document: Node::empty_object(), events };
    }
    let ghost all = sources_view(sources@);
    let mut state = Gathering::new();
    let mut i: usize = 0;
    assert(all.take(0) =~= Seq::empty());
    while i < sources.len()
        invariant
            i <= sources.len(),
            all == sources_view(sources@),
            state@ == absorb_all(all.take(i as int), grouping, proxy),
        decreases sources.len() - i,
    {
        proof {
            assert(all.take(i + 1).drop_last() =~= all.take(i as int));
            assert(all.take(i + 1).last() == sources@[i as int]@);
        }
        state.absorb_source(&sources[i], grouping, proxy);
        i += 1;
    }
    assert(all.take(sources.len() as int) =~= all);
    state.assemble(grouping)
}

} // verus!
