//! The sources of a merge: which configured services take part, under which
//! name, and how the text that a service answers with is decoded.

use crate::text::first_chars;
use vstd::prelude::*;

verus! {

/// A service as it stands in the configuration; each field may be missing.
#[derive(Clone, Debug, PartialEq, Eq)]
pub struct RawSource {
    pub name: Option<String>,
    /// Where the service's document is fetched from.
    pub schema: Option<String>,
    pub url: Option<String>,
    pub enabled: Option<bool>,
}

/// A service that takes part in a merge.
#[derive(Clone, Debug, PartialEq, Eq)]
pub struct Source {
    pub name: String,
    /// Where the service's document is fetched from.
    pub schema: String,
    pub url: String,
    pub enabled: bool,
}

/// The model of a `RawSource`.
pub struct RawSourceModel {
    pub name: Option<Seq<char>>,
    pub schema: Option<Seq<char>>,
    pub url: Option<Seq<char>>,
    pub enabled: Option<bool>,
}

/// The model of a `Source`.
pub struct SourceRecord {
    pub name: Seq<char>,
    pub schema: Seq<char>,
    pub url: Seq<char>,
    pub enabled: bool,
}

/// The model of a text that may be missing.
pub open spec fn optional_text(text: Option<String>) -> Option<Seq<char>> {
    match text {
        Some(s) => Some(s@),
        None => None,
    }
}

impl View for RawSource {
    type V = RawSourceModel;

    open spec fn view(&self) -> RawSourceModel {
        RawSourceModel {
            name: optional_text(self.name),
            schema: optional_text(self.schema),
            url: optional_text(self.url),
            enabled: self.enabled,
        }
    }
}

impl View for Source {
    type V = SourceRecord;

    open spec fn view(&self) -> SourceRecord {
        SourceRecord { name: self.name@, schema: self.schema@, url: self.url@, enabled: self.enabled }
    }
}

/// The model of a list of configured services.
pub open spec fn raw_sources_view(sources: Seq<RawSource>) -> Seq<RawSourceModel> {
    Seq::new(sources.len(), |i: int| sources[i]@)
}

/// The model of a list of services.
pub open spec fn records_view(sources: Seq<Source>) -> Seq<SourceRecord> {
    Seq::new(sources.len(), |i: int| sources[i]@)
}

/// A digit of a number written to the base 16 in lower case.
pub open spec fn is_hex_digit(c: char) -> bool {
    '0' <= c <= '9' || 'a' <= c <= 'f'
}

/// The form of a UUID written with hyphens: 36 characters, hyphens at the
/// positions 8, 13, 18 and 23, and lower-case hexadecimal digits elsewhere.
pub open spec fn is_uuid_text(s: Seq<char>) -> bool {
    &&& s.len() == 36
    &&& forall|i: int|
        0 <= i < 36 ==> if i == 8 || i == 13 || i == 18 || i == 23 {
            #[trigger] s[i] == '-'
        } else {
            is_hex_digit(s[i])
        }
}

/// The form of a generated name: the first ten characters of a UUID
/// written with hyphens.
pub open spec fn is_short_id(s: Seq<char>) -> bool {
    &&& s.len() == 10
    &&& forall|i: int|
        0 <= i < 10 ==> if i == 8 {
            #[trigger] s[i] == '-'
        } else {
            is_hex_digit(s[i])
        }
}

/// A new random UUID as text.
///
/// Calls `uuid::Uuid::new_v4` and formats the result with its `Display`,
/// which writes the hyphenated lower-case form. The contract claims that
/// form and nothing else: which UUID comes is left open, and two calls may
/// differ.
#[verifier::external_body]
fn new_uuid_text() -> (r: String)
    ensures
        is_uuid_text(r@),
{
    uuid::Uuid::new_v4().to_string()
}

/// A generated name for a service that has none: the first ten characters
/// of a random UUID.
pub fn generate_uuid_short() -> (r: String)
    ensures
        is_short_id(r@),
{
    let full = new_uuid_text();
    let short = first_chars(full.as_str(), 10);
    assert forall|i: int| 0 <= i < 10 implies if i == 8 {
        #[trigger] short@[i] == '-'
    } else {
        is_hex_digit(short@[i])
    } by {
        assert(short@[i] == full@[i]);
    }
    short
}

/// The service that a configured service stands for, if it takes part: it
/// must say where its document is, and it must be enabled, by its own
/// switch or else by the default. A missing name is replaced by
/// `fallback_name`, a missing URL by `http://localhost`.
pub open spec fn resolved(raw: RawSourceModel, enabled: bool, fallback_name: Seq<char>) -> Option<
    SourceRecord,
> {
    let flag = match raw.enabled {
        Some(own) => own,
        None => enabled,
    };
    match raw.schema {
        Some(schema) if flag => Some(
            SourceRecord {
                name: match raw.name {
                    Some(name) => name,
                    None => fallback_name,
                },
                schema,
                url: match raw.url {
                    Some(url) => url,
                    None => "http://localhost"@,
                },
                enabled: true,
            },
        ),
        _ => None,
    }
}

/// The services that take part, in the order of the configuration, where
/// the `i`-th configured service would get the `i`-th fallback name.
pub open spec fn selected(
    raws: Seq<RawSourceModel>,
    enabled: bool,
    fallback_names: Seq<Seq<char>>,
) -> Seq<SourceRecord>
    decreases raws.len(),
{
    if raws.len() == 0 {
        Seq::empty()
    } else {
        let before = selected(raws.drop_last(), enabled, fallback_names.drop_last());
        match resolved(raws.last(), enabled, fallback_names.last()) {
            Some(source) => before.push(source),
            None => before,
        }
    }
}

/// Decides whether a configured service takes part, and completes it.
pub fn resolve_source(raw: &RawSource, enabled: bool, fallback_name: &str) -> (r: Option<Source>)
    ensures
        match r {
            Some(source) => resolved(raw@, enabled, fallback_name@) == Some(source@),
            None => resolved(raw@, enabled, fallback_name@) is None,
        },
{
    let flag = match raw.enabled {
        Some(own) => own,
        None => enabled,
    };
    match &raw.schema {
        Some(schema) => {
            if flag {
                let name = match &raw.name {
                    Some(name) => name.clone(),
                    None => fallback_name.to_owned(),
                };
                let url = match &raw.url {
                    Some(url) => url.clone(),
                    None => "http://localhost".to_owned(),
                };
                Some(Source { name, schema: schema.clone(), url, enabled: true })
            } else {
                None
            }
        },
        None => None,
    }
}

/// Picks the configured services that take part in a merge.
///
/// A service takes part if it says where its document is and is enabled,
/// by its own switch or else by `enabled`. One without a name gets a
/// generated name, one without a URL gets `http://localhost`. The result
/// keeps the order of the configuration.
pub fn select_sources(raws: &Vec<RawSource>, enabled: bool) -> (r: Vec<Source>)
    ensures
        exists|fallback_names: Seq<Seq<char>>|
            {
                &&& fallback_names.len() == raws.len()
                &&& forall|i: int|
                    0 <= i < fallback_names.len() ==> is_short_id(#[trigger] fallback_names[i])
                &&& records_view(r@) == #[trigger] selected(
                    raw_sources_view(raws@),
                    enabled,
                    fallback_names,
                )
            },
{
    let ghost all = raw_sources_view(raws@);
    let ghost mut names: Seq<Seq<char>> = Seq::empty();
    let mut out: Vec<Source> = Vec::new();
    let mut i: usize = 0;
    assert(all.take(0) =~= Seq::empty());
    assert(records_view(out@) =~= Seq::empty());
    while i < raws.len()
        invariant
            i <= raws.len(),
            all == raw_sources_view(raws@),
            names.len() == i,
            forall|j: int| 0 <= j < names.len() ==> is_short_id(#[trigger] names[j]),
            records_view(out@) == selected(all.take(i as int), enabled, names),
        decreases raws.len() - i,
    {
        let ghost before = records_view(out@);
        let ghost names_before = names;
        let fallback = match &raws[i].name {
            Some(_) => None,
            None => Some(generate_uuid_short()),
        };
        let resolved_source = match &fallback {
            Some(generated) => {
                proof {
                    names = names.push(generated@);
                }
                resolve_source(&raws[i], enabled, generated.as_str())
            },
            None => {
                proof {
                    names = names.push(Seq::new(10, |k: int| if k == 8 { '-' } else { '0' }));
                }
                resolve_source(&raws[i], enabled, "")
            },
        };
        proof {
            assert(all.take(i + 1).drop_last() =~= all.take(i as int));
            assert(all.take(i + 1).last() == raws@[i as int]@);
            assert(names.drop_last() =~= names_before);
        }
        match resolved_source {
            Some(source) => {
                out.push(source);
                assert(records_view(out@) =~= before.push(source@));
            },
            None => {},
        }
        i += 1;
    }
    assert(all.take(raws.len() as int) =~= all);
    out
}

/// A service with the text of its document.
#[derive(Clone, Debug, PartialEq, Eq)]
pub struct FetchedSchema {
    pub source: Source,
    /// The document as JSON text.
    pub schema_data: String,
}

/// A service whose document could not be had, and why.
#[derive(Clone, Debug, PartialEq, Eq)]
pub struct FetchFailure {
    pub source: Source,
    pub message: String,
}

/// What the retrieval of the documents has brought so far: the documents
/// that came, and the failures, each in the order of the services.
#[derive(Clone, Debug, PartialEq, Eq)]
pub struct Fetched {
    pub schemas: Vec<FetchedSchema>,
    pub failures: Vec<FetchFailure>,
}

/// The model of a `Fetched`: each document as its service and its text,
/// each failure as its service and its message.
pub struct FetchedModel {
    pub schemas: Seq<(SourceRecord, Seq<char>)>,
    pub failures: Seq<(SourceRecord, Seq<char>)>,
}

/// The model of a list of fetched documents.
pub open spec fn fetched_schemas_view(schemas: Seq<FetchedSchema>) -> Seq<(SourceRecord, Seq<char>)> {
    Seq::new(schemas.len(), |i: int| (schemas[i].source@, schemas[i].schema_data@))
}

/// The model of a list of failures.
pub open spec fn failures_view(failures: Seq<FetchFailure>) -> Seq<(SourceRecord, Seq<char>)> {
    Seq::new(failures.len(), |i: int| (failures[i].source@, failures[i].message@))
}

impl View for Fetched {
    type V = FetchedModel;

    open spec fn view(&self) -> FetchedModel {
        FetchedModel {
            schemas: fetched_schemas_view(self.schemas@),
            failures: failures_view(self.failures@),
        }
    }
}

/// The model of what a retrieval answers: the text of the document, or a
/// message.
pub open spec fn answer_view(answer: Result<String, String>) -> Result<Seq<char>, Seq<char>> {
    match answer {
        Ok(text) => Ok(text@),
        Err(message) => Err(message@),
    }
}

/// What has been brought after one more answer: a document is added to the
/// documents, a failure to the failures, and nothing else changes.
pub open spec fn recorded(
    before: FetchedModel,
    source: SourceRecord,
    answer: Result<Seq<char>, Seq<char>>,
) -> FetchedModel {
    match answer {
        Ok(text) => FetchedModel { schemas: before.schemas.push((source, text)), ..before },
        Err(message) => FetchedModel {
            failures: before.failures.push((source, message)),
            ..before
        },
    }
}

/// What has been brought after the answers for the services, in their
/// order.
pub open spec fn recorded_all(
    sources: Seq<SourceRecord>,
    answers: Seq<Result<Seq<char>, Seq<char>>>,
) -> FetchedModel
    decreases sources.len(),
{
    if sources.len() == 0 || answers.len() != sources.len() {
        FetchedModel { schemas: Seq::empty(), failures: Seq::empty() }
    } else {
        recorded(
            recorded_all(sources.drop_last(), answers.drop_last()),
            sources.last(),
            answers.last(),
        )
    }
}

impl Fetched {
    /// Nothing brought yet.
    pub fn new() -> (r: Fetched)
        ensures
            r@ == (FetchedModel { schemas: Seq::empty(), failures: Seq::empty() }),
    {
        let r = Fetched { schemas: Vec::new(), failures: Vec::new() };
        assert(fetched_schemas_view(r.schemas@) =~= Seq::empty());
        assert(failures_view(r.failures@) =~= Seq::empty());
        r
    }

    /// Takes in the answer for one service. A failure is kept with its
    /// service and its message, and the retrieval goes on: the documents
    /// that came before stay, and those that come later are taken in.
    pub fn record(&mut self, source: &Source, answer: Result<String, String>)
        ensures
            final(self)@ == recorded(old(self)@, source@, answer_view(answer)),
    {
        let ghost before = self@;
        match answer {
            Ok(schema_data) => {
                let ghost text = schema_data@;
                self.schemas.push(FetchedSchema { source: copy_source(source), schema_data });
                assert(fetched_schemas_view(self.schemas@) =~= before.schemas.push(
                    (source@, text),
                ));
            },
            Err(message) => {
                let ghost reason = message@;
                self.failures.push(FetchFailure { source: copy_source(source), message });
                assert(failures_view(self.failures@) =~= before.failures.push((source@, reason)));
            },
        }
    }
}

/// A copy of a service.
pub fn copy_source(source: &Source) -> (r: Source)
    ensures
        r@ == source@,
{
    Source {
        name: source.name.clone(),
        schema: source.schema.clone(),
        url: source.url.clone(),
        enabled: source.enabled,
    }
}

/// One failure does not stop the others: every service whose document came
/// is among the documents with that text, whatever the answers for the
/// other services were.
pub proof fn lemma_fetched_document_is_kept(
    sources: Seq<SourceRecord>,
    answers: Seq<Result<Seq<char>, Seq<char>>>,
    i: int,
)
    requires
        sources.len() == answers.len(),
        0 <= i < sources.len(),
        answers[i] is Ok,
    ensures
        exists|j: int|
            0 <= j < recorded_all(sources, answers).schemas.len() && #[trigger] recorded_all(
                sources,
                answers,
            ).schemas[j] == (sources[i], answers[i]->Ok_0),
    decreases sources.len(),
{
    let earlier = recorded_all(sources.drop_last(), answers.drop_last());
    let all = recorded_all(sources, answers);
    if i == sources.len() - 1 {
        assert(all.schemas[earlier.schemas.len() as int] == (sources[i], answers[i]->Ok_0));
    } else {
        lemma_fetched_document_is_kept(sources.drop_last(), answers.drop_last(), i);
        let j = choose|j: int|
            0 <= j < earlier.schemas.len() && #[trigger] earlier.schemas[j] == (
                sources.drop_last()[i],
                answers.drop_last()[i]->Ok_0,
            );
        assert(all.schemas[j] == earlier.schemas[j]);
    }
}

/// Every failure is reported: every service whose document did not come is
/// among the failures with its message.
pub proof fn lemma_failure_is_reported(
    sources: Seq<SourceRecord>,
    answers: Seq<Result<Seq<char>, Seq<char>>>,
    i: int,
)
    requires
        sources.len() == answers.len(),
        0 <= i < sources.len(),
        answers[i] is Err,
    ensures
        exists|j: int|
            0 <= j < recorded_all(sources, answers).failures.len() && #[trigger] recorded_all(
                sources,
                answers,
            ).failures[j] == (sources[i], answers[i]->Err_0),
    decreases sources.len(),
{
    let earlier = recorded_all(sources.drop_last(), answers.drop_last());
    let all = recorded_all(sources, answers);
    if i == sources.len() - 1 {
        assert(all.failures[earlier.failures.len() as int] == (sources[i], answers[i]->Err_0));
    } else {
        lemma_failure_is_reported(sources.drop_last(), answers.drop_last(), i);
        let j = choose|j: int|
            0 <= j < earlier.failures.len() && #[trigger] earlier.failures[j] == (
                sources.drop_last()[i],
                answers.drop_last()[i]->Err_0,
            );
        assert(all.failures[j] == earlier.failures[j]);
    }
}

} // verus!
