//! The operations on documents given as JSON text: each reads its
//! document, applies one of the library's operations, and writes the result.

use crate::codec::{json_parsed, json_text, parse_json, write_json};
use crate::config::{config_value, get_config_value};
use crate::error::{ErrorModel, MergeError};
use crate::merge::{
    events_view, merge_documents, merge_events, merged, MergeEvent, SourceDocument, SourceModel,
    sources_view,
};
use crate::metadata::{update_schema_metadata, with_metadata};
use crate::model::Json;
use crate::node::Node;
use crate::servers::{add_servers, add_servers_to_schema};
use crate::tags::{add_service_prefix_to_tags, namespace_tags};
use crate::validate::{is_valid_document, validate_schema};
use vstd::prelude::*;

verus! {

/// A service's document as text, with the service's name and URL.
#[derive(Clone, Debug, PartialEq, Eq)]
pub struct SchemaWithMetadata {
    pub name: String,
    pub url: String,
    /// The document as JSON text.
    pub schema_data: String,
}

/// The model of a `SchemaWithMetadata`.
pub struct SchemaModel {
    pub name: Seq<char>,
    pub url: Seq<char>,
    pub schema_data: Seq<char>,
}

impl View for SchemaWithMetadata {
    type V = SchemaModel;

    open spec fn view(&self) -> SchemaModel {
        SchemaModel { name: self.name@, url: self.url@, schema_data: self.schema_data@ }
    }
}

/// The model of a list of schemas.
pub open spec fn schemas_view(schemas: Seq<SchemaWithMetadata>) -> Seq<SchemaModel> {
    Seq::new(schemas.len(), |i: int| schemas[i]@)
}

/// The model of a list of texts.
pub open spec fn outputs_view(texts: Seq<String>) -> Seq<Seq<char>> {
    Seq::new(texts.len(), |i: int| texts[i]@)
}

/// What a merge of schema texts returns: the merged document as JSON text,
/// or nothing where there was no schema to merge, and the events.
#[derive(Clone, Debug, PartialEq, Eq)]
pub struct MergedSchema {
    pub merged_schema: Option<String>,
    pub events: Vec<MergeEvent>,
}

/// The document that a schema text holds, or the error that names the
/// service.
pub open spec fn read_schema(text: Seq<char>, source: Option<Seq<char>>) -> Result<Json, ErrorModel> {
    match json_parsed(text) {
        Ok(doc) => Ok(doc),
        Err(detail) => Err(ErrorModel::ParseSchema { source, detail }),
    }
}

/// The JSON text of a document, or the error of writing it, which names
/// the service that the document belongs to where there is one.
pub open spec fn written_schema(doc: Json, source: Option<Seq<char>>) -> Result<
    Seq<char>,
    ErrorModel,
> {
    match json_text(doc) {
        Ok(text) => Ok(text),
        Err(detail) => Err(ErrorModel::SerializeSchema { source, detail }),
    }
}

/// The model of a name that may be missing.
pub open spec fn optional_name(name: Option<&str>) -> Option<Seq<char>> {
    match name {
        Some(name) => Some(name@),
        None => None,
    }
}

/// Whether the proxy path is written: proxying is switched on, the service
/// has a name, and the proxy can be reached.
pub open spec fn proxy_mode(proxy_enabled: bool, named: bool, proxy_available: bool) -> bool {
    proxy_enabled && named && proxy_available
}

/// The name of a service that may have none.
pub open spec fn name_or_empty(name: Option<Seq<char>>) -> Seq<char> {
    match name {
        Some(name) => name,
        None => Seq::empty(),
    }
}

/// The result of the server injector on a schema text. An error names the
/// service where the service has a name.
pub open spec fn server_prepared(
    schema_json: Seq<char>,
    url: Seq<char>,
    source_name: Option<Seq<char>>,
    proxy_enabled: bool,
    proxy_available: bool,
) -> Result<Seq<char>, ErrorModel> {
    match read_schema(schema_json, source_name) {
        Ok(doc) => written_schema(
            add_servers(
                doc,
                url,
                name_or_empty(source_name),
                proxy_mode(proxy_enabled, source_name is Some, proxy_available),
            ),
            source_name,
        ),
        Err(e) => Err(e),
    }
}

/// The result of the tag namespacer on a schema text. An error names the
/// service.
pub open spec fn grouping_prepared(schema_json: Seq<char>, name: Seq<char>) -> Result<
    Seq<char>,
    ErrorModel,
> {
    match read_schema(schema_json, Some(name)) {
        Ok(doc) => written_schema(namespace_tags(doc, name), Some(name)),
        Err(e) => Err(e),
    }
}

/// The result of the metadata updater on a schema text.
pub open spec fn metadata_updated(
    schema_json: Seq<char>,
    title: Seq<char>,
    description: Seq<char>,
    version: Seq<char>,
) -> Result<Seq<char>, ErrorModel> {
    match read_schema(schema_json, None) {
        Ok(doc) => match with_metadata(doc, title, description, version) {
            Some(updated) => written_schema(updated, None),
            None => Err(ErrorModel::NotAnObject),
        },
        Err(e) => Err(e),
    }
}

/// The result of the validator on a schema text.
pub open spec fn validated(schema_json: Seq<char>) -> Result<bool, ErrorModel> {
    match json_parsed(schema_json) {
        Ok(doc) => Ok(is_valid_document(doc)),
        Err(_) => Err(ErrorModel::InvalidJson),
    }
}

/// The result of a lookup in a configuration text.
pub open spec fn config_looked_up(
    config_json: Seq<char>,
    path: Seq<char>,
    default_value: Seq<char>,
) -> Result<Seq<char>, ErrorModel> {
    match json_parsed(config_json) {
        Ok(config) => Ok(config_value(config, path, default_value)),
        Err(detail) => Err(ErrorModel::ParseConfig { detail }),
    }
}

/// Whether a merge takes in the document of a schema text: not where the
/// document is null. A text that cannot be read gives the error that names
/// the service.
pub open spec fn takes_part(schema_data: Seq<char>, name: Seq<char>) -> Result<bool, ErrorModel> {
    match read_schema(schema_data, Some(name)) {
        Ok(doc) => Ok(!(doc is Null)),
        Err(e) => Err(e),
    }
}

/// The sources that the schemas hold, or the error of the first schema
/// whose text cannot be read.
pub open spec fn read_sources(schemas: Seq<SchemaModel>) -> Result<Seq<SourceModel>, ErrorModel>
    decreases schemas.len(),
{
    if schemas.len() == 0 {
        Ok(Seq::empty())
    } else {
        match read_sources(schemas.drop_last()) {
            Ok(before) => match read_schema(
                schemas.last().schema_data,
                Some(schemas.last().name),
            ) {
                Ok(document) => Ok(
                    before.push(
                        SourceModel { name: schemas.last().name, url: schemas.last().url, document },
                    ),
                ),
                Err(e) => Err(e),
            },
            Err(e) => Err(e),
        }
    }
}

/// The result of merging schema texts: nothing where there is no schema,
/// else the text of the merged document.
pub open spec fn merged_text(schemas: Seq<SchemaModel>, grouping: bool, proxy: bool) -> Result<
    Option<Seq<char>>,
    ErrorModel,
> {
    if schemas.len() == 0 {
        Ok(None)
    } else {
        match read_sources(schemas) {
            Ok(sources) => match written_schema(merged(sources, grouping, proxy), None) {
                Ok(text) => Ok(Some(text)),
                Err(e) => Err(e),
            },
            Err(e) => Err(e),
        }
    }
}

/// The result of preparing one schema of a batch. An error names the
/// schema's service.
pub open spec fn batch_item(
    schema: SchemaModel,
    grouping: bool,
    proxy_enabled: bool,
    proxy_available: bool,
) -> Result<Seq<char>, ErrorModel> {
    match server_prepared(
        schema.schema_data,
        schema.url,
        Some(schema.name),
        proxy_enabled,
        proxy_available,
    ) {
        Ok(text) => if grouping {
            grouping_prepared(text, schema.name)
        } else {
            Ok(text)
        },
        Err(e) => Err(e),
    }
}

/// The result of preparing a batch: the prepared texts in order, or the
/// error of the first schema that fails.
pub open spec fn batch_prepared(
    schemas: Seq<SchemaModel>,
    grouping: bool,
    proxy_enabled: bool,
    proxy_available: bool,
) -> Result<Seq<Seq<char>>, ErrorModel>
    decreases schemas.len(),
{
    if schemas.len() == 0 {
        Ok(Seq::empty())
    } else {
        match batch_prepared(schemas.drop_last(), grouping, proxy_enabled, proxy_available) {
            Ok(before) => match batch_item(
                schemas.last(),
                grouping,
                proxy_enabled,
                proxy_available,
            ) {
                Ok(text) => Ok(before.push(text)),
                Err(e) => Err(e),
            },
            Err(e) => Err(e),
        }
    }
}

/// The model of a result that holds text.
pub open spec fn text_result(r: Result<String, MergeError>) -> Result<Seq<char>, ErrorModel> {
    match r {
        Ok(text) => Ok(text@),
        Err(e) => Err(e@),
    }
}

/// Reads a schema text; an error names the service where one is given.
pub fn read_schema_text(text: &str, source: Option<&str>) -> (r: Result<Node, MergeError>)
    ensures
        match r {
            Ok(doc) => read_schema(text@, optional_name(source)) == Ok::<Json, ErrorModel>(doc@)
                && doc.wf(),
            Err(e) => read_schema(text@, optional_name(source)) == Err::<Json, ErrorModel>(e@),
        },
{
    match parse_json(text) {
        Ok(doc) => Ok(doc),
        Err(detail) => Err(
            MergeError::ParseSchema {
                source: match source {
                    Some(name) => Some(name.to_owned()),
                    None => None,
                },
                detail,
            },
        ),
    }
}

/// Writes a document as schema text; an error names the service where one
/// is given.
pub fn write_schema_text(doc: &Node, source: Option<&str>) -> (r: Result<String, MergeError>)
    ensures
        text_result(r) == written_schema(doc@, optional_name(source)),
{
    match write_json(doc) {
        Ok(text) => Ok(text),
        Err(detail) => Err(
            MergeError::SerializeSchema {
                source: match source {
                    Some(name) => Some(name.to_owned()),
                    None => None,
                },
                detail,
            },
        ),
    }
}

/// Runs the server injector on a schema given as JSON text.
///
/// The proxy path is written where `proxy_enabled` and `proxy_available`
/// hold and the service has a name; else the service's own URL is. A text
/// that cannot be read, and a document that cannot be written, give an
/// error that names the service where it has a name.
pub fn prepare_server_for_schema_rust(
    schema_json: &str,
    url: &str,
    source_name: Option<&str>,
    proxy_enabled: bool,
    proxy_available: bool,
) -> (r: Result<String, MergeError>)
    ensures
        text_result(r) == server_prepared(
            schema_json@,
            url@,
            optional_name(source_name),
            proxy_enabled,
            proxy_available,
        ),
{
    match read_schema_text(schema_json, source_name) {
        Ok(doc) => {
            let updated = match source_name {
                Some(name) => add_servers_to_schema(
                    &doc,
                    url,
                    name,
                    proxy_enabled && proxy_available,
                ),
                None => add_servers_to_schema(&doc, url, "", false),
            };
            write_schema_text(&updated, source_name)
        },
        Err(e) => Err(e),
    }
}

/// Runs the tag namespacer on a schema given as JSON text. A text that
/// cannot be read, and a document that cannot be written, give an error
/// that names the service.
pub fn prepare_grouping_rust(schema_json: &str, name: &str) -> (r: Result<String, MergeError>)
    ensures
        text_result(r) == grouping_prepared(schema_json@, name@),
{
    match read_schema_text(schema_json, Some(name)) {
        Ok(doc) => {
            let mut doc = doc;
            add_service_prefix_to_tags(&mut doc, name);
            write_schema_text(&doc, Some(name))
        },
        Err(e) => Err(e),
    }
}

/// Runs the metadata updater on a schema given as JSON text.
pub fn update_schema_metadata_rust(
    schema_json: &str,
    title: &str,
    description: &str,
    version: &str,
) -> (r: Result<String, MergeError>)
    ensures
        text_result(r) == metadata_updated(schema_json@, title@, description@, version@),
{
    match read_schema_text(schema_json, None) {
        Ok(doc) => match update_schema_metadata(&doc, title, description, version) {
            Ok(updated) => write_schema_text(&updated, None),
            Err(e) => Err(e),
        },
        Err(e) => Err(e),
    }
}

/// Runs the validator on a schema given as JSON text. A text that is not
/// JSON is an error, not an invalid document.
pub fn validate_schema_rust(schema_json: &str) -> (r: Result<bool, MergeError>)
    ensures
        match r {
            Ok(valid) => validated(schema_json@) == Ok::<bool, ErrorModel>(valid),
            Err(e) => validated(schema_json@) == Err::<bool, ErrorModel>(e@),
        },
{
    match parse_json(schema_json) {
        Ok(doc) => Ok(validate_schema(&doc)),
        Err(_) => Err(MergeError::InvalidJson),
    }
}

/// Looks up a text value in a configuration given as JSON text.
pub fn get_config_value_rust(config_json: &str, path: &str, default_value: &str) -> (r: Result<
    String,
    MergeError,
>)
    ensures
        text_result(r) == config_looked_up(config_json@, path@, default_value@),
{
    match parse_json(config_json) {
        Ok(config) => Ok(get_config_value(&config, path, default_value)),
        Err(detail) => Err(MergeError::ParseConfig { detail }),
    }
}

/// Whether a merge takes in the document of a schema text. A merge skips a
/// null document, and reads nothing else of its source.
pub fn schema_takes_part(schema_data: &str, name: &str) -> (r: Result<bool, MergeError>)
    ensures
        match r {
            Ok(taken) => takes_part(schema_data@, name@) == Ok::<bool, ErrorModel>(taken),
            Err(e) => takes_part(schema_data@, name@) == Err::<bool, ErrorModel>(e@),
        },
{
    match read_schema_text(schema_data, Some(name)) {
        Ok(doc) => Ok(!doc.is_null()),
        Err(e) => Err(e),
    }
}

/// Reads the schemas of a merge, in order, up to the first that fails.
pub fn read_source_documents(schemas: &Vec<SchemaWithMetadata>) -> (r: Result<
    Vec<SourceDocument>,
    MergeError,
>)
    ensures
        match r {
            Ok(sources) => read_sources(schemas_view(schemas@)) == Ok::<
                Seq<SourceModel>,
                ErrorModel,
            >(sources_view(sources@)),
            Err(e) => read_sources(schemas_view(schemas@)) == Err::<Seq<SourceModel>, ErrorModel>(
                e@,
            ),
        },
{
    let ghost all = schemas_view(schemas@);
    let mut out: Vec<SourceDocument> = Vec::new();
    let mut i: usize = 0;
    assert(all.take(0) =~= Seq::empty());
    assert(sources_view(out@) =~= Seq::empty());
    while i < schemas.len()
        invariant
            i <= schemas.len(),
            out@.len() == i,
            all == schemas_view(schemas@),
            read_sources(all.take(i as int)) == Ok::<Seq<SourceModel>, ErrorModel>(
                sources_view(out@),
            ),
        decreases schemas.len() - i,
    {
        let ghost before = sources_view(out@);
        proof {
            assert(all.take(i + 1).drop_last() =~= all.take(i as int));
            assert(all.take(i + 1).last() == schemas@[i as int]@);
        }
        let schema = &schemas[i];
        match read_schema_text(schema.schema_data.as_str(), Some(schema.name.as_str())) {
            Ok(document) => {
                let source = SourceDocument {
                    name: schema.name.clone(),
                    url: schema.url.clone(),
                    document,
                };
                out.push(source);
                assert(sources_view(out@) =~= before.push(
                    SourceModel {
                        name: schema.name@,
                        url: schema.url@,
                        document: out@[i as int].document@,
                    },
                ));
            },
            Err(e) => {
                proof {
                    lemma_read_sources_fails(all, i as int);
                }
                return Err(e);
            },
        }
        i += 1;
    }
    assert(all.take(schemas.len() as int) =~= all);
    Ok(out)
}

/// Once a schema cannot be read, the whole list cannot, and the error is
/// that of the first schema that fails.
pub proof fn lemma_read_sources_fails(schemas: Seq<SchemaModel>, i: int)
    requires
        0 <= i < schemas.len(),
        read_sources(schemas.take(i)) is Ok,
        read_sources(schemas.take(i + 1)) is Err,
    ensures
        read_sources(schemas) == read_sources(schemas.take(i + 1)),
    decreases schemas.len(),
{
    if schemas.len() == i + 1 {
        assert(schemas.take(i + 1) =~= schemas);
    } else {
        let shorter = schemas.drop_last();
        assert(shorter.take(i) =~= schemas.take(i));
        assert(shorter.take(i + 1) =~= schemas.take(i + 1));
        lemma_read_sources_fails(shorter, i);
    }
}

/// Merges schemas given as JSON text.
///
/// With no schema the result holds no text. A schema whose text cannot be
/// read stops the merge with an error that names its service. Else the
/// documents are merged as `merge_documents` does, and the merged document
/// is written as text.
pub fn merge_schemas_sync(schemas: &Vec<SchemaWithMetadata>, grouping: bool, proxy: bool) -> (r:
    Result<MergedSchema, MergeError>)
    ensures
        match r {
            Ok(out) => {
                &&& merged_text(schemas_view(schemas@), grouping, proxy) == Ok::<
                    Option<Seq<char>>,
                    ErrorModel,
                >(
                    match out.merged_schema {
                        Some(text) => Some(text@),
                        None => None,
                    },
                )
                &&& read_sources(schemas_view(schemas@)) matches Ok(sources) && events_view(
                    out.events@,
                ) == merge_events(sources, grouping, proxy)
            },
            Err(e) => merged_text(schemas_view(schemas@), grouping, proxy) == Err::<
                Option<Seq<char>>,
                ErrorModel,
            >(e@),
        },
{
    if schemas.len() == 0 {
        let events: Vec<MergeEvent> = Vec::new();
        assert(events_view(events@) =~= Seq::empty());
        return Ok(MergedSchema { merged_schema: None, events });
    }
    match read_source_documents(schemas) {
        Ok(sources) => {
            assert(sources_view(sources@).len() == sources.len());
            proof {
                lemma_read_sources_len(schemas_view(schemas@));
            }
            let report = merge_documents(&sources, grouping, proxy);
            match write_schema_text(&report.document, None) {
                Ok(text) => Ok(MergedSchema { merged_schema: Some(text), events: report.events }),
                Err(e) => Err(e),
            }
        },
        Err(e) => Err(e),
    }
}

/// There are as many sources as schemas where all schemas can be read.
pub proof fn lemma_read_sources_len(schemas: Seq<SchemaModel>)
    ensures
        read_sources(schemas) matches Ok(sources) ==> sources.len() == schemas.len(),
    decreases schemas.len(),
{
    if schemas.len() > 0 {
        lemma_read_sources_len(schemas.drop_last());
    }
}

/// Once a schema of a batch fails, the whole batch does, with the error of
/// the first schema that fails.
pub proof fn lemma_batch_fails(
    schemas: Seq<SchemaModel>,
    grouping: bool,
    proxy_enabled: bool,
    proxy_available: bool,
    i: int,
)
    requires
        0 <= i < schemas.len(),
        batch_prepared(schemas.take(i), grouping, proxy_enabled, proxy_available) is Ok,
        batch_prepared(schemas.take(i + 1), grouping, proxy_enabled, proxy_available) is Err,
    ensures
        batch_prepared(schemas, grouping, proxy_enabled, proxy_available) == batch_prepared(
            schemas.take(i + 1),
            grouping,
            proxy_enabled,
            proxy_available,
        ),
    decreases schemas.len(),
{
    if schemas.len() == i + 1 {
        assert(schemas.take(i + 1) =~= schemas);
    } else {
        let shorter = schemas.drop_last();
        assert(shorter.take(i) =~= schemas.take(i));
        assert(shorter.take(i + 1) =~= schemas.take(i + 1));
        lemma_batch_fails(shorter, grouping, proxy_enabled, proxy_available, i);
    }
}

/// Prepares each schema of a batch for a merge: runs the server injector
/// on its text and, under grouping, the tag namespacer on the result. The
/// first schema that fails stops the batch: no list comes back, and the
/// error names the service of that schema.
pub fn process_schemas_batch_rust(
    schemas_data: &Vec<SchemaWithMetadata>,
    grouping: bool,
    proxy_enabled: bool,
    proxy_available: bool,
) -> (r: Result<Vec<String>, MergeError>)
    ensures
        match r {
            Ok(texts) => batch_prepared(
                schemas_view(schemas_data@),
                grouping,
                proxy_enabled,
                proxy_available,
            ) == Ok::<Seq<Seq<char>>, ErrorModel>(outputs_view(texts@)),
            Err(e) => batch_prepared(
                schemas_view(schemas_data@),
                grouping,
                proxy_enabled,
                proxy_available,
            ) == Err::<Seq<Seq<char>>, ErrorModel>(e@),
        },
{
    let ghost all = schemas_view(schemas_data@);
    let mut out: Vec<String> = Vec::new();
    let mut i: usize = 0;
    assert(all.take(0) =~= Seq::empty());
    assert(outputs_view(out@) =~= Seq::empty());
    while i < schemas_data.len()
        invariant
            i <= schemas_data.len(),
            out@.len() == i,
            all == schemas_view(schemas_data@),
            batch_prepared(all.take(i as int), grouping, proxy_enabled, proxy_available) == Ok::<
                Seq<Seq<char>>,
                ErrorModel,
            >(outputs_view(out@)),
        decreases schemas_data.len() - i,
    {
        let ghost before = outputs_view(out@);
        proof {
            assert(all.take(i + 1).drop_last() =~= all.take(i as int));
            assert(all.take(i + 1).last() == schemas_data@[i as int]@);
        }
        let schema = &schemas_data[i];
        let name = schema.name.as_str();
        let with_servers = prepare_server_for_schema_rust(
            schema.schema_data.as_str(),
            schema.url.as_str(),
            Some(name),
            proxy_enabled,
            proxy_available,
        );
        let prepared = match with_servers {
            Ok(text) => if grouping {
                prepare_grouping_rust(text.as_str(), name)
            } else {
                Ok(text)
            },
            Err(e) => Err(e),
        };
        match prepared {
            Ok(text) => {
                out.push(text);
                assert(outputs_view(out@) =~= before.push(out@[i as int]@));
            },
            Err(e) => {
                proof {
                    lemma_batch_fails(all, grouping, proxy_enabled, proxy_available, i as int);
                }
                return Err(e);
            },
        }
        i += 1;
    }
    assert(all.take(schemas_data.len() as int) =~= all);
    Ok(out)
}

} // verus!
