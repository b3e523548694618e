//! Merging of OpenAPI documents that come from independent services into one
//! document: name sanitising, server injection, tag namespacing, structural
//! validation, the merge fold itself, and the rewriting of the `info` block.

pub mod api;
pub mod codec;
pub mod config;
pub mod decode;
pub mod error;
pub mod ingest;
pub mod invariants;
pub mod merge;
pub mod metadata;
pub mod model;
pub mod node;
pub mod operations;
pub mod sanitize;
pub mod servers;
pub mod sources;
pub mod tags;
pub mod text;
pub mod theorems;
pub mod validate;

pub use crate::api::{
    get_config_value_rust, merge_schemas_sync, prepare_grouping_rust,
    prepare_server_for_schema_rust, process_schemas_batch_rust, update_schema_metadata_rust,
    validate_schema_rust, MergedSchema, SchemaWithMetadata,
};
pub use crate::decode::decode_schema;
pub use crate::error::MergeError;
pub use crate::ingest::{merge_sources, SourceInput};
pub use crate::merge::{merge_documents, MergeEvent, MergeReport, Section, SourceDocument};
pub use crate::metadata::update_schema_metadata;
pub use crate::node::Node;
pub use crate::sanitize::safe_name;
pub use crate::servers::add_servers_to_schema;
pub use crate::sources::{
    generate_uuid_short, select_sources, FetchFailure, Fetched, FetchedSchema, RawSource, Source,
};
pub use crate::tags::add_service_prefix_to_tags;
pub use crate::validate::validate_schema;
