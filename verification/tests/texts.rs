use openapi_merge::config::{get_config_value, split_at_slashes};
use openapi_merge::decode::{choose_decoder, contains, decode_with, Decoder};
use openapi_merge::{
    decode_schema, generate_uuid_short, get_config_value_rust, merge_schemas_sync,
    prepare_grouping_rust, prepare_server_for_schema_rust, process_schemas_batch_rust,
    select_sources, update_schema_metadata_rust, validate_schema_rust, FetchFailure, Fetched,
    FetchedSchema, MergeError, MergeEvent, Node, RawSource, SchemaWithMetadata, Source,
};

fn schema(name: &str, data: &str) -> SchemaWithMetadata {
    SchemaWithMetadata {
        name: name.to_string(),
        url: format!("http://{}", name),
        schema_data: data.to_string(),
    }
}

#[test]
fn server_is_added_to_schema_text() {
    let out = prepare_server_for_schema_rust(
        r#"{"paths": {"/a": {"get": {"operationId": "x", "weight": 1.5}}}}"#,
        "http://svc1",
        Some("svc1"),
        false,
        false,
    );
    assert_eq!(
        out,
        Ok(r#"{"paths":{"/a":{"get":{"operationId":"x","servers":[{"url":"http://svc1"}],"weight":1.5}}}}"#
            .to_string())
    );
}

#[test]
fn proxy_needs_switch_name_and_reachability() {
    let doc = r#"{"paths":{"/a":{"get":{}}}}"#;
    let direct = r#"{"paths":{"/a":{"get":{"servers":[{"url":"http://svc1"}]}}}}"#;
    let proxied = r#"{"paths":{"/a":{"get":{"servers":[{"description":"Proxied to http://svc1","url":"/proxy/svc_1"}]}}}}"#;
    assert_eq!(
        prepare_server_for_schema_rust(doc, "http://svc1", Some("Svc 1"), true, true),
        Ok(proxied.to_string())
    );
    assert_eq!(
        prepare_server_for_schema_rust(doc, "http://svc1", Some("Svc 1"), true, false),
        Ok(direct.to_string())
    );
    assert_eq!(
        prepare_server_for_schema_rust(doc, "http://svc1", Some("Svc 1"), false, true),
        Ok(direct.to_string())
    );
    assert_eq!(
        prepare_server_for_schema_rust(doc, "http://svc1", None, true, true),
        Ok(direct.to_string())
    );
}

#[test]
fn server_injection_on_text_is_idempotent() {
    let doc = r#"{"paths":{"/a":{"get":{}}}}"#;
    let once = prepare_server_for_schema_rust(doc, "http://svc1", Some("svc1"), false, false).unwrap();
    let twice = prepare_server_for_schema_rust(&once, "http://svc1", Some("svc1"), false, false).unwrap();
    assert_eq!(once, twice);
}

#[test]
fn unreadable_schema_text_is_a_parse_error() {
    let out = prepare_server_for_schema_rust("{not json", "http://svc1", Some("svc1"), false, false);
    match out {
        Err(MergeError::ParseSchema { source, detail }) => {
            assert_eq!(source, Some("svc1".to_string()));
            assert!(!detail.is_empty());
            let e = MergeError::ParseSchema { source, detail: detail.clone() };
            assert_eq!(e.message(), format!("Failed to parse schema of svc1: {}", detail));
        }
        other => panic!("unexpected: {:?}", other),
    }
    let out = prepare_server_for_schema_rust("{not json", "http://svc1", None, false, false);
    match out {
        Err(MergeError::ParseSchema { source: None, detail }) => {
            assert!(!detail.is_empty());
            let e = MergeError::ParseSchema { source: None, detail: detail.clone() };
            assert_eq!(e.message(), format!("Failed to parse schema: {}", detail));
        }
        other => panic!("unexpected: {:?}", other),
    }
    match prepare_grouping_rust("[1,", "svc1") {
        Err(MergeError::ParseSchema { source, .. }) => assert_eq!(source, Some("svc1".to_string())),
        other => panic!("unexpected: {:?}", other),
    }
    assert!(matches!(
        update_schema_metadata_rust("", "t", "d", "v"),
        Err(MergeError::ParseSchema { source: None, .. })
    ));
}

#[test]
fn grouping_on_schema_text() {
    let out = prepare_grouping_rust(
        r#"{"tags":[{"name":"Users"}],"paths":{"/u":{"get":{"tags":["admin",7]}}}}"#,
        "svc1",
    );
    assert_eq!(
        out,
        Ok(r#"{"paths":{"/u":{"get":{"tags":["svc1 | admin",7]}}},"tags":[{"name":"svc1 | Users"}]}"#
            .to_string())
    );
}

#[test]
fn metadata_on_schema_text() {
    assert_eq!(
        update_schema_metadata_rust("{}", "T", "D", "1"),
        Ok(r#"{"info":{"description":"D","title":"T","version":"1"},"openapi":"3.1.0"}"#.to_string())
    );
    assert_eq!(
        update_schema_metadata_rust("null", "T", "D", "1"),
        Ok(r#"{"info":{"description":"D","title":"T","version":"1"},"openapi":"3.1.0"}"#.to_string())
    );
    assert_eq!(update_schema_metadata_rust("[]", "T", "D", "1"), Err(MergeError::NotAnObject));
}

#[test]
fn validation_of_schema_text() {
    assert_eq!(
        validate_schema_rust(r#"{"openapi":"3.0.0","info":{"title":"X","version":"1"},"paths":{}}"#),
        Ok(true)
    );
    assert_eq!(
        validate_schema_rust(r#"{"openapi":"3.0.0","info":{"title":"X","version":"1"}}"#),
        Ok(false)
    );
    assert_eq!(validate_schema_rust("[]"), Ok(false));
    assert_eq!(validate_schema_rust("{"), Err(MergeError::InvalidJson));
    assert_eq!(MergeError::InvalidJson.message(), "Invalid JSON format");
}

#[test]
fn config_lookup_by_path() {
    let config = r#"{"settings":{"title":"Gateway","port":8080,"nested":{"deep":"yes"}},"name":"x"}"#;
    assert_eq!(get_config_value_rust(config, "settings/title", "none"), Ok("Gateway".to_string()));
    assert_eq!(get_config_value_rust(config, "settings/nested/deep", "none"), Ok("yes".to_string()));
    assert_eq!(get_config_value_rust(config, "name", "none"), Ok("x".to_string()));
    assert_eq!(get_config_value_rust(config, "settings/port", "none"), Ok("none".to_string()));
    assert_eq!(get_config_value_rust(config, "settings/missing", "none"), Ok("none".to_string()));
    assert_eq!(get_config_value_rust(config, "name/deeper", "none"), Ok("none".to_string()));
    assert_eq!(get_config_value_rust(config, "settings//title", "none"), Ok("none".to_string()));
    assert_eq!(get_config_value_rust(config, "", "none"), Ok("none".to_string()));
    assert_eq!(get_config_value_rust(r#"{"":"empty key"}"#, "", "none"), Ok("empty key".to_string()));
    match get_config_value_rust("nope", "a", "d") {
        Err(MergeError::ParseConfig { detail }) => {
            let e = MergeError::ParseConfig { detail: detail.clone() };
            assert_eq!(e.message(), format!("Failed to parse config: {}", detail));
        }
        other => panic!("unexpected: {:?}", other),
    }
}

#[test]
fn first_characters_of_a_text() {
    assert_eq!(openapi_merge::text::first_chars("abcdef", 3), "abc");
    assert_eq!(openapi_merge::text::first_chars("ab", 3), "ab");
    assert_eq!(openapi_merge::text::first_chars("äöü", 2), "äö");
    assert_eq!(openapi_merge::text::join3("a", "-", "b"), "a-b");
    assert_eq!(openapi_merge::text::chars_of("añ"), vec!['a', 'ñ']);
    assert!(openapi_merge::text::same_text("añ", "añ"));
    assert!(!openapi_merge::text::same_text("añ", "an"));
    assert!(!openapi_merge::text::same_text("a", "ab"));
    assert!(openapi_merge::text::same_text("", ""));
}

#[test]
fn path_is_split_at_each_slash() {
    assert_eq!(split_at_slashes("a/b"), vec!["a", "b"]);
    assert_eq!(split_at_slashes(""), vec![""]);
    assert_eq!(split_at_slashes("/a/"), vec!["", "a", ""]);
    assert_eq!(split_at_slashes("settings"), vec!["settings"]);
    let config = Node::Object(vec![("a".to_string(), Node::Text("v".to_string()))]);
    assert_eq!(get_config_value(&config, "a", "d"), "v");
    assert_eq!(get_config_value(&config, "b", "d"), "d");
}

#[test]
fn schema_texts_are_merged() {
    let a = schema("svc1", r#"{"paths":{"/users":{"get":{}}},"components":{"schemas":{"User":{}}}}"#);
    let b = schema("svc2", r#"{"paths":{"/users":{"get":{}}},"components":{"schemas":{"User":{}}}}"#);
    let out = merge_schemas_sync(&vec![a, b], false, false).unwrap();
    assert_eq!(
        out.merged_schema,
        Some(
            concat_all(&[
                r#"{"components":{"schemas":{"User":{},"User_svc2":{}}},"#,
                r#""info":{"description":"","title":"Merged API","version":"1.0.0"},"#,
                r#""paths":{"/users":{"get":{"servers":[{"url":"http://svc1"}]}},"#,
                r#""/users_svc2":{"get":{"servers":[{"url":"http://svc2"}]}}}}"#,
            ])
        )
    );
    assert!(out.events.is_empty());
}

fn concat_all(parts: &[&str]) -> String {
    parts.iter().map(|p| p.to_string()).collect::<Vec<String>>().join("")
}

#[test]
fn merge_of_no_schema_text_holds_nothing() {
    let out = merge_schemas_sync(&vec![], true, false).unwrap();
    assert_eq!(out.merged_schema, None);
    assert!(out.events.is_empty());
}

#[test]
fn merge_skips_null_schema_text() {
    let out = merge_schemas_sync(&vec![schema("gone", "null"), schema("svc1", "{}")], true, false).unwrap();
    assert_eq!(out.events, vec![MergeEvent::SkippedSource { name: "gone".to_string() }]);
    assert_eq!(
        out.merged_schema,
        Some(
            r#"{"components":{"schemas":{}},"info":{"description":"","title":"Merged API","version":"1.0.0"},"paths":{},"tags":[]}"#
                .to_string()
        )
    );
}

#[test]
fn merge_names_the_source_of_an_unreadable_schema() {
    let out = merge_schemas_sync(&vec![schema("ok", "{}"), schema("bad", "{"), schema("worse", "[")], false, false);
    match out {
        Err(MergeError::ParseSchema { source, detail }) => {
            assert_eq!(source, Some("bad".to_string()));
            assert!(!detail.is_empty());
            let e = MergeError::ParseSchema { source, detail: detail.clone() };
            assert_eq!(e.message(), format!("Failed to parse schema of bad: {}", detail));
        }
        other => panic!("unexpected: {:?}", other),
    }
}

#[test]
fn null_schema_text_takes_no_part() {
    assert_eq!(openapi_merge::api::schema_takes_part("null", "svc1"), Ok(false));
    assert_eq!(openapi_merge::api::schema_takes_part(" {} ", "svc1"), Ok(true));
    assert_eq!(openapi_merge::api::schema_takes_part("[]", "svc1"), Ok(true));
    match openapi_merge::api::schema_takes_part("{", "svc1") {
        Err(MergeError::ParseSchema { source, .. }) => assert_eq!(source, Some("svc1".to_string())),
        other => panic!("unexpected: {:?}", other),
    }
}

#[test]
fn failed_fetch_is_kept_and_the_others_go_on() {
    let source = |name: &str| Source {
        name: name.to_string(),
        schema: format!("http://{}/openapi.json", name),
        url: format!("http://{}", name),
        enabled: true,
    };
    let mut fetched = Fetched::new();
    assert!(fetched.schemas.is_empty() && fetched.failures.is_empty());
    fetched.record(&source("a"), Ok("{}".to_string()));
    fetched.record(&source("b"), Err("timed out".to_string()));
    fetched.record(&source("c"), Ok("[]".to_string()));
    fetched.record(&source("d"), Err("refused".to_string()));
    assert_eq!(
        fetched.schemas,
        vec![
            FetchedSchema { source: source("a"), schema_data: "{}".to_string() },
            FetchedSchema { source: source("c"), schema_data: "[]".to_string() },
        ]
    );
    assert_eq!(
        fetched.failures,
        vec![
            FetchFailure { source: source("b"), message: "timed out".to_string() },
            FetchFailure { source: source("d"), message: "refused".to_string() },
        ]
    );
}

#[test]
fn number_that_is_no_number_cannot_be_written() {
    let doc = Node::Object(vec![("n".to_string(), Node::Number("abc".to_string()))]);
    match openapi_merge::api::write_schema_text(&doc, None) {
        Err(MergeError::SerializeSchema { source: None, detail }) => {
            let e = MergeError::SerializeSchema { source: None, detail: detail.clone() };
            assert_eq!(e.message(), format!("Failed to serialize schema: {}", detail));
        }
        other => panic!("unexpected: {:?}", other),
    }
    match openapi_merge::api::write_schema_text(&doc, Some("svc1")) {
        Err(MergeError::SerializeSchema { source, detail }) => {
            assert_eq!(source, Some("svc1".to_string()));
            let e = MergeError::SerializeSchema { source, detail: detail.clone() };
            assert_eq!(e.message(), format!("Failed to serialize schema of svc1: {}", detail));
        }
        other => panic!("unexpected: {:?}", other),
    }
    let fine = Node::Object(vec![
        ("b".to_string(), Node::Number("-12".to_string())),
        ("a".to_string(), Node::Array(vec![Node::Null, Node::Bool(true), Node::Number("2.5".to_string())])),
    ]);
    assert_eq!(
        openapi_merge::api::write_schema_text(&fine, Some("svc1")),
        Ok(r#"{"a":[null,true,2.5],"b":-12}"#.to_string())
    );
}

#[test]
fn parsed_document_has_the_members_of_the_text() {
    let doc = openapi_merge::codec::parse_json(r#"{"b": [1, "x", null, true, -2.5e3], "a": {}}"#).unwrap();
    let expected = Node::Object(vec![
        ("a".to_string(), Node::Object(vec![])),
        (
            "b".to_string(),
            Node::Array(vec![
                Node::Number("1".to_string()),
                Node::Text("x".to_string()),
                Node::Null,
                Node::Bool(true),
                Node::Number("-2500.0".to_string()),
            ]),
        ),
    ]);
    assert_eq!(doc, expected);
}

#[test]
fn batch_prepares_each_schema() {
    let a = schema("svc1", r#"{"tags":[{"name":"A"}],"paths":{"/a":{"get":{"tags":["t"]}}}}"#);
    let out = process_schemas_batch_rust(&vec![a], true, false, false).unwrap();
    assert_eq!(
        out,
        vec![
            r#"{"paths":{"/a":{"get":{"servers":[{"url":"http://svc1"}],"tags":["svc1 | t"]}}},"tags":[{"name":"svc1 | A"}]}"#
                .to_string()
        ]
    );
    let a = schema("svc1", r#"{"tags":[{"name":"A"}],"paths":{"/a":{"get":{"tags":["t"]}}}}"#);
    let out = process_schemas_batch_rust(&vec![a], false, false, false).unwrap();
    assert_eq!(
        out,
        vec![
            r#"{"paths":{"/a":{"get":{"servers":[{"url":"http://svc1"}],"tags":["t"]}}},"tags":[{"name":"A"}]}"#
                .to_string()
        ]
    );
    assert_eq!(process_schemas_batch_rust(&vec![], true, true, true), Ok(vec![]));
    match process_schemas_batch_rust(
        &vec![schema("svc1", "{}"), schema("bad", "oops"), schema("worse", "[")],
        true,
        false,
        false,
    ) {
        Err(MergeError::ParseSchema { source, detail }) => {
            assert_eq!(source, Some("bad".to_string()));
            assert!(!detail.is_empty());
        }
        other => panic!("unexpected: {:?}", other),
    }
}

#[test]
fn generated_name_is_the_start_of_a_uuid() {
    let id = generate_uuid_short();
    assert_eq!(id.chars().count(), 10);
    for (i, c) in id.chars().enumerate() {
        if i == 8 {
            assert_eq!(c, '-');
        } else {
            assert!(c.is_ascii_digit() || ('a'..='f').contains(&c));
        }
    }
    assert_ne!(generate_uuid_short(), generate_uuid_short());
}

#[test]
fn sources_are_selected_and_completed() {
    let raws = vec![
        RawSource {
            name: Some("a".to_string()),
            schema: Some("http://a/openapi.json".to_string()),
            url: Some("http://a".to_string()),
            enabled: None,
        },
        RawSource { name: Some("b".to_string()), schema: None, url: None, enabled: Some(true) },
        RawSource {
            name: Some("c".to_string()),
            schema: Some("http://c/openapi.json".to_string()),
            url: None,
            enabled: Some(false),
        },
        RawSource { name: None, schema: Some("http://d/openapi.yaml".to_string()), url: None, enabled: Some(true) },
    ];
    let picked = select_sources(&raws, true);
    assert_eq!(picked.len(), 2);
    assert_eq!(
        picked[0],
        Source {
            name: "a".to_string(),
            schema: "http://a/openapi.json".to_string(),
            url: "http://a".to_string(),
            enabled: true,
        }
    );
    assert_eq!(picked[1].name.chars().count(), 10);
    assert_eq!(picked[1].schema, "http://d/openapi.yaml");
    assert_eq!(picked[1].url, "http://localhost");
    assert!(picked[1].enabled);
    let picked = select_sources(&raws, false);
    assert_eq!(picked.len(), 1);
    assert_eq!(picked[0].schema, "http://d/openapi.yaml");
}

#[test]
fn decoder_is_chosen_by_content_type() {
    assert_eq!(choose_decoder("application/json"), Decoder::JsonThenYaml);
    assert_eq!(choose_decoder("application/vnd.oai.openapi"), Decoder::JsonThenYaml);
    assert_eq!(choose_decoder("application/vnd.oai.openapi+yaml"), Decoder::JsonThenYaml);
    assert_eq!(choose_decoder("application/yaml"), Decoder::Yaml);
    assert_eq!(choose_decoder("text/x-yml"), Decoder::Yaml);
    assert_eq!(choose_decoder("text/plain"), Decoder::JsonThenYaml);
    assert_eq!(choose_decoder(""), Decoder::JsonThenYaml);
    assert!(contains("abc", ""));
    assert!(contains("abc", "bc"));
    assert!(contains("abc", "abc"));
    assert!(!contains("abc", "abcd"));
    assert!(!contains("abc", "ac"));
    assert!(contains("", ""));
}

#[test]
fn answers_are_decoded_by_content_type() {
    assert_eq!(decode_schema("Application/JSON", r#"{"b": 1, "a": "x"}"#), Ok(r#"{"a":"x","b":1}"#.to_string()));
    assert_eq!(decode_schema("application/json", "a: 1\nb: [x, y]\n"), Ok(r#"{"a":1,"b":["x","y"]}"#.to_string()));
    assert_eq!(decode_schema("text/YAML", "a: 1\n"), Ok(r#"{"a":1}"#.to_string()));
    assert_eq!(decode_schema("", "{\"a\": 1}"), Ok(r#"{"a":1}"#.to_string()));
    assert!(decode_schema("application/yaml", "a: [1").is_err());
    assert!(decode_schema("application/json", "a: [1").is_err());
    let escaped = r#"{"a":"\ud83d\ude00"}"#;
    assert_eq!(decode_schema("text/plain", escaped), Ok("{\"a\":\"\u{1F600}\"}".to_string()));
    assert!(decode_schema("TEXT/YAML", escaped).is_err());
    assert_eq!(
        decode_with(Decoder::Yaml, "k: v"),
        Ok(Node::Object(vec![("k".to_string(), Node::Text("v".to_string()))]))
    );
}
