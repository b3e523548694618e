use openapi_merge::{
    add_service_prefix_to_tags, add_servers_to_schema, safe_name, update_schema_metadata,
    validate_schema, MergeError, Node,
};

fn text(s: &str) -> Node {
    Node::Text(s.to_string())
}

fn obj(members: Vec<(&str, Node)>) -> Node {
    Node::Object(members.into_iter().map(|(k, v)| (k.to_string(), v)).collect())
}

fn arr(items: Vec<Node>) -> Node {
    Node::Array(items)
}

fn one_operation(op: Node) -> Node {
    obj(vec![("paths", obj(vec![("/users", obj(vec![("get", op)]))]))])
}

#[test]
fn safe_name_replaces_and_lowers() {
    assert_eq!(safe_name("My Service! 2.0"), "my_service_2_0");
}

#[test]
fn safe_name_of_underscores_is_empty() {
    assert_eq!(safe_name("___"), "");
}

#[test]
fn safe_name_of_empty_is_empty() {
    assert_eq!(safe_name(""), "");
}

#[test]
fn safe_name_keeps_hyphens_and_digits() {
    assert_eq!(safe_name("Api-V2_Core"), "api-v2_core");
}

#[test]
fn safe_name_collapses_runs_and_trims() {
    assert_eq!(safe_name("  __a  b__  "), "a_b");
    assert_eq!(safe_name("ünïcode"), "n_code");
    assert_eq!(safe_name("a___b"), "a_b");
}

#[test]
fn server_is_added_to_operation_without_servers() {
    let doc = one_operation(obj(vec![("summary", text("list"))]));
    let out = add_servers_to_schema(&doc, "http://svc1", "svc1", false);
    let expected = one_operation(obj(vec![
        ("summary", text("list")),
        ("servers", arr(vec![obj(vec![("url", text("http://svc1"))])])),
    ]));
    assert_eq!(out, expected);
}

#[test]
fn server_is_appended_to_existing_servers() {
    let doc = one_operation(obj(vec![(
        "servers",
        arr(vec![obj(vec![("url", text("http://other"))])]),
    )]));
    let out = add_servers_to_schema(&doc, "http://svc1", "svc1", false);
    let expected = one_operation(obj(vec![(
        "servers",
        arr(vec![
            obj(vec![("url", text("http://other"))]),
            obj(vec![("url", text("http://svc1"))]),
        ]),
    )]));
    assert_eq!(out, expected);
}

#[test]
fn server_injection_is_idempotent_in_direct_mode() {
    let doc = one_operation(obj(vec![]));
    let once = add_servers_to_schema(&doc, "http://svc1", "svc1", false);
    let twice = add_servers_to_schema(&once, "http://svc1", "svc1", false);
    assert_eq!(once, twice);
}

#[test]
fn proxy_entry_has_path_and_description() {
    let doc = one_operation(obj(vec![]));
    let out = add_servers_to_schema(&doc, "http://svc1", "My Service! 2.0", true);
    let expected = one_operation(obj(vec![(
        "servers",
        arr(vec![obj(vec![
            ("url", text("/proxy/my_service_2_0")),
            ("description", text("Proxied to http://svc1")),
        ])]),
    )]));
    assert_eq!(out, expected);
}

#[test]
fn proxy_mode_after_direct_mode_adds_no_raw_url_entry() {
    let doc = one_operation(obj(vec![]));
    let direct = add_servers_to_schema(&doc, "http://svc1", "svc1", false);
    let again = add_servers_to_schema(&direct, "http://svc1", "svc1", true);
    assert_eq!(direct, again);
    let proxied = add_servers_to_schema(&doc, "http://svc1", "svc1", true);
    let proxied_twice = add_servers_to_schema(&proxied, "http://svc1", "svc1", true);
    let entry = obj(vec![
        ("url", text("/proxy/svc1")),
        ("description", text("Proxied to http://svc1")),
    ]);
    let expected = one_operation(obj(vec![(
        "servers",
        arr(vec![
            obj(vec![
                ("url", text("/proxy/svc1")),
                ("description", text("Proxied to http://svc1")),
            ]),
            entry,
        ]),
    )]));
    assert_eq!(proxied_twice, expected);
}

#[test]
fn server_walk_skips_what_is_not_an_object() {
    let doc = obj(vec![(
        "paths",
        obj(vec![
            ("/a", text("not an item")),
            ("/b", obj(vec![("get", arr(vec![])), ("post", obj(vec![("servers", text("x"))]))])),
        ]),
    )]);
    let out = add_servers_to_schema(&doc, "http://svc1", "svc1", false);
    assert_eq!(out, doc);
    let no_paths = obj(vec![("paths", arr(vec![]))]);
    assert_eq!(add_servers_to_schema(&no_paths, "u", "n", false), no_paths);
    assert_eq!(add_servers_to_schema(&Node::Null, "u", "n", false), Node::Null);
}

#[test]
fn tags_are_namespaced() {
    let mut doc = obj(vec![
        (
            "tags",
            arr(vec![
                obj(vec![("name", text("Users")), ("description", text("people"))]),
                obj(vec![("description", text("no name"))]),
                obj(vec![("name", Node::Number("3".to_string()))]),
                text("loose"),
            ]),
        ),
        (
            "paths",
            obj(vec![(
                "/users",
                obj(vec![(
                    "get",
                    obj(vec![("tags", arr(vec![text("admin"), Node::Bool(true)]))]),
                )]),
            )]),
        ),
    ]);
    add_service_prefix_to_tags(&mut doc, "svc1");
    let expected = obj(vec![
        (
            "tags",
            arr(vec![
                obj(vec![("name", text("svc1 | Users")), ("description", text("people"))]),
                obj(vec![("description", text("no name"))]),
                obj(vec![("name", Node::Number("3".to_string()))]),
                text("loose"),
            ]),
        ),
        (
            "paths",
            obj(vec![(
                "/users",
                obj(vec![(
                    "get",
                    obj(vec![("tags", arr(vec![text("svc1 | admin"), Node::Bool(true)]))]),
                )]),
            )]),
        ),
    ]);
    assert_eq!(doc, expected);
}

#[test]
fn validator_accepts_minimal_document() {
    let doc = obj(vec![
        ("openapi", text("3.0.0")),
        ("info", obj(vec![("title", text("X")), ("version", text("1"))])),
        ("paths", obj(vec![])),
    ]);
    assert!(validate_schema(&doc));
}

#[test]
fn validator_accepts_swagger_marker() {
    let doc = obj(vec![
        ("swagger", text("2.0")),
        ("info", obj(vec![("title", text("X")), ("version", text("1"))])),
        ("paths", obj(vec![])),
    ]);
    assert!(validate_schema(&doc));
}

#[test]
fn validator_rejects_missing_paths() {
    let doc = obj(vec![
        ("openapi", text("3.0.0")),
        ("info", obj(vec![("title", text("X")), ("version", text("1"))])),
    ]);
    assert!(!validate_schema(&doc));
}

#[test]
fn validator_rejects_each_violation() {
    let info = || obj(vec![("title", text("X")), ("version", text("1"))]);
    assert!(!validate_schema(&arr(vec![])));
    assert!(!validate_schema(&Node::Null));
    assert!(!validate_schema(&obj(vec![("info", info()), ("paths", obj(vec![]))])));
    assert!(!validate_schema(&obj(vec![("openapi", text("3.0.0")), ("paths", obj(vec![]))])));
    assert!(!validate_schema(&obj(vec![
        ("openapi", text("3.0.0")),
        ("info", text("X")),
        ("paths", obj(vec![])),
    ])));
    assert!(!validate_schema(&obj(vec![
        ("openapi", text("3.0.0")),
        ("info", obj(vec![("title", text("X"))])),
        ("paths", obj(vec![])),
    ])));
    assert!(!validate_schema(&obj(vec![
        ("openapi", text("3.0.0")),
        ("info", obj(vec![("version", text("1"))])),
        ("paths", obj(vec![])),
    ])));
    assert!(!validate_schema(&obj(vec![
        ("openapi", text("3.0.0")),
        ("info", info()),
        ("paths", arr(vec![])),
    ])));
}

#[test]
fn metadata_on_empty_document() {
    let out = update_schema_metadata(&obj(vec![]), "T", "D", "9").unwrap();
    let expected = obj(vec![
        ("info", obj(vec![("title", text("T")), ("description", text("D")), ("version", text("9"))])),
        ("openapi", text("3.1.0")),
    ]);
    assert_eq!(out, expected);
}

#[test]
fn metadata_on_null_document() {
    let out = update_schema_metadata(&Node::Null, "T", "D", "9").unwrap();
    let expected = obj(vec![
        ("info", obj(vec![("title", text("T")), ("description", text("D")), ("version", text("9"))])),
        ("openapi", text("3.1.0")),
    ]);
    assert_eq!(out, expected);
}

#[test]
fn metadata_overwrites_and_keeps_other_fields() {
    let doc = obj(vec![
        ("openapi", text("3.0.0")),
        ("info", obj(vec![("version", text("1")), ("contact", text("me")), ("title", text("Old"))])),
        ("paths", obj(vec![])),
    ]);
    let out = update_schema_metadata(&doc, "New", "", "2").unwrap();
    let expected = obj(vec![
        ("openapi", text("3.1.0")),
        (
            "info",
            obj(vec![
                ("version", text("2")),
                ("contact", text("me")),
                ("title", text("New")),
                ("description", text("")),
            ]),
        ),
        ("paths", obj(vec![])),
    ]);
    assert_eq!(out, expected);
}

#[test]
fn metadata_replaces_info_that_is_no_object() {
    let doc = obj(vec![("info", text("x"))]);
    let out = update_schema_metadata(&doc, "T", "D", "9").unwrap();
    let expected = obj(vec![
        ("info", obj(vec![("title", text("T")), ("description", text("D")), ("version", text("9"))])),
        ("openapi", text("3.1.0")),
    ]);
    assert_eq!(out, expected);
}

#[test]
fn metadata_rejects_what_is_no_object() {
    assert_eq!(update_schema_metadata(&arr(vec![]), "T", "D", "9"), Err(MergeError::NotAnObject));
    assert_eq!(update_schema_metadata(&text("x"), "T", "D", "9"), Err(MergeError::NotAnObject));
    assert_eq!(
        MergeError::NotAnObject.message(),
        "Document is not an object"
    );
}

#[test]
fn lookup_takes_first_member_and_copy_is_equal() {
    let doc = obj(vec![("a", text("1")), ("b", arr(vec![Node::Null, Node::Bool(false)]))]);
    assert_eq!(doc.get("a"), Some(&text("1")));
    assert_eq!(doc.get("c"), None);
    assert_eq!(text("x").get("a"), None);
    assert!(doc.contains_key("b"));
    assert!(!doc.contains_key("ab"));
    assert_eq!(doc.deep_copy(), doc);
    assert!(Node::Null.is_null());
    assert!(!doc.is_null());
    assert!(doc.is_object());
    assert_eq!(text("x").as_str(), Some("x"));
    assert_eq!(Node::empty_object(), obj(vec![]));
    assert_eq!(Node::empty_array(), arr(vec![]));
}

fn reference_safe_name(name: &str) -> String {
    let mut out: Vec<char> = Vec::new();
    for c in name.chars() {
        let keep = c.is_ascii_alphanumeric() || c == '_' || c == '-';
        let c = if keep { c.to_ascii_lowercase() } else { '_' };
        if c == '_' && out.last() == Some(&'_') {
            continue;
        }
        out.push(c);
    }
    let text: String = out.into_iter().collect();
    text.trim_matches('_').to_string()
}

#[test]
fn safe_name_agrees_with_a_plain_loop() {
    let mut names: Vec<String> = Vec::new();
    for code in 0u32..0x300 {
        if let Some(c) = char::from_u32(code) {
            names.push(c.to_string());
            names.push(format!("a{}b", c));
            names.push(format!("{}{}x{}{}", c, c, c, c));
            names.push(format!("_{}_-{}", c, c));
        }
    }
    for extra in ["", "_", "__", "a__b", "_a_", "-_-", "A  B", "\u{1F600}x\u{1F600}", "İstanbul", "ǅ"] {
        names.push(extra.to_string());
    }
    for name in names {
        assert_eq!(safe_name(&name), reference_safe_name(&name), "for {:?}", name);
    }
}
