use openapi_merge::merge::{claim_entries, Gathering};
use openapi_merge::node::{find_member, put_member};
use openapi_merge::{
    merge_documents, merge_sources, update_schema_metadata, MergeEvent, Node, Section,
    SourceDocument, SourceInput,
};

fn text(s: &str) -> Node {
    Node::Text(s.to_string())
}

fn obj(members: Vec<(&str, Node)>) -> Node {
    Node::Object(members.into_iter().map(|(k, v)| (k.to_string(), v)).collect())
}

fn arr(items: Vec<Node>) -> Node {
    Node::Array(items)
}

fn source(name: &str, document: Node) -> SourceDocument {
    SourceDocument { name: name.to_string(), url: format!("http://{}", name), document }
}

fn keys(node: Option<&Node>) -> Vec<String> {
    match node {
        Some(Node::Object(members)) => members.iter().map(|(k, _)| k.clone()).collect(),
        _ => panic!("no object"),
    }
}

fn sorted(mut v: Vec<String>) -> Vec<String> {
    v.sort();
    v
}

fn default_info() -> Node {
    obj(vec![
        ("title", text("Merged API")),
        ("description", text("")),
        ("version", text("1.0.0")),
    ])
}

#[test]
fn merge_of_nothing_is_the_empty_object() {
    let report = merge_documents(&vec![], true, false);
    assert_eq!(report.document, obj(vec![]));
    assert!(report.events.is_empty());
    let report = merge_documents(&vec![], false, false);
    assert_eq!(report.document, obj(vec![]));
}

#[test]
fn metadata_on_the_empty_sentinel() {
    let report = merge_documents(&vec![], true, false);
    let out = update_schema_metadata(&report.document, "Gateway", "All services", "2.0").unwrap();
    let expected = obj(vec![
        (
            "info",
            obj(vec![
                ("title", text("Gateway")),
                ("description", text("All services")),
                ("version", text("2.0")),
            ]),
        ),
        ("openapi", text("3.1.0")),
    ]);
    assert_eq!(out, expected);
}

#[test]
fn colliding_paths_get_the_source_suffix() {
    let a = source("svc1", obj(vec![("paths", obj(vec![("/users", obj(vec![("get", obj(vec![]))]))]))]));
    let b = source("svc2", obj(vec![("paths", obj(vec![("/users", obj(vec![("post", obj(vec![]))]))]))]));
    let report = merge_documents(&vec![a, b], false, false);
    let expected_paths = obj(vec![
        (
            "/users",
            obj(vec![("get", obj(vec![("servers", arr(vec![obj(vec![("url", text("http://svc1"))])]))]))]),
        ),
        (
            "/users_svc2",
            obj(vec![("post", obj(vec![("servers", arr(vec![obj(vec![("url", text("http://svc2"))])]))]))]),
        ),
    ]);
    let expected = obj(vec![
        ("info", default_info()),
        ("paths", expected_paths),
        ("components", obj(vec![("schemas", obj(vec![]))])),
    ]);
    assert_eq!(report.document, expected);
    assert!(report.events.is_empty());
}

#[test]
fn grouping_namespaces_and_collects_tags() {
    let doc = obj(vec![
        ("tags", arr(vec![obj(vec![("name", text("Users"))])])),
        (
            "paths",
            obj(vec![("/users", obj(vec![("get", obj(vec![("tags", arr(vec![text("admin")]))]))]))]),
        ),
    ]);
    let other = obj(vec![("tags", arr(vec![obj(vec![("name", text("Orders"))])]))]);
    let report = merge_documents(&vec![source("svc1", doc), source("svc2", other)], true, false);
    assert_eq!(
        report.document.get("tags"),
        Some(&arr(vec![
            obj(vec![("name", text("svc1 | Users"))]),
            obj(vec![("name", text("svc2 | Orders"))]),
        ]))
    );
    let op = report
        .document
        .get("paths")
        .and_then(|p| p.get("/users"))
        .and_then(|i| i.get("get"))
        .unwrap();
    assert_eq!(op.get("tags"), Some(&arr(vec![text("svc1 | admin")])));
}

#[test]
fn tags_are_left_out_without_grouping() {
    let doc = obj(vec![("tags", arr(vec![obj(vec![("name", text("Users"))])])), ("paths", obj(vec![]))]);
    let report = merge_documents(&vec![source("svc1", doc)], false, false);
    assert_eq!(report.document.get("tags"), None);
    assert_eq!(keys(Some(&report.document)), vec!["info", "paths", "components"]);
}

#[test]
fn grouping_keeps_empty_tags() {
    let report = merge_documents(&vec![source("svc1", obj(vec![]))], true, false);
    assert_eq!(report.document.get("tags"), Some(&arr(vec![])));
    assert_eq!(keys(Some(&report.document)), vec!["info", "paths", "components", "tags"]);
    assert_eq!(report.document.get("info"), Some(&default_info()));
    assert_eq!(report.document.get("components"), Some(&obj(vec![("schemas", obj(vec![]))])));
}

#[test]
fn null_document_is_skipped_and_reported() {
    let report = merge_documents(
        &vec![source("gone", Node::Null), source("svc1", obj(vec![("paths", obj(vec![("/a", Node::Null)]))]))],
        false,
        false,
    );
    assert_eq!(report.events, vec![MergeEvent::SkippedSource { name: "gone".to_string() }]);
    assert_eq!(keys(report.document.get("paths")), vec!["/a"]);
    let only_null = merge_documents(&vec![source("gone", Node::Null)], false, false);
    assert_eq!(
        only_null.document,
        obj(vec![
            ("info", default_info()),
            ("paths", obj(vec![])),
            ("components", obj(vec![("schemas", obj(vec![]))])),
        ])
    );
}

#[test]
fn schemas_and_other_components_are_merged_by_kind() {
    let a = obj(vec![(
        "components",
        obj(vec![
            ("schemas", obj(vec![("User", text("a-user")), ("Order", text("a-order"))])),
            ("responses", obj(vec![("NotFound", text("a-404"))])),
            ("parameters", text("not an object")),
        ]),
    )]);
    let b = obj(vec![(
        "components",
        obj(vec![
            ("responses", obj(vec![("NotFound", text("b-404")), ("User", text("b-user-response"))])),
            ("schemas", obj(vec![("User", text("b-user"))])),
        ]),
    )]);
    let report = merge_documents(&vec![source("svc1", a), source("svc2", b)], false, false);
    let expected = obj(vec![
        ("schemas", obj(vec![("User", text("a-user")), ("Order", text("a-order")), ("User_svc2", text("b-user"))])),
        (
            "responses",
            obj(vec![
                ("NotFound", text("a-404")),
                ("NotFound_svc2", text("b-404")),
                ("User", text("b-user-response")),
            ]),
        ),
        ("parameters", obj(vec![])),
    ]);
    assert_eq!(report.document.get("components"), Some(&expected));
    assert!(report.events.is_empty());
}

#[test]
fn second_collision_overwrites_and_is_reported() {
    let a = obj(vec![("paths", obj(vec![("/x", text("first")), ("/x_svc", text("second"))]))]);
    let b = obj(vec![
        ("paths", obj(vec![("/x", text("third"))])),
        (
            "components",
            obj(vec![("schemas", obj(vec![("S", text("s1"))])), ("examples", obj(vec![("E", text("e1"))]))]),
        ),
    ]);
    let c = obj(vec![(
        "components",
        obj(vec![
            ("schemas", obj(vec![("S", text("s2")), ("S_svc", text("s3"))])),
            ("examples", obj(vec![("E", text("e2")), ("E_svc", text("e3"))])),
        ]),
    )]);
    let d = obj(vec![(
        "components",
        obj(vec![("schemas", obj(vec![("S", text("s4"))])), ("examples", obj(vec![("E", text("e4"))]))]),
    )]);
    let report = merge_documents(
        &vec![source("one", a), source("svc", b), source("two", c), source("svc", d)],
        false,
        false,
    );
    assert_eq!(
        report.document.get("paths"),
        Some(&obj(vec![("/x", text("first")), ("/x_svc", text("third"))]))
    );
    assert_eq!(
        report.document.get("components"),
        Some(&obj(vec![
            ("schemas", obj(vec![("S", text("s1")), ("S_two", text("s2")), ("S_svc", text("s4"))])),
            ("examples", obj(vec![("E", text("e1")), ("E_two", text("e2")), ("E_svc", text("e4"))])),
        ]))
    );
    assert_eq!(
        report.events,
        vec![
            MergeEvent::Conflict {
                section: Section::Paths,
                key: "/x".to_string(),
                renamed: "/x_svc".to_string(),
            },
            MergeEvent::Conflict {
                section: Section::Schemas,
                key: "S".to_string(),
                renamed: "S_svc".to_string(),
            },
            MergeEvent::Conflict {
                section: Section::Components("examples".to_string()),
                key: "E".to_string(),
                renamed: "E_svc".to_string(),
            },
        ]
    );
}

#[test]
fn key_sets_do_not_depend_on_the_order_without_conflicts() {
    let a = || {
        obj(vec![
            ("paths", obj(vec![("/a", obj(vec![])), ("/b", obj(vec![]))])),
            ("components", obj(vec![("schemas", obj(vec![("A", Node::Null)]))])),
        ])
    };
    let b = || {
        obj(vec![
            ("paths", obj(vec![("/c", obj(vec![]))])),
            ("components", obj(vec![("schemas", obj(vec![("B", Node::Null), ("C", Node::Null)]))])),
        ])
    };
    let ab = merge_documents(&vec![source("a", a()), source("b", b())], false, false);
    let ba = merge_documents(&vec![source("b", b()), source("a", a())], false, false);
    assert_eq!(keys(ab.document.get("paths")), vec!["/a", "/b", "/c"]);
    assert_eq!(keys(ba.document.get("paths")), vec!["/c", "/a", "/b"]);
    assert_eq!(sorted(keys(ab.document.get("paths"))), sorted(keys(ba.document.get("paths"))));
    let schemas = |n: &Node| keys(n.get("components").and_then(|c| c.get("schemas")));
    assert_eq!(sorted(schemas(&ab.document)), sorted(schemas(&ba.document)));
    assert_eq!(sorted(schemas(&ab.document)), vec!["A", "B", "C"]);
}

#[test]
fn merge_leaves_the_sources_as_they_were() {
    let doc = obj(vec![("paths", obj(vec![("/a", obj(vec![("get", obj(vec![]))]))]))]);
    let sources = vec![source("svc1", doc.deep_copy())];
    let _ = merge_documents(&sources, true, true);
    assert_eq!(sources[0].document, doc);
}

#[test]
fn merge_in_proxy_mode_writes_proxy_paths() {
    let doc = obj(vec![("paths", obj(vec![("/a", obj(vec![("get", obj(vec![]))]))]))]);
    let report = merge_documents(&vec![source("Svc One", doc)], false, true);
    let op = report.document.get("paths").and_then(|p| p.get("/a")).and_then(|i| i.get("get")).unwrap();
    assert_eq!(
        op.get("servers"),
        Some(&arr(vec![obj(vec![
            ("url", text("/proxy/svc_one")),
            ("description", text("Proxied to http://Svc One")),
        ])]))
    );
}

fn valid_document(path: &str) -> Node {
    obj(vec![
        ("openapi", text("3.0.0")),
        ("info", obj(vec![("title", text("X")), ("version", text("1"))])),
        ("paths", obj(vec![(path, obj(vec![]))])),
    ])
}

fn input(name: &str, document: Node, enabled: bool) -> SourceInput {
    SourceInput { name: name.to_string(), url: format!("http://{}", name), document, enabled }
}

#[test]
fn disabled_and_invalid_sources_are_kept_out() {
    let inputs = vec![
        input("broken", obj(vec![("openapi", text("3.0.0"))]), true),
        input("one", valid_document("/one"), true),
        input("off", valid_document("/off"), false),
        input("off-and-broken", Node::Null, false),
        input("null", Node::Null, true),
        input("two", valid_document("/two"), true),
    ];
    let report = merge_sources(&inputs, false, false);
    assert_eq!(keys(report.document.get("paths")), vec!["/one", "/two"]);
    assert_eq!(
        report.events,
        vec![
            MergeEvent::InvalidSource { name: "broken".to_string() },
            MergeEvent::InvalidSource { name: "null".to_string() },
        ]
    );
    let same = merge_documents(
        &vec![source("one", valid_document("/one")), source("two", valid_document("/two"))],
        false,
        false,
    );
    assert_eq!(report.document, same.document);
}

#[test]
fn nothing_left_to_merge_gives_the_empty_object() {
    let inputs = vec![input("off", valid_document("/off"), false), input("bad", arr(vec![]), true)];
    let report = merge_sources(&inputs, true, false);
    assert_eq!(report.document, obj(vec![]));
    assert_eq!(report.events, vec![MergeEvent::InvalidSource { name: "bad".to_string() }]);
    assert_eq!(merge_sources(&vec![], true, false).document, obj(vec![]));
}

#[test]
fn clone_gives_an_equal_tree() {
    let doc = valid_document("/a");
    assert_eq!(doc.clone(), doc);
}

#[test]
fn members_are_found_and_put_in_place() {
    let mut members = vec![
        ("a".to_string(), text("1")),
        ("b".to_string(), text("2")),
        ("a".to_string(), text("3")),
    ];
    assert_eq!(find_member(&members, "a"), Some(0));
    assert_eq!(find_member(&members, "b"), Some(1));
    assert_eq!(find_member(&members, "c"), None);
    put_member(&mut members, "b".to_string(), text("new"));
    put_member(&mut members, "c".to_string(), text("last"));
    assert_eq!(
        members,
        vec![
            ("a".to_string(), text("1")),
            ("b".to_string(), text("new")),
            ("a".to_string(), text("3")),
            ("c".to_string(), text("last")),
        ]
    );
}

#[test]
fn entries_are_claimed_one_after_the_other() {
    let mut taken = vec![("/a".to_string(), text("old"))];
    let entries = vec![
        ("/a".to_string(), text("first")),
        ("/a_svc".to_string(), text("second")),
        ("/b".to_string(), text("third")),
    ];
    let mut events = Vec::new();
    claim_entries(&mut taken, &entries, "svc", &Section::Paths, &mut events);
    assert_eq!(
        taken,
        vec![
            ("/a".to_string(), text("old")),
            ("/a_svc".to_string(), text("first")),
            ("/a_svc_svc".to_string(), text("second")),
            ("/b".to_string(), text("third")),
        ]
    );
    assert!(events.is_empty());
    let reversed = vec![("/a_svc".to_string(), text("second")), ("/a".to_string(), text("first"))];
    let mut taken = vec![("/a".to_string(), text("old"))];
    claim_entries(&mut taken, &reversed, "svc", &Section::Schemas, &mut events);
    assert_eq!(
        taken,
        vec![("/a".to_string(), text("old")), ("/a_svc".to_string(), text("first"))]
    );
    assert_eq!(
        events,
        vec![MergeEvent::Conflict {
            section: Section::Schemas,
            key: "/a".to_string(),
            renamed: "/a_svc".to_string(),
        }]
    );
}

#[test]
fn sources_can_be_taken_in_one_by_one() {
    let mut state = Gathering::new();
    state.absorb_source(&source("svc1", obj(vec![("paths", obj(vec![("/a", Node::Null)]))])), false, false);
    state.absorb_source(&source("svc2", obj(vec![("paths", obj(vec![("/a", Node::Bool(true))]))])), false, false);
    let report = state.assemble(false);
    assert_eq!(
        report.document.get("paths"),
        Some(&obj(vec![("/a", Node::Null), ("/a_svc2", Node::Bool(true))]))
    );
}
