//! The server injector: gives every operation of a document a server entry
//! for the service that the document comes from.

use crate::model::{distinct_keys, Json};
use crate::operations::{
    apply_to_operations, edit_operations, lemma_edit_operations_wf, Edit, OperationEdit,
};
use crate::sanitize::{safe_name, safe_name_of};
use crate::text::join2;
use crate::node::{members_view, Node};
use vstd::prelude::*;

verus! {

/// The server entry of a service: its own URL, or in proxy mode the proxy
/// path of its safe name, with a description that names the URL.
pub open spec fn server_entry(url: Seq<char>, name: Seq<char>, proxy: bool) -> Json {
    if proxy {
        Json::Object(
            seq![
                ("url"@, Json::Text("/proxy/"@ + safe_name_of(name))),
                ("description"@, Json::Text("Proxied to "@ + url)),
            ],
        )
    } else {
        Json::Object(seq![("url"@, Json::Text(url))])
    }
}

/// The document with the service's server entry added to every operation
/// under `paths.*.*` whose servers hold no entry with the URL `url`.
pub open spec fn add_servers(doc: Json, url: Seq<char>, name: Seq<char>, proxy: bool) -> Json {
    edit_operations(doc, Edit::AddServer { url, entry: server_entry(url, name, proxy) })
}

/// Builds the server entry of a service.
pub fn make_server_entry(url: &str, service_name: &str, proxy: bool) -> (r: Node)
    ensures
        r@ == server_entry(url@, service_name@, proxy),
{
    let mut members: Vec<(String, Node)> = Vec::new();
    if proxy {
        let safe = safe_name(service_name);
        members.push(("url".to_owned(), Node::Text(join2("/proxy/", safe.as_str()))));
        members.push(("description".to_owned(), Node::Text(join2("Proxied to ", url))));
        assert(members_view(members@) =~= seq![
            ("url"@, Json::Text("/proxy/"@ + safe_name_of(service_name@))),
            ("description"@, Json::Text("Proxied to "@ + url@)),
        ]);
    } else {
        members.push(("url".to_owned(), Node::text(url)));
        assert(members_view(members@) =~= seq![("url"@, Json::Text(url@))]);
    }
    Node::Object(members)
}

/// Gives every operation of the document a server entry for the service.
///
/// The entry holds `url`, or in proxy mode the path `/proxy/<safe name>`
/// and a description. An operation whose servers already hold an entry with
/// the URL `url` is left as it is, so is one whose `servers` is not an
/// array, and so is everything under `paths` that is not an object. The
/// caller decides `proxy`: proxying is switched on and the proxy can be
/// reached.
pub fn add_servers_to_schema(schema: &Node, url: &str, service_name: &str, proxy: bool) -> (r:
    Node)
    ensures
        r@ == add_servers(schema@, url@, service_name@, proxy),
        schema.wf() ==> r.wf(),
{
    proof {
        if schema.wf() {
            lemma_add_servers_wf(schema@, url@, service_name@, proxy);
        }
    }
    let entry = make_server_entry(url, service_name, proxy);
    let edit = OperationEdit::AddServer { url, entry: &entry };
    apply_to_operations(schema, &edit)
}

/// The server entry of a service is well formed.
pub proof fn lemma_server_entry_wf(url: Seq<char>, name: Seq<char>, proxy: bool)
    ensures
        server_entry(url, name, proxy).wf(),
{
    reveal_strlit("url");
    reveal_strlit("description");
    match server_entry(url, name, proxy) {
        Json::Object(members) => {
            assert("url"@.len() != "description"@.len());
            assert(members[0].0 == "url"@);
            if proxy {
                assert(members.len() == 2);
                assert(members[1].0 == "description"@);
                assert(members[0].1.wf() && members[1].1.wf());
            } else {
                assert(members.len() == 1);
                assert(members[0].1.wf());
            }
            assert(distinct_keys(members));
        },
        _ => {},
    }
}

/// A well-formed document stays well formed when the servers are added.
pub proof fn lemma_add_servers_wf(doc: Json, url: Seq<char>, name: Seq<char>, proxy: bool)
    requires
        doc.wf(),
    ensures
        add_servers(doc, url, name, proxy).wf(),
{
    lemma_server_entry_wf(url, name, proxy);
    lemma_edit_operations_wf(doc, Edit::AddServer { url, entry: server_entry(url, name, proxy) });
}

} // verus!
