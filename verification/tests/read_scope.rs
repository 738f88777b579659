//! A grant to read one graph: what it allows, and what it does not. Each refusal stands
//! beside a read that answers, since nothing is a legitimate answer to a query.

use futures::executor::block_on;
use ikigai_core::{
    ArgRef, Capability, EndpointSpace, Error, Exact, FnEndpoint, Iri, Kernel, ReprType, Request, Verb,
};
use ikigai_store::endpoints::Space;
use ikigai_store::{
    cap_read_graph, cap_write_graph, request, DurableStore, CAP_READ, CAP_READ_GRAPH, CAP_WRITE,
    CAP_WRITE_GRAPH,
};
use std::sync::{Arc, Mutex};

/// The resources of a store, bound into a space that a kernel can resolve.
fn space(store: DurableStore) -> EndpointSpace {
    let space = Arc::new(Mutex::new(ikigai_store::space(store)));
    let endpoints = space.lock().unwrap().endpoints().clone();
    endpoints
        .into_iter()
        .fold(EndpointSpace::new(), |bound, endpoint| {
            let (space, iri) = (Arc::clone(&space), endpoint.iri());
            let door = FnEndpoint::new(endpoint.name(), move |inv| answer(&space, &iri, inv))
                .with_description(description(endpoint.describe()));
            bound.bind(Exact::new(endpoint.iri()), door)
        })
}

fn verb(verb: request::Verb) -> Verb {
    match verb {
        request::Verb::Source => Verb::Source,
        request::Verb::Sink => Verb::Sink,
        request::Verb::Exists => Verb::Exists,
        request::Verb::Delete => Verb::Delete,
        request::Verb::Meta => Verb::Meta,
    }
}

fn answer(
    space: &Mutex<Space>,
    iri: &str,
    inv: &ikigai_core::Invocation<'_>,
) -> ikigai_core::Result<ikigai_core::Representation> {
    let asked = request::Invocation {
        verb: match inv.request.verb {
            Verb::Source => request::Verb::Source,
            Verb::Sink => request::Verb::Sink,
            Verb::Exists => request::Verb::Exists,
            Verb::Delete => request::Verb::Delete,
            Verb::Meta => request::Verb::Meta,
        },
        args: inv
            .request
            .args
            .iter()
            .map(|(name, arg)| match arg {
                ArgRef::Inline(bytes) => (name.clone(), request::Arg::Inline(bytes.clone())),
                _ => (name.clone(), request::Arg::Other),
            })
            .collect(),
        capability: inv.capability,
    };
    let mut space = space.lock().unwrap();
    match space.invoke(iri, &asked).expect("the IRI is bound") {
        Ok(rep) => {
            let kind = ReprType::new(rep.media_type).with_param("charset", rep.charset);
            let mut out = ikigai_core::Representation::new(kind, rep.bytes);
            if rep.cacheable {
                out = out.cacheable();
            }
            Ok(rep
                .threads
                .iter()
                .fold(out, |out, thread| out.depends_on(thread.as_str())))
        }
        Err(error) => Err(match error {
            ikigai_store::Error::MissingArgument(name) => {
                ikigai_core::Error::MissingArgument(name)
            }
            ikigai_store::Error::InvalidArgument { name, detail } => {
                ikigai_core::Error::InvalidArgument { name, detail }
            }
            ikigai_store::Error::Endpoint(text) => ikigai_core::Error::Endpoint(text),
            ikigai_store::Error::Denied(text) => ikigai_core::Error::Denied(text),
            ikigai_store::Error::Unavailable(text) => ikigai_core::Error::Unavailable(text),
        }),
    }
}

fn description(own: request::Description) -> ikigai_core::Description {
    let mut out = ikigai_core::Description::new(own.id)
        .title(own.title)
        .summary(own.summary)
        .requires(own.capability);
    for one in own.verbs {
        out = out.verb(verb(one));
    }
    for spec in own.inputs {
        let mut arg = ikigai_core::ArgSpec::new(spec.name)
            .summary(spec.summary)
            .class(spec.class);
        if !spec.one_of.is_empty() {
            arg = arg.one_of(spec.one_of);
        }
        if let Some(value) = spec.default_value {
            arg = arg.default_value(value);
        }
        out = out.input(if spec.required { arg } else { arg.optional() });
    }
    own.outputs.into_iter().fold(out, |out, media| out.output(media))
}

const G: &str = "urn:example:acme";
const OTHER: &str = "urn:example:zenith";

fn kernel() -> Kernel {
    let store = DurableStore::in_memory().unwrap();
    let kernel = Kernel::new(Arc::new(space(store)));
    let seed = format!(
        "INSERT DATA {{ \
           GRAPH <{G}> {{ <urn:example:acme:1> <urn:p> \"acme\" }} \
           GRAPH <{OTHER}> {{ <urn:example:zenith:1> <urn:p> \"zenith\" }} \
           <urn:example:host:1> <urn:p> \"host\" \
         }}"
    );
    sink(
        &kernel,
        "urn:iki:store:update",
        &[("content", &seed)],
        &Capability::root(),
    )
    .expect("seeding");
    kernel
}

fn sink(
    kernel: &Kernel,
    iri: &str,
    args: &[(&str, &str)],
    cap: &Capability,
) -> Result<String, Error> {
    issue(kernel, Verb::Sink, iri, args, cap)
}

fn source(
    kernel: &Kernel,
    iri: &str,
    args: &[(&str, &str)],
    cap: &Capability,
) -> Result<String, Error> {
    issue(kernel, Verb::Source, iri, args, cap)
}

fn issue(
    kernel: &Kernel,
    verb: Verb,
    iri: &str,
    args: &[(&str, &str)],
    cap: &Capability,
) -> Result<String, Error> {
    let mut request = Request::new(verb, Iri::parse(iri).unwrap());
    for (name, value) in args {
        request = request.with_arg(*name, ArgRef::Inline(value.as_bytes().to_vec()));
    }
    block_on(kernel.issue(request, cap)).map(|r| String::from_utf8_lossy(&r.bytes).into_owned())
}

fn scoped_select(kernel: &Kernel, query: &str, cap: &Capability) -> Result<Vec<String>, Error> {
    source(
        kernel,
        "urn:iki:store:graph-select",
        &[("graph", G), ("query", query), ("as", "text/csv")],
        cap,
    )
    .map(|csv| csv.lines().skip(1).map(str::to_string).collect())
}

fn broad_select(kernel: &Kernel, query: &str) -> Vec<String> {
    source(
        kernel,
        "urn:iki:store:select",
        &[("query", query), ("as", "text/csv")],
        &Capability::root(),
    )
    .expect("the broad door under root")
    .lines()
    .skip(1)
    .map(str::to_string)
    .collect()
}

fn one_graph() -> Capability {
    Capability::scoped([cap_read_graph(G)])
}

#[test]
fn a_graph_grant_reads_its_own_graph() {
    let kernel = kernel();
    let rows = scoped_select(&kernel, "SELECT ?s WHERE { ?s ?p ?o }", &one_graph())
        .expect("an in-scope read under the graph grant");
    assert_eq!(rows, ["urn:example:acme:1"]);
}

#[test]
fn the_scoped_graph_is_reachable_as_the_default_graph_and_by_name() {
    let kernel = kernel();
    for query in [
        "SELECT ?s WHERE { ?s ?p ?o }".to_string(),
        format!("SELECT ?s WHERE {{ GRAPH <{G}> {{ ?s ?p ?o }} }}"),
        "SELECT ?s WHERE { GRAPH ?g { ?s ?p ?o } }".to_string(),
    ] {
        assert_eq!(
            scoped_select(&kernel, &query, &one_graph()).unwrap_or_else(|e| panic!("{query}: {e}")),
            ["urn:example:acme:1"],
            "`{query}` did not read the permitted graph"
        );
    }
}

#[test]
fn all_four_scoped_forms_answer_over_the_permitted_graph() {
    let kernel = kernel();
    let cap = one_graph();
    let ask = source(
        &kernel,
        "urn:iki:store:graph-ask",
        &[("graph", G), ("query", "ASK { ?s ?p ?o }")],
        &cap,
    )
    .expect("a scoped ASK");
    assert!(ask.contains("true"), "{ask}");

    let construct = source(
        &kernel,
        "urn:iki:store:graph-construct",
        &[
            ("graph", G),
            (
                "query",
                "CONSTRUCT { ?s <urn:copied> ?o } WHERE { ?s ?p ?o }",
            ),
        ],
        &cap,
    )
    .expect("a scoped CONSTRUCT");
    assert!(construct.contains("urn:example:acme:1"), "{construct}");
    assert!(!construct.contains("zenith"), "{construct}");

    let describe = source(
        &kernel,
        "urn:iki:store:graph-describe",
        &[("graph", G), ("query", "DESCRIBE <urn:example:acme:1>")],
        &cap,
    )
    .expect("a scoped DESCRIBE");
    assert!(describe.contains("\"acme\""), "{describe}");
}

#[test]
fn read_scope_several_graph_grants_are_held_and_used_independently() {
    let kernel = kernel();
    let both = Capability::scoped([cap_read_graph(G), cap_read_graph(OTHER)]);
    for (graph, expect) in [(G, "urn:example:acme:1"), (OTHER, "urn:example:zenith:1")] {
        let rows: Vec<String> = source(
            &kernel,
            "urn:iki:store:graph-select",
            &[
                ("graph", graph),
                ("query", "SELECT ?s WHERE { ?s ?p ?o }"),
                ("as", "text/csv"),
            ],
            &both,
        )
        .unwrap_or_else(|e| panic!("reading {graph} with both grants: {e}"))
        .lines()
        .skip(1)
        .map(str::to_string)
        .collect();
        assert_eq!(rows, [expect]);
    }
}

#[test]
fn read_scope_a_graph_grant_is_refused_for_another_graph() {
    let kernel = kernel();
    let err = source(
        &kernel,
        "urn:iki:store:graph-select",
        &[("graph", OTHER), ("query", "SELECT ?s WHERE { ?s ?p ?o }")],
        &one_graph(),
    )
    .expect_err("a grant for one graph must not read another");
    assert!(matches!(err, Error::Denied(_)), "{err:?}");
    assert!(err.to_string().contains(&cap_read_graph(OTHER)), "{err}");
}

#[test]
fn a_scoped_read_cannot_reach_another_graph_by_any_shape() {
    let kernel = kernel();
    for (name, query) in [
        (
            "another named graph, named outright",
            format!("SELECT ?s WHERE {{ GRAPH <{OTHER}> {{ ?s ?p ?o }} }}"),
        ),
        (
            "a sub-select over another graph",
            format!(
                "SELECT ?s WHERE {{ {{ SELECT ?s WHERE {{ GRAPH <{OTHER}> {{ ?s ?p ?o }} }} }} }}"
            ),
        ),
        (
            "a FILTER EXISTS over another graph",
            format!(
                "SELECT ?s WHERE {{ ?s ?p ?o FILTER EXISTS {{ GRAPH <{OTHER}> {{ ?a ?b ?c }} }} }}"
            ),
        ),
        (
            "the store's own default graph, which no grant can name",
            "SELECT ?s WHERE { ?s ?p \"host\" }".to_string(),
        ),
    ] {
        let scoped = scoped_select(&kernel, &query, &one_graph())
            .unwrap_or_else(|e| panic!("{name}: the query is well-formed and in scope: {e}"));
        assert!(scoped.is_empty(), "{name}: leaked {scoped:?}");
        assert!(
            !broad_select(&kernel, &query).is_empty(),
            "{name}: the control found nothing either, so this test proves nothing"
        );
    }
}

#[test]
fn a_variable_graph_enumerates_only_the_permitted_graph() {
    let kernel = kernel();
    let query = "SELECT ?g WHERE { GRAPH ?g { ?s ?p ?o } }";
    assert_eq!(
        scoped_select(&kernel, query, &one_graph()).expect("enumerating under the grant"),
        [G]
    );
    let mut broad = broad_select(&kernel, query);
    broad.sort();
    assert_eq!(
        broad,
        [G, OTHER],
        "the control: both graphs really are there"
    );
}

#[test]
fn a_query_naming_its_own_dataset_is_refused() {
    let kernel = kernel();
    for query in [
        format!("SELECT ?s FROM <{OTHER}> WHERE {{ ?s ?p ?o }}"),
        format!("SELECT ?s FROM <{G}> WHERE {{ ?s ?p ?o }}"),
        format!("SELECT ?s FROM NAMED <{OTHER}> WHERE {{ GRAPH ?g {{ ?s ?p ?o }} }}"),
    ] {
        let err = scoped_select(&kernel, &query, &one_graph())
            .err()
            .unwrap_or_else(|| panic!("`{query}` should be refused"));
        assert!(
            matches!(&err, Error::InvalidArgument { name, .. } if name == "query"),
            "{query}: {err:?}"
        );
        assert!(err.to_string().contains("FROM"), "{err}");
    }
    assert_eq!(
        broad_select(
            &kernel,
            &format!("SELECT ?s FROM <{OTHER}> WHERE {{ ?s ?p ?o }}")
        ),
        ["urn:example:zenith:1"]
    );
}

#[test]
fn neither_read_scope_stands_in_for_the_other() {
    let kernel = kernel();
    let broad = Capability::scoped([CAP_READ.to_string()]);
    let narrow = one_graph();
    let query = "SELECT ?s WHERE { ?s ?p ?o }";

    let err = scoped_select(&kernel, query, &broad).expect_err("broad must not open the narrow");
    assert!(matches!(err, Error::Denied(_)), "{err:?}");

    let err = source(
        &kernel,
        "urn:iki:store:select",
        &[("query", query)],
        &narrow,
    )
    .expect_err("narrow must not open the broad door — this IS the bypass");
    assert!(matches!(err, Error::Denied(_)), "{err:?}");

    assert_eq!(
        scoped_select(&kernel, query, &narrow).expect("the narrow door under the narrow grant"),
        ["urn:example:acme:1"]
    );
    assert!(
        source(&kernel, "urn:iki:store:select", &[("query", query)], &broad).is_ok(),
        "the broad door under the broad grant"
    );
}

#[test]
fn a_write_scope_does_not_imply_a_read_scope_over_the_same_graph() {
    let kernel = kernel();
    let write_only = Capability::scoped([cap_write_graph(G)]);
    let err = scoped_select(&kernel, "SELECT ?s WHERE { ?s ?p ?o }", &write_only)
        .expect_err("a write scope must not read");
    assert!(matches!(err, Error::Denied(_)), "{err:?}");

    let read_only = one_graph();
    let err = sink(
        &kernel,
        "urn:iki:store:graph-update",
        &[
            ("graph", G),
            (
                "content",
                &format!("INSERT DATA {{ GRAPH <{G}> {{ <urn:x> <urn:p> \"no\" }} }}"),
            ),
        ],
        &read_only,
    )
    .expect_err("a read scope must not write");
    assert!(matches!(err, Error::Denied(_)), "{err:?}");

    let owner = Capability::scoped([cap_read_graph(G), cap_write_graph(G)]);
    sink(
        &kernel,
        "urn:iki:store:graph-update",
        &[
            ("graph", G),
            (
                "content",
                &format!("INSERT DATA {{ GRAPH <{G}> {{ <urn:x> <urn:p> \"yes\" }} }}"),
            ),
        ],
        &owner,
    )
    .expect("the owner writes");
    assert_eq!(
        scoped_select(&kernel, "SELECT ?s WHERE { ?s ?p ?o }", &owner)
            .expect("the owner reads")
            .len(),
        2
    );
}

#[test]
fn no_grants_at_all_opens_neither_read_door() {
    let kernel = kernel();
    let none = Capability::scoped(Vec::<String>::new());
    let query = "SELECT ?s WHERE { ?s ?p ?o }";
    assert!(matches!(
        scoped_select(&kernel, query, &none).unwrap_err(),
        Error::Denied(_)
    ));
    assert!(matches!(
        source(&kernel, "urn:iki:store:select", &[("query", query)], &none).unwrap_err(),
        Error::Denied(_)
    ));
}

#[test]
fn the_wildcard_token_itself_grants_nothing() {
    let kernel = kernel();
    let wildcard = Capability::scoped([CAP_READ_GRAPH.to_string()]);
    let err = scoped_select(&kernel, "SELECT ?s WHERE { ?s ?p ?o }", &wildcard)
        .expect_err("the wildcard is a declaration, not a grant over any graph");
    assert!(matches!(err, Error::Denied(_)), "{err:?}");
}

#[test]
fn a_scoped_read_is_invalidated_by_a_write() {
    let kernel = kernel();
    let cap = Capability::scoped([cap_read_graph(G), cap_write_graph(G)]);
    let read = || {
        source(
            &kernel,
            "urn:iki:store:graph-ask",
            &[
                ("graph", G),
                ("query", "ASK { <urn:example:acme:2> ?p ?o }"),
            ],
            &cap,
        )
        .expect("the scoped ASK")
    };
    assert!(read().contains("false"), "the subject is not there yet");
    sink(
        &kernel,
        "urn:iki:store:graph-update",
        &[
            ("graph", G),
            (
                "content",
                &format!(
                    "INSERT DATA {{ GRAPH <{G}> {{ <urn:example:acme:2> <urn:p> \"new\" }} }}"
                ),
            ),
        ],
        &cap,
    )
    .expect("the scoped write");
    assert!(
        read().contains("true"),
        "a cached scoped read was not invalidated by a write"
    );
}

#[test]
fn two_tenants_running_the_same_query_do_not_share_a_cached_answer() {
    let kernel = kernel();
    let query = "SELECT ?s WHERE { ?s ?p ?o }";
    let acme = Capability::scoped([cap_read_graph(G)]);
    let zenith = Capability::scoped([cap_read_graph(OTHER)]);
    let rows = |graph: &str, cap: &Capability| -> Vec<String> {
        source(
            &kernel,
            "urn:iki:store:graph-select",
            &[("graph", graph), ("query", query), ("as", "text/csv")],
            cap,
        )
        .expect("a scoped read")
        .lines()
        .skip(1)
        .map(str::to_string)
        .collect()
    };
    assert_eq!(rows(G, &acme), ["urn:example:acme:1"]);
    assert_eq!(rows(OTHER, &zenith), ["urn:example:zenith:1"]);
    assert_eq!(rows(G, &acme), ["urn:example:acme:1"]);
    assert_eq!(rows(OTHER, &zenith), ["urn:example:zenith:1"]);
}

#[test]
fn read_scope_a_graph_that_is_not_an_iri_is_refused_by_name() {
    let kernel = kernel();
    let err = source(
        &kernel,
        "urn:iki:store:graph-select",
        &[
            ("graph", "not an iri"),
            ("query", "SELECT ?s WHERE { ?s ?p ?o }"),
        ],
        &Capability::root(),
    )
    .expect_err("a malformed graph IRI");
    assert!(
        matches!(&err, Error::InvalidArgument { name, .. } if name == "graph"),
        "{err:?}"
    );
}

#[test]
fn a_query_of_the_wrong_form_is_refused_under_the_scoped_iri_too() {
    let kernel = kernel();
    let err = scoped_select(
        &kernel,
        "CONSTRUCT { ?s ?p ?o } WHERE { ?s ?p ?o }",
        &one_graph(),
    )
    .expect_err("a CONSTRUCT under the scoped SELECT IRI");
    let text = err.to_string();
    assert!(text.contains("urn:iki:store:graph-select"), "{text}");
    assert!(text.contains("a result set"), "{text}");
}

#[test]
fn bindings_reach_the_scoped_forms() {
    let kernel = kernel();
    let rows = source(
        &kernel,
        "urn:iki:store:graph-select",
        &[
            ("graph", G),
            ("query", "SELECT * WHERE { ?s ?p ?o }"),
            ("bindings", r#"{"o": "acme"}"#),
            ("as", "text/csv"),
        ],
        &one_graph(),
    )
    .expect("a bound scoped read");
    assert!(rows.contains("urn:example:acme:1"), "{rows}");
}

#[test]
fn the_declared_scopes_are_distinct() {
    assert_ne!(CAP_READ_GRAPH, CAP_WRITE_GRAPH);
    assert_ne!(cap_read_graph(G), cap_write_graph(G));
    assert_ne!(cap_read_graph(G), CAP_READ);
    assert_ne!(cap_write_graph(G), CAP_WRITE);
}
