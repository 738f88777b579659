//! The resources, asked without a kernel: exact answers, exact refusals.

use ikigai_core::Capability;
use ikigai_store::confine::{evaluated, scoped_update, Applied};
use ikigai_store::dataset::{Dataset, Failure};
use ikigai_store::endpoints::{Endpoint, Space};
use ikigai_store::query::{query_error, with_freshness, Form, QueryEndpoint};
use ikigai_store::request::{Arg, Invocation, Representation, Verb};
use ikigai_store::scope::Answer;
use ikigai_store::write::{
    counted, GraphUpdateEndpoint, LoadEndpoint, UpdateEndpoint, LOAD_FORMATS,
};
use ikigai_store::term::NamedNode;
use ikigai_store::{
    cap_read_graph, cap_write_graph, space, DurableStore, Error, CAP_READ, CAP_READ_GRAPH,
    CAP_WRITE, CAP_WRITE_GRAPH,
};

const G: &str = "urn:example:acme";
const OTHER: &str = "urn:example:zenith";
const THREADS: [&str; 3] = [
    "urn:iki:store:update",
    "urn:iki:store:load",
    "urn:iki:store:graph-update",
];

fn issue(
    space: &mut Space,
    verb: Verb,
    iri: &str,
    args: &[(&str, &str)],
    capability: &Capability,
) -> Result<Representation, Error> {
    let asked = Invocation {
        verb,
        args: args
            .iter()
            .map(|(name, value)| (name.to_string(), Arg::Inline(value.as_bytes().to_vec())))
            .collect(),
        capability,
    };
    space.invoke(iri, &asked).expect("the IRI is bound")
}

fn source(space: &mut Space, iri: &str, args: &[(&str, &str)]) -> Result<Representation, Error> {
    issue(space, Verb::Source, iri, args, &Capability::root())
}

fn sink(space: &mut Space, iri: &str, args: &[(&str, &str)]) -> Result<Representation, Error> {
    issue(space, Verb::Sink, iri, args, &Capability::root())
}

fn text(rep: Representation) -> String {
    String::from_utf8(rep.bytes).unwrap()
}

fn seeded() -> Space {
    let mut space = space(DurableStore::in_memory().unwrap());
    let update = format!(
        "INSERT DATA {{ GRAPH <{G}> {{ <urn:a:1> <urn:p> \"acme\" }} \
         GRAPH <{OTHER}> {{ <urn:z:1> <urn:p> \"zenith\" }} <urn:h:1> <urn:p> \"host\" }}"
    );
    let rep = sink(&mut space, "urn:iki:store:update", &[("content", &update)]).unwrap();
    assert_eq!(text(rep), "updated: 0 -> 3 quads\n");
    space
}

fn count(space: &mut Space, graph: &str) -> usize {
    let query = format!("SELECT ?s WHERE {{ GRAPH <{graph}> {{ ?s ?p ?o }} }}");
    let args = [("query", query.as_str()), ("as", "text/csv")];
    text(source(space, "urn:iki:store:select", &args).unwrap())
        .lines()
        .count()
        - 1
}

// ------------------------------------------------------------------------- the doors

#[test]
fn a_space_binds_twelve_resources_each_under_its_own_iri() {
    let space = space(DurableStore::in_memory().unwrap());
    let iris: Vec<String> = space.endpoints().iter().map(|e| e.iri()).collect();
    assert_eq!(
        iris,
        [
            "urn:iki:store:select",
            "urn:iki:store:graph-select",
            "urn:iki:store:ask",
            "urn:iki:store:graph-ask",
            "urn:iki:store:construct",
            "urn:iki:store:graph-construct",
            "urn:iki:store:describe",
            "urn:iki:store:graph-describe",
            "urn:iki:store:info",
            "urn:iki:store:update",
            "urn:iki:store:graph-update",
            "urn:iki:store:load",
        ]
    );
    for endpoint in space.endpoints() {
        assert_eq!(space.resolve(&endpoint.iri()), Some(*endpoint));
        assert_eq!(endpoint.describe().id, endpoint.name());
        assert_eq!(
            endpoint.iri().replace("urn:iki:store:", "store-"),
            endpoint.name()
        );
    }
    assert_eq!(space.resolve("urn:iki:store:"), None);
    assert_eq!(space.resolve("urn:iki:store:selects"), None);
    assert!(space.store().is_covered());
}

#[test]
fn every_description_declares_its_scope_and_its_outputs() {
    let results = [
        "application/sparql-results+json",
        "application/sparql-results+xml",
        "text/csv",
        "text/tab-separated-values",
    ];
    let graphs = ["application/n-triples", "text/turtle"];
    let space = space(DurableStore::in_memory().unwrap());
    for endpoint in space.endpoints() {
        let desc = endpoint.describe();
        let inputs: Vec<&str> = desc.inputs.iter().map(|i| i.name.as_str()).collect();
        match endpoint {
            Endpoint::Query(query) => {
                assert_eq!(desc.verbs, [Verb::Source, Verb::Meta]);
                if query.scoped {
                    assert_eq!(desc.capability, CAP_READ_GRAPH);
                    assert_eq!(inputs, ["graph", "query", "bindings", "as"]);
                } else {
                    assert_eq!(desc.capability, CAP_READ);
                    assert_eq!(inputs, ["query", "bindings", "as"]);
                }
                if query.form.graph_shaped() {
                    assert_eq!(desc.outputs, graphs);
                } else {
                    assert_eq!(desc.outputs, results);
                }
                let selector = desc.inputs.last().unwrap();
                assert_eq!(selector.one_of, desc.outputs);
                assert_eq!(selector.default_value, Some(desc.outputs[0].clone()));
                assert!(!selector.required);
                assert!(desc.title.contains(query.form.keyword()), "{}", desc.title);
            }
            Endpoint::Info(_) => {
                assert_eq!(desc.verbs, [Verb::Source, Verb::Meta]);
                assert_eq!(desc.capability, CAP_READ);
                assert!(inputs.is_empty());
                assert_eq!(desc.outputs, ["text/plain"]);
            }
            Endpoint::Update(_) => {
                assert_eq!(desc.verbs, [Verb::Sink, Verb::Meta]);
                assert_eq!(desc.capability, CAP_WRITE);
                assert_eq!(inputs, ["content"]);
            }
            Endpoint::GraphUpdate(_) => {
                assert_eq!(desc.verbs, [Verb::Sink, Verb::Meta]);
                assert_eq!(desc.capability, CAP_WRITE_GRAPH);
                assert_eq!(inputs, ["content", "graph"]);
            }
            Endpoint::Load(_) => {
                assert_eq!(desc.verbs, [Verb::Sink, Verb::Meta]);
                assert_eq!(desc.capability, CAP_WRITE);
                assert_eq!(inputs, ["content", "format", "graph"]);
            }
        }
    }
}

#[test]
fn the_scopes_are_spelled_out() {
    assert_eq!(cap_read_graph(G), "urn:cap:store:read:graph:urn:example:acme");
    assert_eq!(cap_write_graph(G), "urn:cap:store:write:graph:urn:example:acme");
    assert_eq!(CAP_READ_GRAPH, cap_read_graph("*"));
    assert_eq!(CAP_WRITE_GRAPH, cap_write_graph("*"));
    assert_eq!(CAP_READ, "urn:cap:store:read");
    assert_eq!(CAP_WRITE, "urn:cap:store:write");
    assert_ne!(cap_read_graph(G), cap_read_graph(OTHER));
}

#[test]
fn a_verb_that_is_not_offered_is_refused_by_name() {
    let mut space = seeded();
    for iri in ["urn:iki:store:select", "urn:iki:store:info"] {
        let err = sink(&mut space, iri, &[]).unwrap_err();
        let id = iri.replace("urn:iki:store:", "store-");
        assert_eq!(
            err,
            Error::Endpoint(format!("{id} does not support the Sink verb"))
        );
    }
    for iri in [
        "urn:iki:store:update",
        "urn:iki:store:graph-update",
        "urn:iki:store:load",
    ] {
        let err = issue(&mut space, Verb::Delete, iri, &[], &Capability::root()).unwrap_err();
        let id = iri.replace("urn:iki:store:", "store-");
        assert_eq!(
            err.message(),
            format!("endpoint error: {id} does not support the Delete verb")
        );
    }
}

#[test]
fn an_argument_must_be_there_be_given_by_value_and_be_text() {
    let mut space = seeded();
    let err = source(&mut space, "urn:iki:store:select", &[]).unwrap_err();
    assert_eq!(err, Error::MissingArgument("query".to_string()));
    assert_eq!(err.message(), "missing required argument `query`");

    let root = Capability::root();
    let mut ask = |arg: Arg| {
        let asked = Invocation {
            verb: Verb::Source,
            args: vec![("query".to_string(), arg)],
            capability: &root,
        };
        space.invoke("urn:iki:store:ask", &asked).unwrap()
    };
    assert_eq!(
        ask(Arg::Other).unwrap_err().message(),
        "invalid argument `query`: expected an inline value"
    );
    assert_eq!(
        ask(Arg::Inline(vec![0x41, 0xff])).unwrap_err().message(),
        "invalid argument `query`: not valid UTF-8"
    );
    assert!(ask(Arg::Inline(b"ASK {}".to_vec())).is_ok());
}

#[test]
fn an_argument_that_may_be_left_out_is_refused_where_it_is_no_text() {
    let mut space = seeded();
    let root = Capability::root();
    let mut send = |verb: Verb, iri: &str, given: &[(&str, &str)], name: &str, arg: Arg| {
        let mut args: Vec<(String, Arg)> = given
            .iter()
            .map(|(name, value)| (name.to_string(), Arg::Inline(value.as_bytes().to_vec())))
            .collect();
        args.push((name.to_string(), arg));
        let asked = Invocation {
            verb,
            args,
            capability: &root,
        };
        space.invoke(iri, &asked).unwrap()
    };
    let cases: [(Verb, &str, &[(&str, &str)], &str); 6] = [
        (Verb::Source, "urn:iki:store:select", &[("query", "SELECT * { ?s ?p ?o }")], "bindings"),
        (Verb::Source, "urn:iki:store:select", &[("query", "SELECT * { ?s ?p ?o }")], "as"),
        (
            Verb::Source,
            "urn:iki:store:graph-ask",
            &[("query", "ASK { ?s ?p ?o }"), ("graph", G)],
            "bindings",
        ),
        (Verb::Source, "urn:iki:store:construct", &[("query", "CONSTRUCT WHERE { ?s ?p ?o }")], "as"),
        (Verb::Sink, "urn:iki:store:load", &[("content", "<urn:n> <urn:p> 1 .")], "format"),
        (Verb::Sink, "urn:iki:store:load", &[("content", "<urn:n> <urn:p> 1 .")], "graph"),
    ];
    for (verb, iri, given, name) in cases {
        let err = send(verb, iri, given, name, Arg::Inline(vec![0xff])).unwrap_err();
        assert_eq!(
            err.message(),
            format!("invalid argument `{name}`: not valid UTF-8"),
            "{iri}"
        );
        let err = send(verb, iri, given, name, Arg::Other).unwrap_err();
        assert_eq!(
            err.message(),
            format!("invalid argument `{name}`: expected an inline value"),
            "{iri}"
        );
    }
    for iri in ["urn:iki:store:update", "urn:iki:store:graph-update"] {
        let given = [("content", "DROP ALL"), ("graph", G)];
        for arg in [Arg::Inline(vec![0xff]), Arg::Other, Arg::Inline(b"{}".to_vec())] {
            let err = send(Verb::Sink, iri, &given, "bindings", arg).unwrap_err();
            let expected = format!("invalid argument `bindings`: `{iri}` takes a SPARQL UPDATE");
            assert!(err.message().starts_with(&expected), "{err:?}");
        }
    }
    let info = source(&mut space, "urn:iki:store:info", &[]).unwrap();
    assert_eq!(text(info), "backing: memory\nquads: 3\ncovered: true\n");
}

// ----------------------------------------------------------------------- the answers

#[test]
fn a_select_answers_in_each_declared_output() {
    let mut space = seeded();
    let query = format!("SELECT ?s ?o WHERE {{ GRAPH <{G}> {{ ?s ?p ?o }} }}");
    let mut ask = |kind: &str| {
        source(
            &mut space,
            "urn:iki:store:select",
            &[("query", &query), ("as", kind)],
        )
        .unwrap()
    };
    let csv = ask("text/csv");
    assert_eq!(csv.media_type, "text/csv");
    assert_eq!(csv.charset, "utf-8");
    assert_eq!(text(csv), "s,o\r\nurn:a:1,acme\r\n");
    let tsv = ask("text/tab-separated-values");
    assert_eq!(tsv.media_type, "text/tab-separated-values");
    assert_eq!(text(tsv), "?s\t?o\n<urn:a:1>\t\"acme\"\n");
    let json = ask("application/sparql-results+json");
    assert_eq!(json.media_type, "application/sparql-results+json");
    assert_eq!(
        text(json),
        "{\"head\":{\"vars\":[\"s\",\"o\"]},\"results\":{\"bindings\":[{\"s\":{\"type\":\"uri\",\
         \"value\":\"urn:a:1\"},\"o\":{\"type\":\"literal\",\"value\":\"acme\"}}]}}"
    );
    let xml = ask("application/sparql-results+xml");
    assert_eq!(xml.media_type, "application/sparql-results+xml");
    assert!(text(xml).contains("<uri>urn:a:1</uri>"));
    assert_eq!(ask("text/csv; charset=utf-8").media_type, "text/csv");
}

#[test]
fn the_defaults_are_json_and_n_triples() {
    let mut space = seeded();
    let ask = source(&mut space, "urn:iki:store:ask", &[("query", "ASK { ?s ?p ?o }")]).unwrap();
    assert_eq!(ask.media_type, "application/sparql-results+json");
    assert_eq!(text(ask), "{\"head\":{},\"boolean\":true}");
    let query = format!("CONSTRUCT {{ ?s <urn:q> ?o }} WHERE {{ GRAPH <{G}> {{ ?s ?p ?o }} }}");
    let graph = source(&mut space, "urn:iki:store:construct", &[("query", &query)]).unwrap();
    assert_eq!(graph.media_type, "application/n-triples");
    assert_eq!(text(graph), "<urn:a:1> <urn:q> \"acme\" .\n");
}

#[test]
fn an_as_outside_the_declared_outputs_is_refused() {
    let mut space = seeded();
    for kind in ["text/turtle", "application/json+nonsense", "", "text/html"] {
        let err = source(
            &mut space,
            "urn:iki:store:select",
            &[("query", "SELECT * { ?s ?p ?o }"), ("as", kind)],
        )
        .unwrap_err();
        assert_eq!(
            err.message(),
            format!(
                "invalid argument `as`: SELECT/ASK cannot answer in `{kind}` — one of \
                 application/sparql-results+json, application/sparql-results+xml, text/csv, \
                 text/tab-separated-values. A graph syntax is not among them: only CONSTRUCT and \
                 DESCRIBE answer with a graph"
            )
        );
    }
    for kind in [
        "text/csv",
        "application/n-quads",
        "application/rdf+xml",
        "application/ld+json;profile=\"",
        "application/ld+json; profile = \"",
    ] {
        let err = source(
            &mut space,
            "urn:iki:store:construct",
            &[
                ("query", "CONSTRUCT { ?s ?p ?o } WHERE { ?s ?p ?o }"),
                ("as", kind),
            ],
        )
        .unwrap_err();
        assert_eq!(
            err.message(),
            format!(
                "invalid argument `as`: CONSTRUCT/DESCRIBE cannot answer in `{kind}` — one of \
                 application/n-triples, text/turtle"
            )
        );
    }
}

#[test]
fn a_covered_read_depends_on_every_write_and_a_write_on_nothing() {
    let mut space = seeded();
    let read = source(&mut space, "urn:iki:store:ask", &[("query", "ASK {}")]).unwrap();
    assert!(read.cacheable);
    assert_eq!(read.threads, THREADS);
    let info = source(&mut space, "urn:iki:store:info", &[]).unwrap();
    assert!(info.cacheable);
    assert_eq!(info.threads, THREADS);
    assert_eq!(text(info), "backing: memory\nquads: 3\ncovered: true\n");
    let write = sink(&mut space, "urn:iki:store:update", &[("content", "CLEAR ALL")]).unwrap();
    assert!(!write.cacheable);
    assert!(write.threads.is_empty());
    assert_eq!(write.media_type, "text/plain");
}

#[test]
fn a_read_of_a_shared_store_is_never_kept() {
    let (store, handle) = DurableStore::in_memory_shared().unwrap();
    let mut space = space(store);
    let read = source(&mut space, "urn:iki:store:ask", &[("query", "ASK {}")]).unwrap();
    assert!(!read.cacheable);
    assert!(read.threads.is_empty());
    drop(handle);
    let info = source(&mut space, "urn:iki:store:info", &[]).unwrap();
    assert!(!info.cacheable && info.threads.is_empty());
    let rep = with_freshness("text/plain".to_string(), Vec::new(), true);
    assert_eq!(rep.threads, THREADS);
}

#[test]
fn a_query_of_another_shape_is_told_where_to_go() {
    let mut space = seeded();
    let err = source(
        &mut space,
        "urn:iki:store:describe",
        &[("query", "ASK { ?s ?p ?o }")],
    )
    .unwrap_err();
    assert_eq!(
        err.message(),
        "invalid argument `query`: this is `urn:iki:store:describe`, which answers with a graph; \
         that query answers with a result set. Resolve the IRI for its form instead"
    );
}

#[test]
fn what_is_answered_follows_from_how_the_evaluation_ended() {
    let ask = QueryEndpoint {
        form: Form::Ask,
        scoped: false,
    };
    let none = Vec::new();
    let rep = ask
        .answer(Ok(Answer::Boolean(false)), &none, None, false)
        .unwrap();
    assert_eq!(text(rep), "{\"head\":{},\"boolean\":false}");
    let err = ask
        .answer(Ok(Answer::Graph(Vec::new())), &none, None, true)
        .unwrap_err();
    assert!(err.message().contains("answers with a graph"), "{err:?}");
    let err = ask
        .answer(Err("out of memory".to_string()), &none, None, true)
        .unwrap_err();
    assert_eq!(err, Error::Endpoint("query: out of memory".to_string()));
    let broken = Answer::Graph(vec![Err("disk".to_string())]);
    let describe = QueryEndpoint {
        form: Form::Describe,
        scoped: true,
    };
    let err = describe.answer(Ok(broken), &none, None, true).unwrap_err();
    assert!(err.message().contains("disk"), "{err:?}");
}

// -------------------------------------------------------------------------- bindings

#[test]
fn a_binding_filters_and_an_empty_one_does_nothing() {
    let mut space = seeded();
    let query = "SELECT * WHERE { GRAPH ?g { ?s ?p ?o } }";
    let mut ask = |bindings: &str| {
        let args = [("query", query), ("bindings", bindings), ("as", "text/csv")];
        text(source(&mut space, "urn:iki:store:select", &args).unwrap())
            .lines()
            .count()
            - 1
    };
    assert_eq!(ask("{}"), 2);
    assert_eq!(ask(r#"{"o": "acme"}"#), 1);
    assert_eq!(ask(r#"{"o": "acme", "s": {"type":"uri","value":"urn:a:1"}}"#), 1);
    assert_eq!(ask(r#"{"o": "acme", "s": {"type":"uri","value":"urn:z:1"}}"#), 0);
    assert_eq!(ask(r#"{"g": {"type":"uri","value":"urn:example:zenith"}}"#), 1);
}

#[test]
fn a_name_that_no_variable_can_have_is_refused() {
    let mut space = seeded();
    let args = [("query", "SELECT * WHERE { ?s ?p ?o }"), ("bindings", "{\"\u{b2}\": \"x\"}")];
    let err = source(&mut space, "urn:iki:store:select", &args).unwrap_err();
    let text = err.message();
    assert!(
        text.starts_with("invalid argument `bindings`: `\u{b2}` is not a variable name: "),
        "{text}"
    );
}

#[test]
fn the_refusal_of_an_unprojected_binding_counts_and_names_what_was_bound() {
    let bound = ikigai_store::sparql::parse_bindings(r#"{"a": "x", "b": 1}"#).unwrap();
    let err = query_error("not in the projection", &bound).message();
    assert!(err.contains("fewer than the 2 bound here (?a, ?b)"), "{err}");
    assert_eq!(
        query_error("not in the projection", &Vec::new()),
        Error::Endpoint("query: not in the projection".to_string())
    );
    assert_eq!(
        query_error("something else", &bound),
        Error::Endpoint("query: something else".to_string())
    );
}

// ---------------------------------------------------------------------- scoped reads

#[test]
fn a_scoped_read_without_its_grant_is_refused_before_the_query_is_read() {
    let mut space = seeded();
    let grant = cap_read_graph(OTHER);
    let broad = Capability::scoped([CAP_READ.to_string(), CAP_READ_GRAPH.to_string(), grant]);
    let err = issue(
        &mut space,
        Verb::Source,
        "urn:iki:store:graph-select",
        &[("graph", G), ("query", "this is no query")],
        &broad,
    )
    .unwrap_err();
    assert_eq!(
        err.message(),
        "denied: reading graph <urn:example:acme> through `urn:iki:store:graph-select` needs the \
         grant `urn:cap:store:read:graph:urn:example:acme`, which this capability does not hold. A \
         grant names exactly one graph; holding `urn:cap:store:read` does not imply it, and is \
         instead the authority for `urn:iki:store:select` over the whole dataset"
    );
}

#[test]
fn a_scoped_read_of_a_graph_that_is_not_there_answers_with_nothing() {
    let mut space = seeded();
    let args = [
        ("graph", "urn:example:nobody"),
        ("query", "SELECT ?s WHERE { ?s ?p ?o }"),
        ("as", "text/csv"),
    ];
    let rep = source(&mut space, "urn:iki:store:graph-select", &args).unwrap();
    assert_eq!(text(rep), "s\r\n");
}

// --------------------------------------------------------------------- scoped writes

#[test]
fn a_scoped_write_reports_what_came_and_what_went() {
    let mut space = seeded();
    let update = format!(
        "DELETE {{ GRAPH <{G}> {{ ?s <urn:p> ?o }} }} \
         INSERT {{ GRAPH <{G}> {{ ?s <urn:p> \"one\", \"two\" }} }} \
         WHERE {{ GRAPH <{G}> {{ ?s <urn:p> ?o }} }}"
    );
    let args = [("graph", G), ("content", update.as_str())];
    let rep = sink(&mut space, "urn:iki:store:graph-update", &args).unwrap();
    assert_eq!(text(rep), "updated <urn:example:acme>: +2 -1 quads\n");
    assert_eq!(count(&mut space, G), 2);
    assert_eq!(count(&mut space, OTHER), 1);
    let info = source(&mut space, "urn:iki:store:info", &[]).unwrap();
    assert_eq!(text(info), "backing: memory\nquads: 4\ncovered: true\n");
}

#[test]
fn a_scoped_write_settles_the_registration_of_its_graph() {
    let mut space = seeded();
    let graphs = |space: &mut Space| {
        let args = [("query", "SELECT ?g WHERE { GRAPH ?g {} }"), ("as", "text/csv")];
        let mut rows: Vec<String> = text(source(space, "urn:iki:store:select", &args).unwrap())
            .lines()
            .skip(1)
            .map(str::to_string)
            .collect();
        rows.sort();
        rows
    };
    assert_eq!(graphs(&mut space), [G, OTHER]);
    sink(
        &mut space,
        "urn:iki:store:graph-update",
        &[("graph", G), ("content", "CLEAR ALL")],
    )
    .unwrap();
    assert_eq!(graphs(&mut space), [G, OTHER]);
    sink(
        &mut space,
        "urn:iki:store:graph-update",
        &[("graph", G), ("content", "DROP ALL")],
    )
    .unwrap();
    assert_eq!(graphs(&mut space), [OTHER]);
    let create = format!("CREATE GRAPH <{G}>");
    let rep = sink(
        &mut space,
        "urn:iki:store:graph-update",
        &[("graph", G), ("content", &create)],
    )
    .unwrap();
    assert_eq!(text(rep), "updated <urn:example:acme>: +0 -0 quads\n");
    assert_eq!(graphs(&mut space), [G, OTHER]);
}

#[test]
fn a_scoped_write_without_its_grant_changes_nothing() {
    let mut space = seeded();
    let held = [CAP_WRITE.to_string(), CAP_WRITE_GRAPH.to_string(), cap_write_graph(OTHER)];
    let err = issue(
        &mut space,
        Verb::Sink,
        "urn:iki:store:graph-update",
        &[("graph", G), ("content", "DROP ALL")],
        &Capability::scoped(held),
    )
    .unwrap_err();
    assert_eq!(
        err.message(),
        "denied: writing graph <urn:example:acme> through `urn:iki:store:graph-update` needs the \
         grant `urn:cap:store:write:graph:urn:example:acme`, which this capability does not hold. \
         A grant names exactly one graph; holding `urn:cap:store:write` does not imply it, and is \
         instead the authority for `urn:iki:store:update` over the whole dataset"
    );
    assert_eq!(count(&mut space, G), 1);
}

#[test]
fn a_scoped_write_that_escapes_names_the_statement_or_the_graph() {
    let mut space = seeded();
    let update = "INSERT DATA { <urn:x> <urn:p> \"stray\" }";
    let err = sink(
        &mut space,
        "urn:iki:store:graph-update",
        &[("graph", G), ("content", update)],
    )
    .unwrap_err();
    assert_eq!(
        err.message(),
        "denied: this write is scoped to graph <urn:example:acme> and the update would have \
         written the DEFAULT graph (`<urn:x> <urn:p> \"stray\"`). Nothing was applied. A statement \
         with no `GRAPH` block goes to the default graph, which is not the scoped graph — wrap it \
         in `GRAPH <urn:example:acme> { … }`, or hold `urn:cap:store:write` and use \
         `urn:iki:store:update`"
    );
    let create = format!("CREATE GRAPH <{OTHER}>");
    let err = sink(
        &mut space,
        "urn:iki:store:graph-update",
        &[("graph", G), ("content", &create)],
    )
    .unwrap_err();
    assert_eq!(
        err.message(),
        "denied: this write is scoped to graph <urn:example:acme> and the update created graph \
         <urn:example:zenith>. Nothing was applied. Creating or dropping another graph needs \
         `urn:cap:store:write`"
    );
    assert_eq!(count(&mut space, G), 1);
    assert_eq!(count(&mut space, OTHER), 1);
}

#[test]
fn an_update_that_is_none_names_its_argument() {
    let mut space = seeded();
    for args in [
        vec![("content", "SELECT * { ?s ?p ?o }")],
        vec![("content", "SELECT * { ?s ?p ?o }"), ("graph", G)],
    ] {
        let iri = if args.len() == 1 {
            "urn:iki:store:update"
        } else {
            "urn:iki:store:graph-update"
        };
        let err = sink(&mut space, iri, &args).unwrap_err().message();
        assert!(
            err.starts_with("invalid argument `content`: not a SPARQL update: "),
            "{err}"
        );
    }
    let err = sink(
        &mut space,
        "urn:iki:store:update",
        &[("content", "LOAD <http://example.invalid/doc>")],
    )
    .unwrap_err();
    assert!(err.message().starts_with("endpoint error: update: "), "{err:?}");
    assert_eq!(count(&mut space, G), 1);
}

#[test]
fn an_update_of_several_operations_is_one_whole() {
    let mut space = seeded();
    for iri in ["urn:iki:store:update", "urn:iki:store:graph-update"] {
        let content = format!("INSERT DATA {{ GRAPH <{G}> {{ <urn:b> <urn:p> 1 }} }} ; INSERT DAT");
        let args = [("graph", G), ("content", content.as_str())];
        assert!(sink(&mut space, iri, &args).is_err());
        assert_eq!(count(&mut space, G), 1);
        let content = format!("CLEAR GRAPH <{G}> ; DROP GRAPH <urn:example:nobody>");
        let args = [("graph", G), ("content", content.as_str())];
        assert!(sink(&mut space, iri, &args).is_err());
        assert_eq!(count(&mut space, G), 1);
    }
}

#[test]
fn a_value_comes_back_in_its_canonical_form_and_binds_again() {
    let mut space = space(DurableStore::in_memory().unwrap());
    let datatype = "http://www.w3.org/2001/XMLSchema#dateTime";
    let content = format!("<urn:a> <urn:at> \"2026-09-13T00:00:00.000Z\"^^<{datatype}> .");
    sink(&mut space, "urn:iki:store:load", &[("content", &content)]).unwrap();
    let query = "SELECT ?s ?at WHERE { ?s <urn:at> ?at }";
    let rows = text(source(&mut space, "urn:iki:store:select", &[("query", query)]).unwrap());
    let value =
        format!("{{\"type\":\"literal\",\"value\":\"2026-09-13T00:00:00Z\",\"datatype\":\"{datatype}\"}}");
    assert!(rows.contains(&value), "{rows}");
    let bindings = format!("{{\"at\": {value}}}");
    let args = [("query", query), ("bindings", bindings.as_str()), ("as", "text/csv")];
    let rows = text(source(&mut space, "urn:iki:store:select", &args).unwrap());
    assert_eq!(rows, "s,at\r\nurn:a,2026-09-13T00:00:00Z\r\n");
}

// ------------------------------------------------------------------------------ load

#[test]
fn a_load_reports_the_counts_and_takes_nothing_away() {
    let mut space = seeded();
    let rep = sink(
        &mut space,
        "urn:iki:store:load",
        &[("content", "<urn:n> <urn:p> 1 , 2 .")],
    )
    .unwrap();
    assert_eq!(text(rep), "loaded text/turtle: 3 -> 5 quads\n");
    let rep = sink(
        &mut space,
        "urn:iki:store:load",
        &[
            ("content", "<urn:n> <urn:p> \"q\" <urn:example:acme> .\n"),
            ("format", "application/n-quads"),
        ],
    )
    .unwrap();
    assert_eq!(text(rep), "loaded application/n-quads: 5 -> 6 quads\n");
    assert_eq!(count(&mut space, G), 2);
    let rep = sink(
        &mut space,
        "urn:iki:store:load",
        &[("content", "<urn:n> <urn:p> 3 ."), ("graph", OTHER)],
    )
    .unwrap();
    assert_eq!(text(rep), "loaded text/turtle: 6 -> 7 quads\n");
    assert_eq!(count(&mut space, OTHER), 2);
}

#[test]
fn each_declared_syntax_is_loaded() {
    let documents = [
        "<urn:n> <urn:p> \"1\" .",
        "<urn:n> <urn:p> \"2\" .\n",
        "<urn:n> <urn:p> \"3\" <urn:example:acme> .\n",
        "GRAPH <urn:example:acme> { <urn:n> <urn:p> \"4\" }",
        "<rdf:RDF xmlns:rdf=\"http://www.w3.org/1999/02/22-rdf-syntax-ns#\" xmlns:u=\"urn:\">\
         <rdf:Description rdf:about=\"urn:n\"><u:p>5</u:p></rdf:Description></rdf:RDF>",
    ];
    let mut space = space(DurableStore::in_memory().unwrap());
    for (i, format) in LOAD_FORMATS.iter().enumerate() {
        let args = [("content", documents[i]), ("format", format), ("graph", OTHER)];
        let rep = sink(&mut space, "urn:iki:store:load", &args).unwrap();
        assert_eq!(
            text(rep),
            format!("loaded {format}: {i} -> {} quads\n", i + 1)
        );
    }
    assert_eq!(count(&mut space, OTHER), 3);
    assert_eq!(count(&mut space, G), 2);
}

#[test]
fn a_graph_is_ignored_for_a_syntax_that_names_its_own() {
    let mut space = space(DurableStore::in_memory().unwrap());
    let root = Capability::root();
    for (format, content) in [
        (
            "application/n-quads",
            "<urn:n> <urn:p> \"1\" .\n<urn:n> <urn:p> \"2\" <urn:example:acme> .\n",
        ),
        (
            "application/trig",
            "<urn:n> <urn:p> \"3\" . GRAPH <urn:example:acme> { <urn:n> <urn:p> \"4\" }",
        ),
    ] {
        let args = [("content", content), ("format", format), ("graph", OTHER)];
        issue(&mut space, Verb::Sink, "urn:iki:store:load", &args, &root).unwrap();
    }
    assert_eq!(count(&mut space, OTHER), 0);
    assert_eq!(count(&mut space, G), 2);
    let args = [("query", "SELECT ?o WHERE { ?s ?p ?o } ORDER BY ?o"), ("as", "text/csv")];
    let rows = text(source(&mut space, "urn:iki:store:select", &args).unwrap());
    assert_eq!(rows, "o\r\n1\r\n3\r\n");
    let args = [("content", ""), ("format", "application/trig"), ("graph", "no iri")];
    let err = sink(&mut space, "urn:iki:store:load", &args).unwrap_err();
    assert!(err.message().starts_with("invalid argument `graph`: "), "{err:?}");
}

#[test]
fn what_the_store_reports_is_handed_on_in_its_own_words() {
    assert!(evaluated(Ok(())).is_ok());
    for failure in [
        Failure::Refused("no such graph".to_string()),
        Failure::Storage("no such graph".to_string()),
    ] {
        assert_eq!(
            evaluated(Err(failure)).unwrap_err(),
            Error::Endpoint("update: no such graph".to_string())
        );
    }
    assert_eq!(counted(Ok(7)).unwrap(), 7);
    assert_eq!(
        counted(Err("disk".to_string())).unwrap_err(),
        Error::Endpoint("counting quads: disk".to_string())
    );
    assert!(LoadEndpoint.taken("text/turtle", Ok(())).is_ok());
    let refused = LoadEndpoint.taken("text/turtle", Err(Failure::Refused("line 1".to_string())));
    assert_eq!(
        refused.unwrap_err().message(),
        "invalid argument `content`: parsing text/turtle: line 1"
    );
    assert_eq!(text(UpdateEndpoint.report(3, 12)), "updated: 3 -> 12 quads\n");
    assert_eq!(
        text(LoadEndpoint.report("text/turtle", 0, 2)),
        "loaded text/turtle: 0 -> 2 quads\n"
    );
    let applied = Applied {
        added: 1,
        removed: 20,
    };
    assert_eq!(
        text(GraphUpdateEndpoint.report(&NamedNode::new(G).unwrap(), &applied)),
        "updated <urn:example:acme>: +1 -20 quads\n"
    );
}

#[test]
fn a_confined_update_is_decided_by_what_it_does() {
    let mut dataset = Dataset::new().unwrap();
    let (graph, other) = (NamedNode::new(G).unwrap(), NamedNode::new(OTHER).unwrap());
    let mut run = |graph: &NamedNode, update: &str| scoped_update(&mut dataset, graph, update);
    let insert = format!("INSERT DATA {{ GRAPH <{G}> {{ <urn:a> <urn:p> 1 , 2 }} }}");
    let applied = run(&graph, &insert).ok().unwrap();
    assert_eq!((applied.added, applied.removed), (2, 0));
    let applied = run(&graph, &insert).ok().unwrap();
    assert_eq!((applied.added, applied.removed), (0, 0));

    let twice = format!("CLEAR GRAPH <{G}> ; INSERT DATA {{ <urn:a> <urn:p> 1 }}");
    assert!(matches!(run(&graph, &twice), Err(Error::Denied(_))));
    let create = format!("CREATE GRAPH <{OTHER}>");
    assert!(matches!(run(&graph, &create), Err(Error::Denied(_))));
    let bad = run(&graph, "INSERT DAT").err().unwrap();
    assert!(bad.message().starts_with("invalid argument `content`: not a SPARQL update: "));
    let refused = run(&graph, "DROP GRAPH <urn:nobody>").err().unwrap();
    assert!(refused.message().starts_with("endpoint error: update: "));

    let applied = run(&other, "DROP ALL").ok().unwrap();
    assert_eq!((applied.added, applied.removed), (0, 0));
    let applied = run(&graph, "DROP ALL").ok().unwrap();
    assert_eq!((applied.added, applied.removed), (0, 2));
}

#[test]
fn of_several_reasons_for_a_refusal_any_may_be_given() {
    let mut space = seeded();
    let twice = "INSERT DATA { _:a <urn:p> <urn:o> . _:b <urn:p> <urn:o> } ; \
                 INSERT DATA { _:a <urn:p> <urn:o> . _:b <urn:p> <urn:o> }";
    for iri in ["urn:iki:store:update", "urn:iki:store:graph-update"] {
        let args = [("content", twice), ("graph", G)];
        let err = sink(&mut space, iri, &args).unwrap_err().message();
        assert!(
            err.starts_with("invalid argument `content`: not a SPARQL update: "),
            "{err}"
        );
    }
    let json = "{\"@context\": {\"@type\": \"urn:t\", \"@value\": \"urn:v\"}, \"@id\": \"urn:n\"}";
    let args = [("content", json), ("format", "application/ld+json")];
    let err = sink(&mut space, "urn:iki:store:load", &args).unwrap_err().message();
    assert!(
        err.starts_with("invalid argument `content`: parsing application/ld+json: "),
        "{err}"
    );
    let info = source(&mut space, "urn:iki:store:info", &[]).unwrap();
    assert_eq!(text(info), "backing: memory\nquads: 3\ncovered: true\n");
}

#[test]
fn a_shared_store_is_read_and_written_where_its_handle_is() {
    let (store, handle) = DurableStore::in_memory_shared().unwrap();
    let mut space = space(store);
    let nquads = format!("<urn:z> <urn:p> \"1\" <{OTHER}> .\n<urn:h> <urn:p> \"2\" .\n");
    handle
        .load_from_slice(oxigraph::io::RdfFormat::NQuads, nquads.as_bytes())
        .unwrap();
    let info = text(source(&mut space, "urn:iki:store:info", &[]).unwrap());
    assert_eq!(info, "backing: memory\nquads: 2\ncovered: false\n");
    assert_eq!(count(&mut space, OTHER), 1);

    let insert = format!("INSERT DATA {{ GRAPH <{G}> {{ <urn:a> <urn:p> 1 , 2 }} }}");
    let args = [("content", insert.as_str()), ("graph", G)];
    let rep = sink(&mut space, "urn:iki:store:graph-update", &args).unwrap();
    assert_eq!(text(rep), "updated <urn:example:acme>: +2 -0 quads\n");
    assert_eq!(handle.len().unwrap(), 4);
    let args = [("content", "DROP ALL"), ("graph", G)];
    let rep = sink(&mut space, "urn:iki:store:graph-update", &args).unwrap();
    assert_eq!(text(rep), "updated <urn:example:acme>: +0 -2 quads\n");
    assert_eq!(handle.len().unwrap(), 2);
    let escape = format!("DROP ALL ; INSERT DATA {{ GRAPH <{OTHER}> {{ <urn:a> <urn:p> 1 }} }}");
    let args = [("content", escape.as_str()), ("graph", G)];
    let err = sink(&mut space, "urn:iki:store:graph-update", &args).unwrap_err();
    assert!(matches!(err, Error::Denied(_)), "{err:?}");
    assert_eq!(handle.len().unwrap(), 2);

    let rep = sink(&mut space, "urn:iki:store:load", &[("content", "<urn:n> <urn:p> 3 .")]);
    assert_eq!(text(rep.unwrap()), "loaded text/turtle: 2 -> 3 quads\n");
    assert_eq!(handle.len().unwrap(), 3);
    let rep = sink(&mut space, "urn:iki:store:update", &[("content", "DROP ALL")]);
    assert_eq!(text(rep.unwrap()), "updated: 3 -> 0 quads\n");
    assert!(handle.is_empty().unwrap());
}

#[test]
fn a_document_that_breaks_off_loads_nothing() {
    let mut space = seeded();
    let err = sink(
        &mut space,
        "urn:iki:store:load",
        &[("content", "<urn:n> <urn:p> 1 . <urn:m> ")],
    )
    .unwrap_err();
    assert!(
        err.message().starts_with("invalid argument `content`: parsing text/turtle: "),
        "{err:?}"
    );
    let info = source(&mut space, "urn:iki:store:info", &[]).unwrap();
    assert_eq!(text(info), "backing: memory\nquads: 3\ncovered: true\n");
}

#[test]
fn a_syntax_that_is_not_known_is_refused() {
    let mut space = seeded();
    for format in ["text/csv", "nonsense", "application/ld+json;profile=\""] {
        let err = sink(
            &mut space,
            "urn:iki:store:load",
            &[("content", ""), ("format", format)],
        )
        .unwrap_err();
        assert_eq!(
            err.message(),
            format!(
                "invalid argument `format`: unknown RDF syntax `{format}` — one of text/turtle, \
                 application/n-triples, application/n-quads, application/trig, application/rdf+xml"
            )
        );
    }
}
