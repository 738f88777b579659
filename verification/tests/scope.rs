//! A query confined to one graph sees that graph and nothing else, whatever its shape.

use ikigai_store::scope::{confine, names_its_own_dataset};
use ikigai_store::sparql::NamedNode;
use oxigraph::sparql::{QueryResults, SparqlEvaluator};
use oxigraph::store::Store;

const G: &str = "urn:example:acme";
const OTHER: &str = "urn:example:zenith";

fn store() -> Store {
    let store = Store::new().unwrap();
    store
        .load_from_reader(
            oxigraph::io::RdfFormat::NQuads,
            format!(
                "<urn:example:acme:1> <urn:p> \"acme\" <{G}> .\n\
                 <urn:example:zenith:1> <urn:p> \"zenith\" <{OTHER}> .\n\
                 <urn:example:host:1> <urn:p> \"host\" .\n"
            )
            .as_bytes(),
        )
        .unwrap();
    store
}

fn scoped(store: &Store, query: &str) -> Vec<String> {
    rows(store, query, true)
}

fn unscoped(store: &Store, query: &str) -> Vec<String> {
    rows(store, query, false)
}

fn rows(store: &Store, query: &str, confined: bool) -> Vec<String> {
    let mut prepared = SparqlEvaluator::new().parse_query(query).unwrap();
    if confined {
        confine(&mut prepared, &NamedNode::new(G).unwrap());
    }
    let QueryResults::Solutions(solutions) = prepared.on_store(store).execute().unwrap() else {
        panic!("not a solution set");
    };
    let mut out: Vec<String> = solutions
        .map(|s| {
            let s = s.unwrap();
            s.iter()
                .map(|(v, t)| format!("{}={t}", v.as_str()))
                .collect::<Vec<_>>()
                .join(" ")
        })
        .collect();
    out.sort();
    out
}

fn triples(store: &Store, query: &str, confined: bool) -> Vec<String> {
    let mut prepared = SparqlEvaluator::new().parse_query(query).unwrap();
    if confined {
        confine(&mut prepared, &NamedNode::new(G).unwrap());
    }
    let QueryResults::Graph(graph) = prepared.on_store(store).execute().unwrap() else {
        panic!("not a graph");
    };
    let mut out: Vec<String> = graph.map(|t| t.unwrap().to_string()).collect();
    out.sort();
    out
}

#[test]
fn a_bare_pattern_reads_the_permitted_graph_and_only_it() {
    let store = store();
    let query = "SELECT ?s WHERE { ?s ?p ?o }";
    assert_eq!(scoped(&store, query), ["s=<urn:example:acme:1>"]);
    assert_eq!(unscoped(&store, query), ["s=<urn:example:host:1>"]);
}

#[test]
fn a_graph_block_naming_another_tenant_matches_nothing() {
    let store = store();
    assert_eq!(
        scoped(
            &store,
            &format!("SELECT ?s WHERE {{ GRAPH <{G}> {{ ?s ?p ?o }} }}")
        ),
        ["s=<urn:example:acme:1>"],
        "the permitted graph must still answer through a GRAPH block"
    );
    assert!(
        scoped(
            &store,
            &format!("SELECT ?s WHERE {{ GRAPH <{OTHER}> {{ ?s ?p ?o }} }}")
        )
        .is_empty(),
        "another tenant's graph was readable by naming it"
    );
    assert_eq!(
        unscoped(
            &store,
            &format!("SELECT ?s WHERE {{ GRAPH <{OTHER}> {{ ?s ?p ?o }} }}")
        ),
        ["s=<urn:example:zenith:1>"],
        "the control: unconfined, that query does return the other tenant"
    );
}

#[test]
fn a_variable_graph_enumerates_only_the_permitted_set() {
    let store = store();
    let query = "SELECT ?g WHERE { GRAPH ?g { ?s ?p ?o } }";
    assert_eq!(scoped(&store, query), [format!("g=<{G}>")]);
    assert_eq!(
        unscoped(&store, query),
        [format!("g=<{G}>"), format!("g=<{OTHER}>")]
    );
}

#[test]
fn enumerating_graph_names_is_confined_as_well() {
    let store = store();
    let query = "SELECT ?g WHERE { GRAPH ?g {} }";
    assert_eq!(scoped(&store, query), [format!("g=<{G}>")]);
    assert_eq!(
        unscoped(&store, query),
        [format!("g=<{G}>"), format!("g=<{OTHER}>")]
    );
}

#[test]
fn a_from_clause_cannot_widen_the_confinement() {
    let store = store();
    for query in [
        format!("SELECT ?s FROM <{OTHER}> WHERE {{ ?s ?p ?o }}"),
        format!("SELECT ?s FROM <{G}> FROM <{OTHER}> WHERE {{ ?s ?p ?o }}"),
        format!("SELECT ?s FROM NAMED <{OTHER}> WHERE {{ GRAPH <{OTHER}> {{ ?s ?p ?o }} }}"),
    ] {
        let scoped_rows = scoped(&store, &query);
        assert!(
            !scoped_rows.iter().any(|r| r.contains("zenith")),
            "`{query}` reached the other tenant: {scoped_rows:?}"
        );
    }
    assert_eq!(
        unscoped(
            &store,
            &format!("SELECT ?s FROM <{OTHER}> WHERE {{ ?s ?p ?o }}")
        ),
        ["s=<urn:example:zenith:1>"]
    );
}

#[test]
fn a_dataset_clause_is_detected_exactly() {
    for (query, named) in [
        ("SELECT ?s WHERE { ?s ?p ?o }", false),
        ("SELECT ?s WHERE { GRAPH ?g { ?s ?p ?o } }", false),
        ("ASK { ?s ?p ?o }", false),
        ("DESCRIBE <urn:example:acme:1>", false),
        ("CONSTRUCT { ?s ?p ?o } WHERE { ?s ?p ?o }", false),
        (
            "SELECT ?s FROM <urn:example:zenith> WHERE { ?s ?p ?o }",
            true,
        ),
        (
            "SELECT ?s FROM NAMED <urn:example:zenith> WHERE { GRAPH ?g { ?s ?p ?o } }",
            true,
        ),
        ("DESCRIBE <urn:x> FROM <urn:example:zenith>", true),
    ] {
        let prepared = SparqlEvaluator::new().parse_query(query).unwrap();
        assert_eq!(
            names_its_own_dataset(&prepared),
            named,
            "misclassified `{query}`"
        );
    }
}

#[test]
fn nested_reads_of_another_graph_are_confined() {
    let store = store();
    let sub = format!(
        "SELECT ?s WHERE {{ {{ SELECT ?s WHERE {{ GRAPH <{OTHER}> {{ ?s ?p ?o }} }} }} }}"
    );
    assert!(scoped(&store, &sub).is_empty(), "a sub-select escaped");
    assert_eq!(unscoped(&store, &sub), ["s=<urn:example:zenith:1>"]);

    let exists = format!(
        "SELECT ?s WHERE {{ ?s ?p ?o FILTER EXISTS {{ GRAPH <{OTHER}> {{ ?a ?b ?c }} }} }}"
    );
    assert!(
        scoped(&store, &exists).is_empty(),
        "a FILTER EXISTS escaped"
    );

    let not_exists = format!(
        "SELECT ?s WHERE {{ GRAPH <{G}> {{ ?s ?p ?o }} \
         FILTER NOT EXISTS {{ GRAPH <{OTHER}> {{ ?a ?b ?c }} }} }}"
    );
    assert_eq!(
        scoped(&store, &not_exists),
        ["s=<urn:example:acme:1>"],
        "a FILTER NOT EXISTS leaked the other tenant's existence by removing a row"
    );
    assert!(
        unscoped(&store, &not_exists).is_empty(),
        "the control: unconfined, that row really is removed"
    );
}

#[test]
fn a_bare_describe_reads_only_the_default_graph() {
    let store = store();
    assert_eq!(
        triples(&store, "DESCRIBE <urn:example:acme:1>", true),
        ["<urn:example:acme:1> <urn:p> \"acme\""],
        "the positive case: a scoped DESCRIBE of the permitted graph's subject"
    );
    assert!(
        triples(&store, "DESCRIBE <urn:example:zenith:1>", true).is_empty(),
        "a scoped DESCRIBE reached another tenant"
    );
    assert!(
        triples(&store, "DESCRIBE <urn:example:acme:1>", false).is_empty(),
        "DESCRIBE now reads named graphs — the scoped door's contract changed with it"
    );
    assert_eq!(
        triples(&store, "DESCRIBE <urn:example:host:1>", false),
        ["<urn:example:host:1> <urn:p> \"host\""],
        "unconfined, DESCRIBE reads the store's default graph"
    );
    assert!(
        triples(&store, "DESCRIBE <urn:example:host:1>", true).is_empty(),
        "a scoped DESCRIBE reached the store's real default graph"
    );
}

#[test]
fn construct_is_confined_and_still_answers() {
    let store = store();
    assert_eq!(
        triples(
            &store,
            "CONSTRUCT { ?s <urn:copied> ?o } WHERE { ?s ?p ?o }",
            true
        ),
        ["<urn:example:acme:1> <urn:copied> \"acme\""]
    );
    assert!(
        triples(
            &store,
            &format!(
                "CONSTRUCT {{ ?s <urn:copied> ?o }} WHERE {{ GRAPH <{OTHER}> {{ ?s ?p ?o }} }}"
            ),
            true
        )
        .is_empty(),
        "a CONSTRUCT read another tenant"
    );
}

#[test]
fn a_service_clause_is_refused_because_no_http_client_is_built_in() {
    let store = store();
    let mut prepared = SparqlEvaluator::new()
        .parse_query("SELECT ?s WHERE { SERVICE <http://example.invalid/sparql> { ?s ?p ?o } }")
        .unwrap();
    confine(&mut prepared, &NamedNode::new(G).unwrap());
    let result = prepared.on_store(&store).execute();
    let failed = match result {
        Err(_) => true,
        Ok(QueryResults::Solutions(solutions)) => solutions.into_iter().any(|s| s.is_err()),
        Ok(_) => panic!("not a solution set"),
    };
    assert!(
        failed,
        "a SERVICE clause was answered — this build has an HTTP client, and a scoped \
         read can now reach the network"
    );
}

#[test]
fn a_property_path_cannot_walk_out_of_the_scope() {
    let store = Store::new().unwrap();
    store
        .load_from_reader(
            oxigraph::io::RdfFormat::NQuads,
            format!(
                "<urn:a> <urn:next> <urn:b> <{G}> .\n\
                 <urn:b> <urn:next> <urn:c> <{OTHER}> .\n"
            )
            .as_bytes(),
        )
        .unwrap();
    let query = "SELECT ?end WHERE { <urn:a> <urn:next>+ ?end }";
    assert_eq!(
        scoped(&store, query),
        ["end=<urn:b>"],
        "the path must still traverse inside the scope"
    );
    let mut prepared = SparqlEvaluator::new().parse_query(query).unwrap();
    prepared.dataset_mut().set_default_graph_as_union();
    let QueryResults::Solutions(solutions) = prepared.on_store(&store).execute().unwrap()
    else {
        panic!("not a solution set");
    };
    assert_eq!(
        solutions.count(),
        2,
        "the control: over the union of all graphs the path really does reach <urn:c>"
    );
}
