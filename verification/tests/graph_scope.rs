//! A grant to write one graph: what it allows, and what it does not.

use futures::executor::block_on;
use ikigai_core::{
    ArgRef, Capability, EndpointSpace, Error, Exact, FnEndpoint, Iri, Kernel, ReprType, Request, Verb,
};
use ikigai_store::endpoints::Space;
use ikigai_store::{cap_write_graph, request, DurableStore, CAP_READ, CAP_WRITE};
use std::sync::{Arc, Mutex};

/// The resources of a store, bound into a space that a kernel can resolve.
fn space(store: DurableStore) -> EndpointSpace {
    let space = Arc::new(Mutex::new(ikigai_store::space(store)));
    let endpoints = space.lock().unwrap().endpoints().clone();
    endpoints
        .into_iter()
        .fold(EndpointSpace::new(), |bound, endpoint| {
            let (space, iri) = (Arc::clone(&space), endpoint.iri());
            let door = FnEndpoint::new(endpoint.name(), move |inv| answer(&space, &iri, inv))
                .with_description(description(endpoint.describe()));
            bound.bind(Exact::new(endpoint.iri()), door)
        })
}

fn verb(verb: request::Verb) -> Verb {
    match verb {
        request::Verb::Source => Verb::Source,
        request::Verb::Sink => Verb::Sink,
        request::Verb::Exists => Verb::Exists,
        request::Verb::Delete => Verb::Delete,
        request::Verb::Meta => Verb::Meta,
    }
}

fn answer(
    space: &Mutex<Space>,
    iri: &str,
    inv: &ikigai_core::Invocation<'_>,
) -> ikigai_core::Result<ikigai_core::Representation> {
    let asked = request::Invocation {
        verb: match inv.request.verb {
            Verb::Source => request::Verb::Source,
            Verb::Sink => request::Verb::Sink,
            Verb::Exists => request::Verb::Exists,
            Verb::Delete => request::Verb::Delete,
            Verb::Meta => request::Verb::Meta,
        },
        args: inv
            .request
            .args
            .iter()
            .map(|(name, arg)| match arg {
                ArgRef::Inline(bytes) => (name.clone(), request::Arg::Inline(bytes.clone())),
                _ => (name.clone(), request::Arg::Other),
            })
            .collect(),
        capability: inv.capability,
    };
    let mut space = space.lock().unwrap();
    match space.invoke(iri, &asked).expect("the IRI is bound") {
        Ok(rep) => {
            let kind = ReprType::new(rep.media_type).with_param("charset", rep.charset);
            let mut out = ikigai_core::Representation::new(kind, rep.bytes);
            if rep.cacheable {
                out = out.cacheable();
            }
            Ok(rep
                .threads
                .iter()
                .fold(out, |out, thread| out.depends_on(thread.as_str())))
        }
        Err(error) => Err(match error {
            ikigai_store::Error::MissingArgument(name) => {
                ikigai_core::Error::MissingArgument(name)
            }
            ikigai_store::Error::InvalidArgument { name, detail } => {
                ikigai_core::Error::InvalidArgument { name, detail }
            }
            ikigai_store::Error::Endpoint(text) => ikigai_core::Error::Endpoint(text),
            ikigai_store::Error::Denied(text) => ikigai_core::Error::Denied(text),
            ikigai_store::Error::Unavailable(text) => ikigai_core::Error::Unavailable(text),
        }),
    }
}

fn description(own: request::Description) -> ikigai_core::Description {
    let mut out = ikigai_core::Description::new(own.id)
        .title(own.title)
        .summary(own.summary)
        .requires(own.capability);
    for one in own.verbs {
        out = out.verb(verb(one));
    }
    for spec in own.inputs {
        let mut arg = ikigai_core::ArgSpec::new(spec.name)
            .summary(spec.summary)
            .class(spec.class);
        if !spec.one_of.is_empty() {
            arg = arg.one_of(spec.one_of);
        }
        if let Some(value) = spec.default_value {
            arg = arg.default_value(value);
        }
        out = out.input(if spec.required { arg } else { arg.optional() });
    }
    own.outputs.into_iter().fold(out, |out, media| out.output(media))
}

const SCOPED: &str = "urn:iki:store:graph-update";
const BROAD: &str = "urn:iki:store:update";
const G: &str = "urn:example:acme";
const OTHER: &str = "urn:example:zenith";

fn kernel() -> Kernel {
    let store = DurableStore::in_memory().unwrap();
    let kernel = Kernel::new(Arc::new(space(store)));
    for (graph, subject) in [(G, "urn:example:acme:1"), (OTHER, "urn:example:zenith:1")] {
        sink(
            &kernel,
            BROAD,
            &[(
                "content",
                &format!("INSERT DATA {{ GRAPH <{graph}> {{ <{subject}> <urn:p> \"seed\" }} }}"),
            )],
            &Capability::root(),
        )
        .expect("seeding");
    }
    kernel
}

fn sink(
    kernel: &Kernel,
    iri: &str,
    args: &[(&str, &str)],
    cap: &Capability,
) -> Result<String, Error> {
    let mut request = Request::new(Verb::Sink, Iri::parse(iri).unwrap());
    for (name, value) in args {
        request = request.with_arg(*name, ArgRef::Inline(value.as_bytes().to_vec()));
    }
    block_on(kernel.issue(request, cap)).map(|r| String::from_utf8_lossy(&r.bytes).into_owned())
}

fn scoped(kernel: &Kernel, update: &str, cap: &Capability) -> Result<String, Error> {
    sink(kernel, SCOPED, &[("graph", G), ("content", update)], cap)
}

fn one_graph() -> Capability {
    Capability::scoped([cap_write_graph(G), CAP_READ.to_string()])
}

fn quads(kernel: &Kernel, graph: &str) -> usize {
    let request = Request::new(Verb::Source, Iri::parse("urn:iki:store:select").unwrap())
        .with_arg(
            "query",
            ArgRef::Inline(
                format!("SELECT * WHERE {{ GRAPH <{graph}> {{ ?s ?p ?o }} }}").into_bytes(),
            ),
        )
        .with_arg("as", ArgRef::Inline(b"text/csv".to_vec()));
    let repr = block_on(kernel.issue(request, &Capability::root())).expect("counting");
    String::from_utf8_lossy(&repr.bytes).lines().count() - 1
}

#[test]
fn a_graph_grant_writes_its_own_graph() {
    let kernel = kernel();
    let out = scoped(
        &kernel,
        &format!("INSERT DATA {{ GRAPH <{G}> {{ <urn:example:acme:2> <urn:p> \"new\" }} }}"),
        &one_graph(),
    )
    .expect("an in-scope write under the graph grant");
    assert!(out.contains("+1 -0"), "{out}");
    assert_eq!(quads(&kernel, G), 2);
    assert_eq!(quads(&kernel, OTHER), 1);
}

#[test]
fn a_graph_grant_deletes_and_inserts_atomically_in_its_own_graph() {
    let kernel = kernel();
    scoped(
        &kernel,
        &format!(
            "DELETE {{ GRAPH <{G}> {{ ?s <urn:p> \"seed\" }} }} \
             INSERT {{ GRAPH <{G}> {{ ?s <urn:p> \"closed\" }} }} \
             WHERE  {{ GRAPH <{G}> {{ ?s <urn:p> \"seed\" }} }}"
        ),
        &one_graph(),
    )
    .expect("a delete+insert within scope");
    assert_eq!(quads(&kernel, G), 1);
}

#[test]
fn graph_scope_several_graph_grants_are_held_and_used_independently() {
    let kernel = kernel();
    let both = Capability::scoped([
        cap_write_graph(G),
        cap_write_graph(OTHER),
        CAP_READ.to_string(),
    ]);
    for graph in [G, OTHER] {
        sink(
            &kernel,
            SCOPED,
            &[
                ("graph", graph),
                (
                    "content",
                    &format!(
                        "INSERT DATA {{ GRAPH <{graph}> {{ <urn:example:x> <urn:p> \"2\" }} }}"
                    ),
                ),
            ],
            &both,
        )
        .unwrap_or_else(|e| panic!("writing {graph} with both grants: {e}"));
    }
    assert_eq!(quads(&kernel, G), 2);
    assert_eq!(quads(&kernel, OTHER), 2);
}

#[test]
fn graph_scope_a_graph_grant_is_refused_for_another_graph() {
    let kernel = kernel();
    let err = sink(
        &kernel,
        SCOPED,
        &[
            ("graph", OTHER),
            (
                "content",
                &format!("INSERT DATA {{ GRAPH <{OTHER}> {{ <urn:example:x> <urn:p> \"no\" }} }}"),
            ),
        ],
        &one_graph(),
    )
    .expect_err("a grant for one graph must not write another");
    assert!(matches!(err, Error::Denied(_)), "{err:?}");
    assert!(err.to_string().contains(&cap_write_graph(OTHER)), "{err}");
    assert_eq!(quads(&kernel, OTHER), 1);
}

#[test]
fn an_update_that_reaches_outside_the_graph_is_refused_in_full() {
    for (name, update) in [
        (
            "another named graph",
            format!("INSERT DATA {{ GRAPH <{OTHER}> {{ <urn:example:x> <urn:p> \"no\" }} }}"),
        ),
        (
            "the default graph, named by nothing at all",
            "INSERT DATA { <urn:example:x> <urn:p> \"no\" }".to_string(),
        ),
        (
            "WITH, which names the graph outside the block",
            format!("WITH <{OTHER}> INSERT {{ <urn:example:x> <urn:p> \"no\" }} WHERE {{}}"),
        ),
        (
            "COPY, whose destination is the escape",
            format!("COPY <{G}> TO <{OTHER}>"),
        ),
        (
            "MOVE, which is COPY plus a drop",
            format!("MOVE <{G}> TO <{OTHER}>"),
        ),
        (
            "CREATE GRAPH, which writes no quad but registers a graph",
            format!("CREATE GRAPH <{OTHER}>"),
        ),
        (
            "a second operation in a `;` chain",
            format!(
                "INSERT DATA {{ GRAPH <{G}> {{ <urn:example:acme:2> <urn:p> \"ok\" }} }}; \
                 INSERT DATA {{ GRAPH <{OTHER}> {{ <urn:example:x> <urn:p> \"no\" }} }}"
            ),
        ),
    ] {
        let kernel = kernel();
        let err = match scoped(&kernel, &update, &one_graph()) {
            Ok(out) => panic!("{name}: expected a refusal, got `{out}`"),
            Err(e) => e,
        };
        assert!(matches!(err, Error::Denied(_)), "{name}: {err:?}");
        assert_eq!(quads(&kernel, G), 1, "{name} left the scoped graph changed");
        assert_eq!(quads(&kernel, OTHER), 1, "{name} reached another graph");
    }
}

#[test]
fn a_variable_graph_and_drop_all_are_confined_rather_than_refused() {
    for update in [
        "DELETE WHERE { GRAPH ?g { ?s ?p ?o } }",
        "DROP ALL",
        "CLEAR ALL",
    ] {
        let kernel = kernel();
        scoped(&kernel, update, &one_graph())
            .unwrap_or_else(|e| panic!("`{update}` should be confined, not refused: {e}"));
        assert_eq!(
            quads(&kernel, G),
            0,
            "`{update}` did not empty its own graph"
        );
        assert_eq!(
            quads(&kernel, OTHER),
            1,
            "`{update}` reached another tenant's graph"
        );
    }
}

#[test]
fn a_scoped_update_cannot_read_another_graph() {
    let kernel = kernel();
    scoped(
        &kernel,
        &format!(
            "INSERT {{ GRAPH <{G}> {{ ?s <urn:copied> \"leak\" }} }} \
             WHERE  {{ GRAPH <{OTHER}> {{ ?s ?p ?o }} }}"
        ),
        &one_graph(),
    )
    .expect("the update itself is well-formed and in scope");
    assert_eq!(quads(&kernel, G), 1);
}

#[test]
fn neither_write_scope_stands_in_for_the_other() {
    let broad = Capability::scoped([CAP_WRITE.to_string(), CAP_READ.to_string()]);
    let narrow = one_graph();
    let insert = format!("INSERT DATA {{ GRAPH <{G}> {{ <urn:example:acme:2> <urn:p> \"x\" }} }}");

    let k = kernel();
    let err = scoped(&k, &insert, &broad).expect_err("broad must not open the narrow door");
    assert!(matches!(err, Error::Denied(_)), "{err:?}");
    assert_eq!(quads(&k, G), 1);

    let k = kernel();
    let err = sink(&k, BROAD, &[("content", &insert)], &narrow)
        .expect_err("narrow must not open the broad door");
    assert!(matches!(err, Error::Denied(_)), "{err:?}");
    assert_eq!(quads(&k, G), 1);

    let k = kernel();
    scoped(&k, &insert, &narrow).expect("the narrow door under the narrow grant");
    assert_eq!(quads(&k, G), 2);
    let k = kernel();
    sink(&k, BROAD, &[("content", &insert)], &broad).expect("the broad door under the broad grant");
    assert_eq!(quads(&k, G), 2);
}

#[test]
fn no_grants_at_all_opens_neither_door() {
    let kernel = kernel();
    let none = Capability::scoped(Vec::<String>::new());
    let insert = format!("INSERT DATA {{ GRAPH <{G}> {{ <urn:example:acme:2> <urn:p> \"x\" }} }}");
    assert!(matches!(
        scoped(&kernel, &insert, &none).unwrap_err(),
        Error::Denied(_)
    ));
    assert!(matches!(
        sink(&kernel, BROAD, &[("content", &insert)], &none).unwrap_err(),
        Error::Denied(_)
    ));
}

#[test]
fn a_scoped_write_invalidates_a_cached_read() {
    let kernel = kernel();
    let read = || {
        let request = Request::new(Verb::Source, Iri::parse("urn:iki:store:ask").unwrap())
            .with_arg(
                "query",
                ArgRef::Inline(
                    format!("ASK {{ GRAPH <{G}> {{ <urn:example:acme:2> ?p ?o }} }}").into_bytes(),
                ),
            );
        String::from_utf8_lossy(
            &block_on(kernel.issue(request, &Capability::root()))
                .unwrap()
                .bytes,
        )
        .into_owned()
    };
    assert!(read().contains("false"), "the subject is not there yet");
    scoped(
        &kernel,
        &format!("INSERT DATA {{ GRAPH <{G}> {{ <urn:example:acme:2> <urn:p> \"new\" }} }}"),
        &one_graph(),
    )
    .expect("the scoped write");
    assert!(
        read().contains("true"),
        "the cached ASK was not invalidated by a scoped write — the read depends on \
         GRAPH_UPDATE_THREAD, or it does not"
    );
}

#[test]
fn graph_scope_a_graph_that_is_not_an_iri_is_refused_by_name() {
    let kernel = kernel();
    let err = sink(
        &kernel,
        SCOPED,
        &[("graph", "not an iri"), ("content", "DROP ALL")],
        &Capability::root(),
    )
    .expect_err("a malformed graph IRI");
    assert!(
        matches!(&err, Error::InvalidArgument { name, .. } if name == "graph"),
        "{err:?}"
    );
}

#[test]
fn the_refusal_names_the_offending_statement() {
    let kernel = kernel();
    let err = scoped(
        &kernel,
        "INSERT DATA { <urn:example:x> <urn:p> \"stray\" }",
        &one_graph(),
    )
    .expect_err("a write to the default graph");
    let text = err.to_string();
    assert!(text.contains("DEFAULT graph"), "{text}");
    assert!(text.contains("urn:example:x"), "{text}");
    assert!(text.contains("Nothing was applied"), "{text}");
}
