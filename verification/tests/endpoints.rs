//! What the resources promise, held to it through a kernel.

use futures::executor::block_on;
use ikigai_core::{
    ArgRef, Capability, EndpointSpace, Exact, FnEndpoint, Iri, Kernel, ReprType, Request, Verb,
};
use ikigai_store::endpoints::Space;
use ikigai_store::{request, DurableStore, CAP_READ, CAP_WRITE, LOAD_THREAD, UPDATE_THREAD};
use std::sync::{Arc, Mutex};

/// The resources of a store, bound into a space that a kernel can resolve.
fn space(store: DurableStore) -> EndpointSpace {
    let space = Arc::new(Mutex::new(ikigai_store::space(store)));
    let endpoints = space.lock().unwrap().endpoints().clone();
    endpoints
        .into_iter()
        .fold(EndpointSpace::new(), |bound, endpoint| {
            let (space, iri) = (Arc::clone(&space), endpoint.iri());
            let door = FnEndpoint::new(endpoint.name(), move |inv| answer(&space, &iri, inv))
                .with_description(description(endpoint.describe()));
            bound.bind(Exact::new(endpoint.iri()), door)
        })
}

fn verb(verb: request::Verb) -> Verb {
    match verb {
        request::Verb::Source => Verb::Source,
        request::Verb::Sink => Verb::Sink,
        request::Verb::Exists => Verb::Exists,
        request::Verb::Delete => Verb::Delete,
        request::Verb::Meta => Verb::Meta,
    }
}

fn answer(
    space: &Mutex<Space>,
    iri: &str,
    inv: &ikigai_core::Invocation<'_>,
) -> ikigai_core::Result<ikigai_core::Representation> {
    let asked = request::Invocation {
        verb: match inv.request.verb {
            Verb::Source => request::Verb::Source,
            Verb::Sink => request::Verb::Sink,
            Verb::Exists => request::Verb::Exists,
            Verb::Delete => request::Verb::Delete,
            Verb::Meta => request::Verb::Meta,
        },
        args: inv
            .request
            .args
            .iter()
            .map(|(name, arg)| match arg {
                ArgRef::Inline(bytes) => (name.clone(), request::Arg::Inline(bytes.clone())),
                _ => (name.clone(), request::Arg::Other),
            })
            .collect(),
        capability: inv.capability,
    };
    let mut space = space.lock().unwrap();
    match space.invoke(iri, &asked).expect("the IRI is bound") {
        Ok(rep) => {
            let kind = ReprType::new(rep.media_type).with_param("charset", rep.charset);
            let mut out = ikigai_core::Representation::new(kind, rep.bytes);
            if rep.cacheable {
                out = out.cacheable();
            }
            Ok(rep
                .threads
                .iter()
                .fold(out, |out, thread| out.depends_on(thread.as_str())))
        }
        Err(error) => Err(match error {
            ikigai_store::Error::MissingArgument(name) => {
                ikigai_core::Error::MissingArgument(name)
            }
            ikigai_store::Error::InvalidArgument { name, detail } => {
                ikigai_core::Error::InvalidArgument { name, detail }
            }
            ikigai_store::Error::Endpoint(text) => ikigai_core::Error::Endpoint(text),
            ikigai_store::Error::Denied(text) => ikigai_core::Error::Denied(text),
            ikigai_store::Error::Unavailable(text) => ikigai_core::Error::Unavailable(text),
        }),
    }
}

fn description(own: request::Description) -> ikigai_core::Description {
    let mut out = ikigai_core::Description::new(own.id)
        .title(own.title)
        .summary(own.summary)
        .requires(own.capability);
    for one in own.verbs {
        out = out.verb(verb(one));
    }
    for spec in own.inputs {
        let mut arg = ikigai_core::ArgSpec::new(spec.name)
            .summary(spec.summary)
            .class(spec.class);
        if !spec.one_of.is_empty() {
            arg = arg.one_of(spec.one_of);
        }
        if let Some(value) = spec.default_value {
            arg = arg.default_value(value);
        }
        out = out.input(if spec.required { arg } else { arg.optional() });
    }
    own.outputs.into_iter().fold(out, |out, media| out.output(media))
}

fn kernel(store: DurableStore) -> Kernel {
    Kernel::with_meta_renderer(
        Arc::new(space(store)),
        Arc::new(ikigai_vocab::TurtleRenderer),
    )
}

fn iri(s: &str) -> Iri {
    Iri::parse(s).unwrap()
}

fn cap(scopes: &[&str]) -> Capability {
    Capability::scoped(scopes.iter().map(|s| s.to_string()))
}

fn text(rep: ikigai_core::Representation) -> String {
    String::from_utf8(rep.bytes).unwrap()
}

fn load(kernel: &Kernel, cap: &Capability, turtle: &str) -> ikigai_core::Result<String> {
    block_on(
        kernel.issue(
            Request::new(Verb::Sink, iri("urn:iki:store:load"))
                .with_arg("content", ArgRef::Inline(turtle.as_bytes().to_vec())),
            cap,
        ),
    )
    .map(text)
}

fn ask_form(
    kernel: &Kernel,
    cap: &Capability,
    form: &str,
    sparql: &str,
) -> ikigai_core::Result<String> {
    block_on(
        kernel.issue(
            Request::new(Verb::Source, iri(&format!("urn:iki:store:{form}")))
                .with_arg("query", ArgRef::Inline(sparql.as_bytes().to_vec())),
            cap,
        ),
    )
    .map(text)
}

fn select(kernel: &Kernel, cap: &Capability, sparql: &str) -> ikigai_core::Result<String> {
    ask_form(kernel, cap, "select", sparql)
}

fn ask(kernel: &Kernel, cap: &Capability, sparql: &str) -> ikigai_core::Result<String> {
    ask_form(kernel, cap, "ask", sparql)
}

#[test]
fn a_document_loaded_through_the_kernel_is_queryable() {
    let k = kernel(DurableStore::in_memory().unwrap());
    let c = cap(&[CAP_READ, CAP_WRITE]);
    let report = load(
        &k,
        &c,
        r#"@prefix ex: <http://ex/> . ex:a ex:name "Alice" . ex:b ex:name "Bob" ."#,
    )
    .unwrap();
    assert!(report.contains("0 -> 2 quads"), "{report}");

    let json = select(&k, &c, "SELECT ?name WHERE { ?s <http://ex/name> ?name }").unwrap();
    assert!(json.contains("Alice") && json.contains("Bob"), "{json}");
}

#[test]
fn an_update_through_the_kernel_changes_what_a_query_sees() {
    let k = kernel(DurableStore::in_memory().unwrap());
    let c = cap(&[CAP_READ, CAP_WRITE]);
    let report = text(
        block_on(k.issue(
            Request::new(Verb::Sink, iri("urn:iki:store:update")).with_arg(
                "content",
                ArgRef::Inline(
                    b"INSERT DATA { <http://ex/a> <http://ex/p> <http://ex/b> }".to_vec(),
                ),
            ),
            &c,
        ))
        .unwrap(),
    );
    assert!(report.contains("0 -> 1 quads"), "{report}");
    assert!(ask(&k, &c, "ASK { ?s ?p ?o }").unwrap().contains("true"));
}

#[test]
fn info_reports_the_backing_and_whether_coverage_holds() {
    let k = kernel(DurableStore::in_memory().unwrap());
    let c = cap(&[CAP_READ]);
    let info =
        text(block_on(k.issue(Request::new(Verb::Source, iri("urn:iki:store:info")), &c)).unwrap());
    assert!(info.contains("backing: memory"), "{info}");
    assert!(info.contains("covered: true"), "{info}");
}

#[test]
fn a_caller_without_the_scope_is_denied_in_both_directions() {
    let k = kernel(DurableStore::in_memory().unwrap());

    let write_only = cap(&[CAP_WRITE]);
    let err = select(&k, &write_only, "SELECT * { ?s ?p ?o }").unwrap_err();
    assert!(
        matches!(err, ikigai_core::Error::Denied(_)),
        "a read must be typed-Denied without {CAP_READ}, got {err:?}"
    );

    let read_only = cap(&[CAP_READ]);
    let err = load(
        &k,
        &read_only,
        "<http://ex/a> <http://ex/p> <http://ex/b> .",
    )
    .unwrap_err();
    assert!(
        matches!(err, ikigai_core::Error::Denied(_)),
        "a write must be typed-Denied without {CAP_WRITE}, got {err:?}"
    );

    let err = block_on(
        k.issue(
            Request::new(Verb::Sink, iri("urn:iki:store:update"))
                .with_arg("content", ArgRef::Inline(b"CLEAR ALL".to_vec())),
            &read_only,
        ),
    )
    .unwrap_err();
    assert!(
        matches!(err, ikigai_core::Error::Denied(_)),
        "CLEAR ALL must be typed-Denied without {CAP_WRITE}, got {err:?}"
    );
}

#[test]
fn a_covered_read_caches_and_both_writing_iris_cut_it() {
    let k = kernel(DurableStore::in_memory().unwrap());
    let c = cap(&[CAP_READ, CAP_WRITE]);

    let first = select(&k, &c, "SELECT ?s WHERE { ?s ?p ?o }").unwrap();
    let second = select(&k, &c, "SELECT ?s WHERE { ?s ?p ?o }").unwrap();
    assert_eq!(first, second, "a cacheable read must be byte-identical");

    load(&k, &c, "<http://ex/a> <http://ex/p> <http://ex/b> .").unwrap();
    let after_load = select(&k, &c, "SELECT ?s WHERE { ?s ?p ?o }").unwrap();
    assert!(
        after_load.contains("http://ex/a"),
        "a load must cut {LOAD_THREAD} and invalidate the cached read: {after_load}"
    );

    block_on(k.issue(
        Request::new(Verb::Sink, iri("urn:iki:store:update")).with_arg(
            "content",
            ArgRef::Inline(b"INSERT DATA { <http://ex/c> <http://ex/p> <http://ex/d> }".to_vec()),
        ),
        &c,
    ))
    .unwrap();
    let after_update = select(&k, &c, "SELECT ?s WHERE { ?s ?p ?o }").unwrap();
    assert!(
        after_update.contains("http://ex/c"),
        "an update must cut {UPDATE_THREAD} and invalidate the cached read: {after_update}"
    );
}

#[test]
fn a_shared_store_never_caches_so_a_raw_handle_write_is_still_visible() {
    let (store, handle) = DurableStore::in_memory_shared().unwrap();
    let k = kernel(store);
    let c = cap(&[CAP_READ]);

    assert!(ask(&k, &c, "ASK { ?s ?p ?o }").unwrap().contains("false"));
    handle
        .load_from_slice(
            oxigraph::io::RdfFormat::NTriples,
            b"<http://ex/a> <http://ex/p> <http://ex/b> .",
        )
        .unwrap();
    assert!(
        ask(&k, &c, "ASK { ?s ?p ?o }").unwrap().contains("true"),
        "a shared store must not cache: the raw-handle write cut nothing"
    );

    let info =
        text(block_on(k.issue(Request::new(Verb::Source, iri("urn:iki:store:info")), &c)).unwrap());
    assert!(info.contains("covered: false"), "{info}");
}

#[test]
fn an_as_the_query_form_cannot_answer_in_is_refused() {
    let k = kernel(DurableStore::in_memory().unwrap());
    let c = cap(&[CAP_READ, CAP_WRITE]);
    load(&k, &c, "<http://ex/a> <http://ex/p> <http://ex/b> .").unwrap();

    let err = block_on(
        k.issue(
            Request::new(Verb::Source, iri("urn:iki:store:select"))
                .with_arg("query", ArgRef::Inline(b"SELECT * { ?s ?p ?o }".to_vec()))
                .with_arg("as", ArgRef::Inline(b"text/turtle".to_vec())),
            &c,
        ),
    )
    .unwrap_err();
    assert!(
        matches!(&err, ikigai_core::Error::InvalidArgument { name, .. } if name == "as"),
        "got {err:?}"
    );

    let rep = block_on(
        k.issue(
            Request::new(Verb::Source, iri("urn:iki:store:construct"))
                .with_arg(
                    "query",
                    ArgRef::Inline(b"CONSTRUCT { ?s ?p ?o } WHERE { ?s ?p ?o }".to_vec()),
                )
                .with_arg("as", ArgRef::Inline(b"text/turtle".to_vec())),
            &c,
        ),
    )
    .unwrap();
    assert_eq!(rep.repr_type.media_type, "text/turtle");

    let rep = block_on(
        k.issue(
            Request::new(Verb::Source, iri("urn:iki:store:select"))
                .with_arg("query", ArgRef::Inline(b"SELECT * { ?s ?p ?o }".to_vec()))
                .with_arg("as", ArgRef::Inline(b"text/csv".to_vec())),
            &c,
        ),
    )
    .unwrap();
    assert_eq!(rep.repr_type.media_type, "text/csv");
}

#[test]
fn load_honours_the_graph_argument_and_refuses_a_non_iri() {
    let k = kernel(DurableStore::in_memory().unwrap());
    let c = cap(&[CAP_READ, CAP_WRITE]);

    block_on(
        k.issue(
            Request::new(Verb::Sink, iri("urn:iki:store:load"))
                .with_arg(
                    "content",
                    ArgRef::Inline(b"<http://ex/a> <http://ex/p> <http://ex/b> .".to_vec()),
                )
                .with_arg("graph", ArgRef::Inline(b"http://ex/g".to_vec())),
            &c,
        ),
    )
    .unwrap();
    let json = select(
        &k,
        &c,
        "SELECT ?s WHERE { GRAPH <http://ex/g> { ?s ?p ?o } }",
    )
    .unwrap();
    assert!(json.contains("http://ex/a"), "{json}");

    let err = block_on(
        k.issue(
            Request::new(Verb::Sink, iri("urn:iki:store:load"))
                .with_arg(
                    "content",
                    ArgRef::Inline(b"<http://ex/a> <http://ex/p> <http://ex/b> .".to_vec()),
                )
                .with_arg("graph", ArgRef::Inline(b"not an iri".to_vec())),
            &c,
        ),
    )
    .unwrap_err();
    assert!(
        matches!(&err, ikigai_core::Error::InvalidArgument { name, .. } if name == "graph"),
        "got {err:?}"
    );
}

#[test]
fn malformed_input_names_the_argument_that_was_wrong() {
    let k = kernel(DurableStore::in_memory().unwrap());
    let c = cap(&[CAP_READ, CAP_WRITE]);

    let err = load(&k, &c, "this is not turtle {{{").unwrap_err();
    assert!(
        matches!(&err, ikigai_core::Error::InvalidArgument { name, .. } if name == "content"),
        "got {err:?}"
    );
    let err = select(&k, &c, "SELEKT * { ?s ?p ?o }").unwrap_err();
    assert!(
        matches!(&err, ikigai_core::Error::InvalidArgument { name, .. } if name == "query"),
        "got {err:?}"
    );
}

#[test]
fn a_query_of_the_wrong_form_is_refused_by_the_iri_it_was_sent_to() {
    let k = kernel(DurableStore::in_memory().unwrap());
    let c = cap(&[CAP_READ]);

    let err = ask_form(
        &k,
        &c,
        "select",
        "CONSTRUCT { ?s ?p ?o } WHERE { ?s ?p ?o }",
    )
    .unwrap_err();
    assert!(
        matches!(&err, ikigai_core::Error::InvalidArgument { name, detail }
                 if name == "query" && detail.contains("a result set")),
        "got {err:?}"
    );

    let err = ask_form(&k, &c, "construct", "SELECT * { ?s ?p ?o }").unwrap_err();
    assert!(
        matches!(&err, ikigai_core::Error::InvalidArgument { name, detail }
                 if name == "query" && detail.contains("a graph")),
        "got {err:?}"
    );

    assert!(ask_form(&k, &c, "ask", "SELECT * { ?s ?p ?o }").is_ok());
}
