//! The twelve resources behave as a module of a kernel is expected to.

use futures::executor::block_on;
use ikigai_conformance::{Fixture, Suite};
use ikigai_core::{
    ArgRef, Capability, EndpointSpace, Exact, FnEndpoint, Iri, Kernel, ReprType, Request, Verb,
};
use ikigai_store::endpoints::Space;
use ikigai_store::{request, DurableStore};
use std::sync::{Arc, Mutex};

/// The resources of a store, bound into a space that a kernel can resolve.
fn space(store: DurableStore) -> EndpointSpace {
    let space = Arc::new(Mutex::new(ikigai_store::space(store)));
    let endpoints = space.lock().unwrap().endpoints().clone();
    endpoints
        .into_iter()
        .fold(EndpointSpace::new(), |bound, endpoint| {
            let (space, iri) = (Arc::clone(&space), endpoint.iri());
            let door = FnEndpoint::new(endpoint.name(), move |inv| answer(&space, &iri, inv))
                .with_description(description(endpoint.describe()));
            bound.bind(Exact::new(endpoint.iri()), door)
        })
}

fn verb(verb: request::Verb) -> Verb {
    match verb {
        request::Verb::Source => Verb::Source,
        request::Verb::Sink => Verb::Sink,
        request::Verb::Exists => Verb::Exists,
        request::Verb::Delete => Verb::Delete,
        request::Verb::Meta => Verb::Meta,
    }
}

fn answer(
    space: &Mutex<Space>,
    iri: &str,
    inv: &ikigai_core::Invocation<'_>,
) -> ikigai_core::Result<ikigai_core::Representation> {
    let asked = request::Invocation {
        verb: match inv.request.verb {
            Verb::Source => request::Verb::Source,
            Verb::Sink => request::Verb::Sink,
            Verb::Exists => request::Verb::Exists,
            Verb::Delete => request::Verb::Delete,
            Verb::Meta => request::Verb::Meta,
        },
        args: inv
            .request
            .args
            .iter()
            .map(|(name, arg)| match arg {
                ArgRef::Inline(bytes) => (name.clone(), request::Arg::Inline(bytes.clone())),
                _ => (name.clone(), request::Arg::Other),
            })
            .collect(),
        capability: inv.capability,
    };
    let mut space = space.lock().unwrap();
    match space.invoke(iri, &asked).expect("the IRI is bound") {
        Ok(rep) => {
            let kind = ReprType::new(rep.media_type).with_param("charset", rep.charset);
            let mut out = ikigai_core::Representation::new(kind, rep.bytes);
            if rep.cacheable {
                out = out.cacheable();
            }
            Ok(rep
                .threads
                .iter()
                .fold(out, |out, thread| out.depends_on(thread.as_str())))
        }
        Err(error) => Err(match error {
            ikigai_store::Error::MissingArgument(name) => {
                ikigai_core::Error::MissingArgument(name)
            }
            ikigai_store::Error::InvalidArgument { name, detail } => {
                ikigai_core::Error::InvalidArgument { name, detail }
            }
            ikigai_store::Error::Endpoint(text) => ikigai_core::Error::Endpoint(text),
            ikigai_store::Error::Denied(text) => ikigai_core::Error::Denied(text),
            ikigai_store::Error::Unavailable(text) => ikigai_core::Error::Unavailable(text),
        }),
    }
}

fn description(own: request::Description) -> ikigai_core::Description {
    let mut out = ikigai_core::Description::new(own.id)
        .title(own.title)
        .summary(own.summary)
        .requires(own.capability);
    for one in own.verbs {
        out = out.verb(verb(one));
    }
    for spec in own.inputs {
        let mut arg = ikigai_core::ArgSpec::new(spec.name)
            .summary(spec.summary)
            .class(spec.class);
        if !spec.one_of.is_empty() {
            arg = arg.one_of(spec.one_of);
        }
        if let Some(value) = spec.default_value {
            arg = arg.default_value(value);
        }
        out = out.input(if spec.required { arg } else { arg.optional() });
    }
    own.outputs.into_iter().fold(out, |out, media| out.output(media))
}

fn kernel(store: DurableStore) -> Kernel {
    let kernel = Kernel::with_meta_renderer(
        Arc::new(space(store)),
        Arc::new(ikigai_vocab::TurtleRenderer),
    );
    block_on(
        kernel.issue(
            Request::new(Verb::Sink, Iri::parse("urn:iki:store:load").unwrap())
                .with_arg("content", ArgRef::Inline(INSERT_TURTLE.as_bytes().to_vec())),
            &Capability::root(),
        ),
    )
    .expect("seeding the conformance fixture");
    block_on(
        kernel.issue(
            Request::new(Verb::Sink, Iri::parse("urn:iki:store:load").unwrap())
                .with_arg("content", ArgRef::Inline(INSERT_TURTLE.as_bytes().to_vec()))
                .with_arg("graph", ArgRef::Inline(SCOPED_GRAPH.as_bytes().to_vec())),
            &Capability::root(),
        ),
    )
    .expect("seeding the scoped graph");
    kernel
}

const FORM_FIXTURES: [(&str, &str); 4] = [
    ("store-select", "SELECT ?s WHERE { ?s ?p ?o } LIMIT 1"),
    ("store-ask", "ASK { ?s ?p ?o }"),
    (
        "store-construct",
        "CONSTRUCT { ?s ?p ?o } WHERE { ?s ?p ?o }",
    ),
    ("store-describe", "DESCRIBE <urn:example:conformance>"),
];

const INSERT_TURTLE: &str =
    "<urn:example:conformance> <http://purl.org/dc/terms/title> \"conformance\" .";
const INSERT_UPDATE: &str = "INSERT DATA { <urn:example:conformance> \
                             <http://purl.org/dc/terms/title> \"conformance\" }";

const SCOPED_GRAPH: &str = "urn:example:conformance:graph";
const SCOPED_UPDATE: &str = "INSERT DATA { GRAPH <urn:example:conformance:graph> { \
                             <urn:example:conformance> \
                             <http://purl.org/dc/terms/title> \"conformance\" } }";

fn fixtures() -> Suite {
    let suite = FORM_FIXTURES
        .iter()
        .fold(Suite::new(), |suite, (id, query)| {
            suite.fixture(Fixture::new(*id, Verb::Source).arg("query", *query))
        });
    let suite = FORM_FIXTURES.iter().fold(suite, |suite, (id, query)| {
        suite.fixture(
            Fixture::new(scoped_id(id), Verb::Source)
                .arg("query", *query)
                .arg("graph", SCOPED_GRAPH),
        )
    });
    suite
        .fixture(Fixture::new("store-load", Verb::Sink).arg("content", INSERT_TURTLE))
        .fixture(Fixture::new("store-update", Verb::Sink).arg("content", INSERT_UPDATE))
        .fixture(
            Fixture::new("store-graph-update", Verb::Sink)
                .arg("content", SCOPED_UPDATE)
                .arg("graph", SCOPED_GRAPH),
        )
}

fn scoped_id(id: &str) -> String {
    id.replace("store-", "store-graph-")
}

const READS: [&str; 9] = [
    "store-select",
    "store-ask",
    "store-construct",
    "store-describe",
    "store-graph-select",
    "store-graph-ask",
    "store-graph-construct",
    "store-graph-describe",
    "store-info",
];

#[test]
fn conforms() {
    let report = READS
        .iter()
        .fold(fixtures(), |suite, id| suite.cacheable(*id))
        .run_blocking(&kernel(DurableStore::in_memory().unwrap()));
    println!("{report}");
    assert!(report.is_clean(), "{report}");
}

#[test]
fn a_shared_store_conforms_as_a_live_one() {
    let (store, handle) = DurableStore::in_memory_shared().unwrap();
    drop(handle);
    let report = READS
        .iter()
        .fold(fixtures(), |suite, id| suite.live(*id))
        .run_blocking(&kernel(store));
    println!("{report}");
    assert!(report.is_clean(), "{report}");
}
