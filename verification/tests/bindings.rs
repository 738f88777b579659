//! Values bound into a query through a kernel reach the evaluator as terms.

use futures::executor::block_on;
use ikigai_core::{
    ArgRef, Capability, EndpointSpace, Error, Exact, FnEndpoint, Iri, Kernel, ReprType, Request, Verb,
};
use ikigai_store::endpoints::Space;
use ikigai_store::sparql::{bindings_json, Literal, Term};
use ikigai_store::{request, DurableStore};
use std::sync::{Arc, Mutex};

/// The resources of a store, bound into a space that a kernel can resolve.
fn space(store: DurableStore) -> EndpointSpace {
    let space = Arc::new(Mutex::new(ikigai_store::space(store)));
    let endpoints = space.lock().unwrap().endpoints().clone();
    endpoints
        .into_iter()
        .fold(EndpointSpace::new(), |bound, endpoint| {
            let (space, iri) = (Arc::clone(&space), endpoint.iri());
            let door = FnEndpoint::new(endpoint.name(), move |inv| answer(&space, &iri, inv))
                .with_description(description(endpoint.describe()));
            bound.bind(Exact::new(endpoint.iri()), door)
        })
}

fn verb(verb: request::Verb) -> Verb {
    match verb {
        request::Verb::Source => Verb::Source,
        request::Verb::Sink => Verb::Sink,
        request::Verb::Exists => Verb::Exists,
        request::Verb::Delete => Verb::Delete,
        request::Verb::Meta => Verb::Meta,
    }
}

fn answer(
    space: &Mutex<Space>,
    iri: &str,
    inv: &ikigai_core::Invocation<'_>,
) -> ikigai_core::Result<ikigai_core::Representation> {
    let asked = request::Invocation {
        verb: match inv.request.verb {
            Verb::Source => request::Verb::Source,
            Verb::Sink => request::Verb::Sink,
            Verb::Exists => request::Verb::Exists,
            Verb::Delete => request::Verb::Delete,
            Verb::Meta => request::Verb::Meta,
        },
        args: inv
            .request
            .args
            .iter()
            .map(|(name, arg)| match arg {
                ArgRef::Inline(bytes) => (name.clone(), request::Arg::Inline(bytes.clone())),
                _ => (name.clone(), request::Arg::Other),
            })
            .collect(),
        capability: inv.capability,
    };
    let mut space = space.lock().unwrap();
    match space.invoke(iri, &asked).expect("the IRI is bound") {
        Ok(rep) => {
            let kind = ReprType::new(rep.media_type).with_param("charset", rep.charset);
            let mut out = ikigai_core::Representation::new(kind, rep.bytes);
            if rep.cacheable {
                out = out.cacheable();
            }
            Ok(rep
                .threads
                .iter()
                .fold(out, |out, thread| out.depends_on(thread.as_str())))
        }
        Err(error) => Err(match error {
            ikigai_store::Error::MissingArgument(name) => {
                ikigai_core::Error::MissingArgument(name)
            }
            ikigai_store::Error::InvalidArgument { name, detail } => {
                ikigai_core::Error::InvalidArgument { name, detail }
            }
            ikigai_store::Error::Endpoint(text) => ikigai_core::Error::Endpoint(text),
            ikigai_store::Error::Denied(text) => ikigai_core::Error::Denied(text),
            ikigai_store::Error::Unavailable(text) => ikigai_core::Error::Unavailable(text),
        }),
    }
}

fn description(own: request::Description) -> ikigai_core::Description {
    let mut out = ikigai_core::Description::new(own.id)
        .title(own.title)
        .summary(own.summary)
        .requires(own.capability);
    for one in own.verbs {
        out = out.verb(verb(one));
    }
    for spec in own.inputs {
        let mut arg = ikigai_core::ArgSpec::new(spec.name)
            .summary(spec.summary)
            .class(spec.class);
        if !spec.one_of.is_empty() {
            arg = arg.one_of(spec.one_of);
        }
        if let Some(value) = spec.default_value {
            arg = arg.default_value(value);
        }
        out = out.input(if spec.required { arg } else { arg.optional() });
    }
    own.outputs.into_iter().fold(out, |out, media| out.output(media))
}

const HOSTILE: &str = r#"" } ; DROP ALL ; INSERT DATA { <urn:x> <urn:y> ""#;

fn kernel() -> Kernel {
    let store = DurableStore::in_memory().unwrap();
    let kernel = Kernel::new(Arc::new(space(store)));
    let turtle = format!(
        "<urn:example:ordinary> <http://purl.org/dc/terms/title> {} .\n\
         <urn:example:hostile>  <http://purl.org/dc/terms/title> {} .\n",
        ikigai_store::sparql::literal("ordinary"),
        ikigai_store::sparql::literal(HOSTILE),
    );
    block_on(
        kernel.issue(
            Request::new(Verb::Sink, Iri::parse("urn:iki:store:load").unwrap())
                .with_arg("content", ArgRef::Inline(turtle.into_bytes())),
            &Capability::root(),
        ),
    )
    .expect("seeding — and note it seeds THROUGH the term constructors");
    kernel
}

fn select(kernel: &Kernel, query: &str, bindings: Option<&str>) -> Result<String, Error> {
    let mut request = Request::new(Verb::Source, Iri::parse("urn:iki:store:select").unwrap())
        .with_arg("query", ArgRef::Inline(query.as_bytes().to_vec()))
        .with_arg("as", ArgRef::Inline(b"text/csv".to_vec()));
    if let Some(json) = bindings {
        request = request.with_arg("bindings", ArgRef::Inline(json.as_bytes().to_vec()));
    }
    block_on(kernel.issue(request, &Capability::root()))
        .map(|r| String::from_utf8_lossy(&r.bytes).into_owned())
}

const BY_TITLE: &str = "SELECT * WHERE { ?s <http://purl.org/dc/terms/title> ?title }";

#[test]
fn a_hostile_binding_is_matched_as_data_not_executed_as_syntax() {
    let kernel = kernel();
    let json = bindings_json(vec![("title", Term::from(Literal::new_simple_literal(HOSTILE)))]);
    let out = select(&kernel, BY_TITLE, Some(&json)).expect("the bound query");
    assert!(out.contains("urn:example:hostile"), "{out}");
    assert!(!out.contains("urn:example:ordinary"), "{out}");

    let all = select(&kernel, BY_TITLE, None).expect("an unbound query");
    assert_eq!(all.lines().count(), 3, "header + two rows: {all}");
}

#[test]
fn a_bare_json_string_binds_as_a_plain_literal() {
    let kernel = kernel();
    let out = select(&kernel, BY_TITLE, Some(r#"{"title": "ordinary"}"#)).expect("bound");
    assert!(out.contains("urn:example:ordinary"), "{out}");
    assert!(!out.contains("urn:example:hostile"), "{out}");
}

#[test]
fn an_iri_binds_in_the_subject_position() {
    let kernel = kernel();
    let out = select(
        &kernel,
        BY_TITLE,
        Some(r#"{"s": {"type":"uri","value":"urn:example:ordinary"}}"#),
    )
    .expect("bound");
    assert!(out.contains("urn:example:ordinary"), "{out}");
    assert!(!out.contains("urn:example:hostile"), "{out}");
}

#[test]
fn an_unprojected_binding_is_refused_with_the_fix() {
    let kernel = kernel();
    let err = select(
        &kernel,
        "SELECT ?s WHERE { ?s <http://purl.org/dc/terms/title> ?title }",
        Some(r#"{"title": "ordinary"}"#),
    )
    .expect_err("an unprojected binding");
    let text = err.to_string();
    assert!(
        matches!(&err, Error::InvalidArgument { name, .. } if name == "bindings"),
        "{err:?}"
    );
    assert!(
        text.contains("projection"),
        "upstream wording changed: {text}"
    );
    assert!(
        text.contains("SELECT *"),
        "the fix is not in the message: {text}"
    );
    assert!(
        text.contains("?title"),
        "the message does not name the binding: {text}"
    );
}

#[test]
fn a_binding_the_query_never_mentions_is_refused_not_ignored() {
    let kernel = kernel();
    let err = select(&kernel, BY_TITLE, Some(r#"{"nosuchvariable": "x"}"#))
        .expect_err("a binding for a variable the query does not have");
    assert!(
        matches!(&err, Error::InvalidArgument { name, .. } if name == "bindings"),
        "{err:?}"
    );
}

#[test]
fn the_other_query_forms_bind_any_variable_in_the_pattern() {
    let kernel = kernel();
    let ask = |json: &str| {
        let request = Request::new(Verb::Source, Iri::parse("urn:iki:store:ask").unwrap())
            .with_arg(
                "query",
                ArgRef::Inline(b"ASK { ?s <http://purl.org/dc/terms/title> ?title }".to_vec()),
            )
            .with_arg("bindings", ArgRef::Inline(json.as_bytes().to_vec()));
        String::from_utf8_lossy(
            &block_on(kernel.issue(request, &Capability::root()))
                .expect("the bound ASK")
                .bytes,
        )
        .into_owned()
    };
    assert!(ask(r#"{"title": "ordinary"}"#).contains("true"));
    assert!(ask(r#"{"title": "no such title"}"#).contains("false"));
}

#[test]
fn a_malformed_bindings_argument_is_refused_by_name() {
    let kernel = kernel();
    for json in [r#"{"title": null}"#, "not json", "[1,2]"] {
        let err = select(&kernel, BY_TITLE, Some(json)).expect_err("{json}");
        assert!(
            matches!(&err, Error::InvalidArgument { name, .. } if name == "bindings"),
            "{json}: {err:?}"
        );
    }
}

#[test]
fn the_write_doors_refuse_bindings_and_say_what_to_use_instead() {
    let kernel = kernel();
    for (iri, extra) in [
        ("urn:iki:store:update", None),
        (
            "urn:iki:store:graph-update",
            Some(("graph", "urn:example:g")),
        ),
    ] {
        let mut request = Request::new(Verb::Sink, Iri::parse(iri).unwrap())
            .with_arg(
                "content",
                ArgRef::Inline(b"INSERT DATA { <urn:a> <urn:b> ?v }".to_vec()),
            )
            .with_arg("bindings", ArgRef::Inline(br#"{"v": "x"}"#.to_vec()));
        if let Some((name, value)) = extra {
            request = request.with_arg(name, ArgRef::Inline(value.as_bytes().to_vec()));
        }
        let err = block_on(kernel.issue(request, &Capability::root()))
            .expect_err("a `bindings` argument on a write");
        let text = err.to_string();
        assert!(
            matches!(&err, Error::InvalidArgument { name, .. } if name == "bindings"),
            "{iri}: {err:?}"
        );
        assert!(text.contains("ikigai_store::sparql"), "{iri}: {text}");
    }
}

#[test]
fn a_query_without_bindings_is_unchanged() {
    let kernel = kernel();
    let out = select(&kernel, BY_TITLE, None).expect("an unbound query");
    assert_eq!(out.lines().count(), 3, "{out}");
}
