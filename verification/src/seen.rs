//! How the values of this library are seen over mathematical sequences: each as it is, and a list
//! item by item.

use crate::config::{Layer, LayerModel, StorePath, StorePathModel};
use crate::confine::Applied;
use crate::dataset::{
    graph_view, models, picked, quad_model, Failure, GraphModel, GraphPlace, Statement,
};
use crate::error::{outcome, Error, ErrorModel};
use crate::json::{json_model, value_entries};
use crate::request::{ArgSpec, Description, Representation};
use crate::results::document;
use crate::scope::{answer_model, Answer, AnswerModel};
use crate::sparql::{fields_view, names_of, offers_view, optional, Given, GivenModel};
use crate::store::{Backing, BackingModel, OpenFailure, OpenFailureModel};
use crate::term::{Annotation, AnnotationModel, NamedNode, Term, TermModel};
use crate::text::{strings, texts};
use oxigraph::model::Quad;
use serde_json::Value;
use vstd::prelude::*;

verus! {

/// A list of texts is seen text by text: as many, in order, each as it is.
pub proof fn texts_are_seen_one_by_one(borrowed: Seq<&str>, owned: Seq<String>)
    ensures
        texts(borrowed).len() == borrowed.len(),
        forall|i: int| 0 <= i < borrowed.len() ==> #[trigger] texts(borrowed)[i] == borrowed[i]@,
        strings(owned).len() == owned.len(),
        forall|i: int| 0 <= i < owned.len() ==> #[trigger] strings(owned)[i] == owned[i]@,
{
}

/// A list of quads is seen quad by quad: as many, in order, each as it is.
pub proof fn quads_are_seen_one_by_one(quads: Seq<Quad>, chosen: Seq<&Quad>)
    ensures
        models(quads).len() == quads.len(),
        forall|i: int| 0 <= i < quads.len() ==> #[trigger] models(quads)[i] == quad_model(quads[i]),
        picked(chosen).len() == chosen.len(),
        forall|i: int|
            0 <= i < chosen.len() ==> #[trigger] picked(chosen)[i] == quad_model(*chosen[i]),
{
}

/// What is offered for variables is seen entry by entry: as many, in order, each under its name.
pub proof fn offers_are_seen_one_by_one(
    offers: Seq<(String, Given)>,
    fields: Seq<(String, Option<String>)>,
    values: Seq<(String, Value)>,
)
    ensures
        offers_view(offers).len() == offers.len(),
        forall|i: int|
            0 <= i < offers.len() ==> #[trigger] offers_view(offers)[i] == (
                offers[i].0@,
                offers[i].1@,
            ),
        names_of(offers_view(offers)).len() == offers.len(),
        forall|i: int|
            0 <= i < offers.len() ==> #[trigger] names_of(offers_view(offers))[i] == offers[i].0@,
        fields_view(fields).len() == fields.len(),
        forall|i: int|
            0 <= i < fields.len() ==> (#[trigger] fields_view(fields)[i]).0 == fields[i].0@
                && match fields[i].1 {
                Some(text) => fields_view(fields)[i].1 == Some(text@),
                None => fields_view(fields)[i].1 == None::<Seq<char>>,
            },
        value_entries(values).len() == values.len(),
        forall|i: int|
            0 <= i < values.len() ==> #[trigger] value_entries(values)[i] == (
                values[i].0@,
                json_model(values[i].1),
            ),
{
}

/// A value that is offered is seen as it is.
pub proof fn an_offer_is_seen_as_it_is(given: Given)
    ensures
        match given {
            Given::Null => given@ == GivenModel::Null,
            Given::Boolean(value) => given@ == GivenModel::Boolean(value),
            Given::Number { text, float } => given@ == (GivenModel::Number { text: text@, float }),
            Given::Text(text) => given@ == GivenModel::Text(text@),
            Given::Array => given@ == GivenModel::Array,
            Given::Object(fields) => given@ == GivenModel::Object(fields_view(fields@)),
        },
{
}

/// A term is seen as it is: an IRI, a blank node's label, and a literal's text with its language
/// or its datatype.
pub proof fn a_term_is_seen_as_it_is(term: Term, annotation: Annotation)
    ensures
        match term {
            Term::NamedNode(node) => term@ == TermModel::NamedNode(node@),
            Term::BlankNode(label) => term@ == TermModel::BlankNode(label@),
            Term::Literal(literal) => term@ == TermModel::Literal(literal@),
        },
        match annotation {
            Annotation::Plain => annotation@ == AnnotationModel::Plain,
            Annotation::Language(tag) => annotation@ == AnnotationModel::Language(tag@),
            Annotation::Datatype(datatype) => annotation@ == AnnotationModel::Datatype(datatype@),
        },
{
}

/// A statement is seen term by term, in the graph it stands in.
pub proof fn a_statement_is_seen_as_it_is(statement: Statement)
    ensures
        statement@.subject == statement.subject@,
        statement@.predicate == statement.predicate@,
        statement@.object == statement.object@,
        match statement.graph {
            GraphPlace::Default => statement@.graph == GraphModel::Default,
            GraphPlace::Iri(iri) => statement@.graph == GraphModel::Iri(iri@),
            GraphPlace::Blank(label) => statement@.graph == GraphModel::Blank(label@),
        },
{
}

/// An answer of the evaluator is seen as it is: its variables, its truth value, and its rows or
/// triples.
pub proof fn an_answer_is_seen_as_it_is(answer: Answer, reason: String)
    ensures
        match answer {
            Answer::Solutions { variables, rows } => answer@ == (AnswerModel::Solutions {
                variables: strings(variables@),
                rows: crate::scope::fallible(rows@),
            }),
            Answer::Boolean(value) => answer@ == AnswerModel::Boolean(value),
            Answer::Graph(triples) => answer@ == AnswerModel::Graph(
                crate::scope::fallible(triples@),
            ),
        },
        answer_model(Ok(answer)) == Ok::<AnswerModel, Seq<char>>(answer@),
        answer_model(Err(reason)) == Err::<AnswerModel, Seq<char>>(reason@),
{
}

/// A representation is seen as it is: its media type, its charset, its bytes, whether it may be
/// kept, and its threads.
pub proof fn a_representation_is_seen_as_it_is(rep: Representation)
    ensures
        rep@.media_type == rep.media_type@,
        rep@.charset == rep.charset@,
        rep@.bytes == rep.bytes@,
        rep@.cacheable == rep.cacheable,
        rep@.threads.len() == rep.threads@.len(),
        forall|i: int|
            0 <= i < rep.threads@.len() ==> #[trigger] rep@.threads[i] == rep.threads@[i]@,
{
}

/// An error is seen as it is: its kind and its texts. So is a result with one.
pub proof fn an_error_is_seen_as_it_is<T: View>(error: Error, value: T)
    ensures
        match error {
            Error::MissingArgument(name) => error@ == ErrorModel::MissingArgument(name@),
            Error::InvalidArgument { name, detail } => error@ == (ErrorModel::InvalidArgument {
                name: name@,
                detail: detail@,
            }),
            Error::Endpoint(text) => error@ == ErrorModel::Endpoint(text@),
            Error::Denied(text) => error@ == ErrorModel::Denied(text@),
            Error::Unavailable(text) => error@ == ErrorModel::Unavailable(text@),
        },
        outcome::<T>(Ok(value)) == Ok::<T::V, ErrorModel>(value@),
        outcome::<T>(Err(error)) == Err::<T::V, ErrorModel>(error@),
{
}

/// A document, an optional text and an optional graph are seen as they are.
pub proof fn options_are_seen_as_they_are(
    media: String,
    bytes: Vec<u8>,
    error: Error,
    text: &str,
    graph: &NamedNode,
)
    ensures
        document(Ok((media, bytes))) == Ok::<(Seq<char>, Seq<u8>), ErrorModel>((media@, bytes@)),
        document(Err(error)) == Err::<(Seq<char>, Seq<u8>), ErrorModel>(error@),
        optional(Some(text)) == Some(text@),
        optional(None) == None::<Seq<char>>,
        graph_view(Some(graph)) == Some(graph@),
        graph_view(None) == None::<Seq<char>>,
{
}

/// What a store reports, where it lies and what was done to it are seen as they are.
pub proof fn a_store_is_seen_as_it_is(
    backing: Backing,
    opening: OpenFailure,
    failure: Failure,
    applied: Applied,
)
    ensures
        match backing {
            Backing::Memory => backing@ == BackingModel::Memory,
            Backing::Durable(path) => backing@ == BackingModel::Durable(path@),
        },
        match opening {
            OpenFailure::Directory(reason) => opening@ == OpenFailureModel::Directory(reason@),
            OpenFailure::Store(reason) => opening@ == OpenFailureModel::Store(reason@),
        },
        match failure {
            Failure::Storage(text) => failure.spec_text() == text@,
            Failure::Refused(text) => failure.spec_text() == text@,
        },
        applied@ == (applied.added as nat, applied.removed as nat),
{
}

/// A layer of the configuration, and the path that comes of it, are seen as they are.
pub proof fn a_layer_is_seen_as_it_is(layer: Layer, place: StorePath)
    ensures
        match layer {
            Layer::Missing => layer@ == LayerModel::Missing,
            Layer::Unreadable(reason) => layer@ == LayerModel::Unreadable(reason@),
            Layer::Unparsable(reason) => layer@ == LayerModel::Unparsable(reason@),
            Layer::Silent => layer@ == LayerModel::Silent,
            Layer::Path { path, absolute } => layer@ == (LayerModel::Path {
                path: path@,
                absolute,
            }),
        },
        match place {
            StorePath::AsWritten(path) => place@ == StorePathModel::AsWritten(path@),
            StorePath::UnderDataHome(path) => place@ == StorePathModel::UnderDataHome(path@),
        },
        (crate::config::StoreConfig { path: place })@ == place@,
{
}

/// A description is seen as it is: its texts, its verbs, its scope, its arguments one by one and
/// its outputs one by one.
pub proof fn a_description_is_seen_as_it_is(description: Description, argument: ArgSpec)
    ensures
        description@.id == description.id@,
        description@.title == description.title@,
        description@.summary == description.summary@,
        description@.verbs == description.verbs@,
        description@.capability == description.capability@,
        description@.inputs.len() == description.inputs@.len(),
        forall|i: int|
            0 <= i < description.inputs@.len() ==> #[trigger] description@.inputs[i]
                == description.inputs@[i]@,
        description@.outputs == strings(description.outputs@),
        argument@.name == argument.name@,
        argument@.summary == argument.summary@,
        argument@.class == argument.class@,
        argument@.one_of == strings(argument.one_of@),
        argument@.required == argument.required,
        match argument.default_value {
            Some(text) => argument@.default_value == Some(text@),
            None => argument@.default_value == None::<Seq<char>>,
        },
{
}

} // verus!
