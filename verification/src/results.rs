//! Answers as bytes: which serialization an `as` argument asks for, and writing it.

use crate::error::{Error, ErrorModel};
use crate::scope::{fallible, Answer, AnswerModel};
use crate::text::{
    chars_of, find, find_in, join, joined, same_text, strings, text_of, texts, trim_in, trimmed,
};
use crate::write::LOAD_FORMATS;
use oxigraph::io::{RdfFormat, RdfSerializer, WriterQuadSerializer};
use oxigraph::model::{GraphName, Triple};
use oxigraph::sparql::results::{
    QueryResultsFormat, QueryResultsSerializer, WriterSolutionsSerializer,
};
use oxigraph::sparql::{QuerySolution, Variable};
use vstd::prelude::*;
use vstd::string::StrSliceExecFns;

verus! {

#[verifier::external_type_specification]
#[verifier::external_body]
pub struct ExQueryResultsFormat(QueryResultsFormat);

#[verifier::external_type_specification]
#[verifier::external_body]
pub struct ExRdfFormat(RdfFormat);

/// Result serializations for SELECT and ASK, the default first.
pub const RESULT_OUTPUTS: [&'static str; 4] = [
    "application/sparql-results+json",
    "application/sparql-results+xml",
    "text/csv",
    "text/tab-separated-values",
];

/// Graph serializations for CONSTRUCT and DESCRIBE, the default first.
pub const GRAPH_OUTPUTS: [&'static str; 2] = ["application/n-triples", "text/turtle"];

/// A media type without its parameters.
pub open spec fn bare(media: Seq<char>) -> Seq<char> {
    trimmed(media.take(find(media, ';')))
}

/// A media type without its parameters.
///
/// The media type of a result format is not always bare: for CSV it is
/// `text/csv; charset=utf-8`. Put into an answer as it is, and the charset added, it would
/// carry the parameter twice.
pub fn bare_media(media: &str) -> (r: &str)
    ensures
        r@ == bare(media@),
{
    let chars = chars_of(media);
    let end = find_in(&chars, 0, chars.len(), ';');
    let (from, to) = trim_in(&chars, 0, end);
    assert(chars@.subrange(0, chars@.len() as int) == media@);
    assert(chars@.subrange(0, end as int) == media@.take(end as int));
    media.substring_char(from, to)
}

/// Whether a text is one of a list.
fn is_one_of(text: &str, list: &[&'static str]) -> (r: bool)
    ensures
        r == texts(list@).contains(text@),
{
    let mut i: usize = 0;
    while i < list.len()
        invariant
            i <= list@.len(),
            forall|k: int| 0 <= k < i ==> #[trigger] texts(list@)[k] != text@,
        decreases list@.len() - i,
    {
        assert(texts(list@)[i as int] == list@[i as int]@);
        if same_text(list[i], text) {
            return true;
        }
        i += 1;
    }
    false
}

/// The result format a media type names to the RDF library.
pub uninterp spec fn results_format_for(media: Seq<char>) -> Option<QueryResultsFormat>;

/// The media type of a result format.
pub uninterp spec fn results_media(format: QueryResultsFormat) -> Seq<char>;

/// The RDF format a media type names to the RDF library.
pub uninterp spec fn rdf_format_for(media: Seq<char>) -> Option<RdfFormat>;

/// The media type of an RDF format.
pub uninterp spec fn rdf_media(format: RdfFormat) -> Seq<char>;

/// `QueryResultsFormat::from_media_type`: the result format a media type names, if any. Each of
/// the declared ones names the format whose media type it is.
#[verifier::external_body]
fn find_results_format(media: &str) -> (r: Option<QueryResultsFormat>)
    ensures
        r == results_format_for(media@),
        texts(RESULT_OUTPUTS@).contains(media@) ==> r is Some && bare(results_media(r->Some_0))
            == media@,
{
    QueryResultsFormat::from_media_type(media)
}

/// `QueryResultsFormat::media_type`: the media type of a result format, with its parameters.
#[verifier::external_body]
fn media_of_results(format: &QueryResultsFormat) -> (r: &'static str)
    ensures
        r@ == results_media(*format),
{
    format.media_type()
}

/// `QueryResultsFormat::Json`, which `application/sparql-results+json` names.
#[verifier::external_body]
fn json_results() -> (r: QueryResultsFormat)
    ensures
        Some(r) == results_format_for("application/sparql-results+json"@),
{
    QueryResultsFormat::Json
}

/// Whether a parameter of a media type is a `profile` that is a lone quote.
pub open spec fn is_lone_quote(parameter: Seq<char>) -> bool {
    let at = find(parameter, '=');
    at < parameter.len() && trimmed(parameter.take(at)) == "profile"@ && trimmed(
        parameter.skip(at + 1),
    ) == "\""@
}

/// Whether one of the parameters, each behind a `;`, is a `profile` that is a lone quote.
pub open spec fn has_lone_quote(parameters: Seq<char>) -> bool
    decreases parameters.len(),
{
    let end = find(parameters, ';');
    is_lone_quote(parameters.take(end)) || (0 <= end < parameters.len() && has_lone_quote(
        parameters.skip(end + 1),
    ))
}

/// Whether a media type carries a `profile` parameter that opens a quote and holds nothing
/// else.
pub open spec fn unclosed_profile(media: Seq<char>) -> bool {
    let end = find(media, ';');
    0 <= end < media.len() && has_lone_quote(media.skip(end + 1))
}

/// `RdfFormat::from_media_type`: the RDF format a media type names, if any. It cuts the
/// quotes off a `profile` parameter without looking whether there are two, and panics on a
/// lone one. Each of the declared ones names the format whose media type it is.
#[verifier::external_body]
fn find_rdf_format(media: &str) -> (r: Option<RdfFormat>)
    requires
        !unclosed_profile(media@),
    ensures
        r == rdf_format_for(media@),
        texts(LOAD_FORMATS@).contains(media@) ==> r is Some && bare(rdf_media(r->Some_0))
            == media@,
{
    RdfFormat::from_media_type(media)
}

/// The RDF format that a media type names which names one.
pub open spec fn format_of(media: Seq<char>) -> RdfFormat {
    rdf_format_for(media)->Some_0
}

/// Whether a format is one of the syntaxes for triples: Turtle, N-Triples or RDF/XML.
pub open spec fn is_triple_syntax(format: RdfFormat) -> bool {
    ||| format == format_of("text/turtle"@)
    ||| format == format_of("application/n-triples"@)
    ||| format == format_of("application/rdf+xml"@)
}

/// Whether a format is one of the syntaxes for quads: N-Quads or TriG.
pub open spec fn is_quad_syntax(format: RdfFormat) -> bool {
    ||| format == format_of("application/n-quads"@)
    ||| format == format_of("application/trig"@)
}

/// Whether a format is one of the syntaxes for triples or quads.
pub open spec fn is_plain_syntax(format: RdfFormat) -> bool {
    is_triple_syntax(format) || is_quad_syntax(format)
}

/// Whether the documents of an RDF format name their own graphs.
pub uninterp spec fn rdf_names_graphs(format: RdfFormat) -> bool;

/// Whether the documents of the RDF format that a media type names have graph names of their
/// own. Those of the syntaxes for quads do, and those of the syntaxes for triples do not.
pub open spec fn names_own_graphs(media: Seq<char>, format: RdfFormat) -> bool {
    if media == "text/turtle"@ || media == "application/n-triples"@ || media
        == "application/rdf+xml"@ {
        false
    } else if media == "application/n-quads"@ || media == "application/trig"@ {
        true
    } else {
        is_quad_syntax(format) || !is_triple_syntax(format) && rdf_names_graphs(format)
    }
}

/// `RdfFormat::supports_datasets`: whether the documents of a format name their own graphs.
/// Those of the syntaxes for quads do, and those of the syntaxes for triples do not.
#[verifier::external_body]
pub(crate) fn names_graphs(format: &RdfFormat) -> (r: bool)
    ensures
        r == rdf_names_graphs(*format),
        is_quad_syntax(*format) ==> r,
        is_triple_syntax(*format) ==> !r,
{
    format.supports_datasets()
}

/// `RdfFormat::media_type`: the media type of an RDF format, with its parameters.
#[verifier::external_body]
fn media_of_rdf(format: &RdfFormat) -> (r: &'static str)
    ensures
        r@ == rdf_media(*format),
{
    format.media_type()
}

/// `RdfFormat::NTriples`, which `application/n-triples` names.
#[verifier::external_body]
fn ntriples() -> (r: RdfFormat)
    ensures
        Some(r) == rdf_format_for("application/n-triples"@),
{
    RdfFormat::NTriples
}

/// Whether the text from `from` up to `to` is a given one.
fn part_is(chars: &Vec<char>, from: usize, to: usize, text: &str) -> (r: bool)
    requires
        from <= to <= chars@.len(),
    ensures
        r == (trimmed(chars@.subrange(from as int, to as int)) == text@),
{
    let (start, end) = trim_in(chars, from, to);
    same_text(text_of(chars, start, end).as_str(), text)
}

/// Whether a media type carries a `profile` parameter that is a lone quote.
fn has_unclosed_profile(media: &str) -> (r: bool)
    ensures
        r == unclosed_profile(media@),
{
    let chars = chars_of(media);
    let len: usize = chars.len();
    assert(chars@.subrange(0, len as int) == media@);
    let first = find_in(&chars, 0, len, ';');
    if first == len {
        return false;
    }
    let mut from: usize = first + 1;
    assert(media@.skip(first + 1) == chars@.subrange(from as int, len as int));
    loop
        invariant
            from <= len == chars@.len(),
            chars@ == media@,
            unclosed_profile(media@) == has_lone_quote(chars@.subrange(from as int, len as int)),
        decreases len - from,
    {
        let ghost parameters = chars@.subrange(from as int, len as int);
        let end = find_in(&chars, from, len, ';');
        let at = find_in(&chars, from, end, '=');
        proof {
            let parameter = parameters.take(end - from);
            assert(parameter == chars@.subrange(from as int, end as int));
            assert(parameter.take(at - from) == chars@.subrange(from as int, at as int));
            if at < end {
                assert(parameter.skip(at - from + 1) == chars@.subrange(at + 1, end as int));
            }
        }
        if at < end && part_is(&chars, from, at, "profile") && part_is(&chars, at + 1, end, "\"") {
            return true;
        }
        if end == len {
            return false;
        }
        assert(parameters.skip(end - from + 1) == chars@.subrange(end + 1, len as int));
        from = end + 1;
    }
}

/// A declared media type has no parameters.
proof fn lemma_declared_media(media: Seq<char>)
    requires
        texts(LOAD_FORMATS@).contains(media),
    ensures
        find(media, ';') == media.len(),
{
    reveal_strlit("text/turtle");
    reveal_strlit("application/n-triples");
    reveal_strlit("application/n-quads");
    reveal_strlit("application/trig");
    reveal_strlit("application/rdf+xml");
    let i = choose|i: int| 0 <= i < LOAD_FORMATS@.len() && texts(LOAD_FORMATS@)[i] == media;
    assert(media == LOAD_FORMATS@[i]@);
    assert forall|k: int| 0 <= k < media.len() implies media[k] != ';' by {
        assert(i == 0 || i == 1 || i == 2 || i == 3 || i == 4);
    }
    lemma_not_found(media, ';');
}

/// A character that is not in a text is not found in it.
proof fn lemma_not_found(text: Seq<char>, c: char)
    requires
        forall|k: int| 0 <= k < text.len() ==> text[k] != c,
    ensures
        find(text, c) == text.len(),
    decreases text.len(),
{
    if text.len() > 0 {
        assert forall|k: int| 0 <= k < text.drop_first().len() implies text.drop_first()[k] != c by {
            assert(text.drop_first()[k] == text[k + 1]);
        }
        lemma_not_found(text.drop_first(), c);
    }
}

/// The RDF format a media type names, if any.
pub open spec fn rdf_format_named(media: Seq<char>) -> Option<RdfFormat> {
    if unclosed_profile(media) {
        None
    } else {
        rdf_format_for(media)
    }
}

/// The RDF format a media type names, if any. A media type with a broken `profile` names
/// none, and each of the declared ones names one.
pub fn rdf_format(media: &str) -> (r: Option<RdfFormat>)
    ensures
        r == rdf_format_named(media@),
        texts(LOAD_FORMATS@).contains(media@) ==> r == Some(format_of(media@)) && bare(
            rdf_media(format_of(media@)),
        ) == media@,
{
    proof {
        if texts(LOAD_FORMATS@).contains(media@) {
            lemma_declared_media(media@);
        }
    }
    if has_unclosed_profile(media) {
        None
    } else {
        find_rdf_format(media)
    }
}

/// The refusal of an `as` that SELECT and ASK cannot answer in.
pub open spec fn no_result_format(spec: Seq<char>) -> ErrorModel {
    ErrorModel::InvalidArgument {
        name: "as"@,
        detail: "SELECT/ASK cannot answer in `"@ + spec + "` — one of "@ + joined(
            texts(RESULT_OUTPUTS@),
            ", "@,
        )
            + ". A graph syntax is not among them: only CONSTRUCT and DESCRIBE answer with a graph"@,
    }
}

/// The refusal of an `as` that CONSTRUCT and DESCRIBE cannot answer in.
pub open spec fn no_graph_format(spec: Seq<char>) -> ErrorModel {
    ErrorModel::InvalidArgument {
        name: "as"@,
        detail: "CONSTRUCT/DESCRIBE cannot answer in `"@ + spec + "` — one of "@ + joined(
            texts(GRAPH_OUTPUTS@),
            ", "@,
        ),
    }
}

/// The result format an `as` argument asks for: JSON where there is none, and never another
/// one than what was asked for. Every declared output names one.
pub open spec fn results_format_of(as_type: Option<Seq<char>>) -> Result<
    QueryResultsFormat,
    ErrorModel,
> {
    match as_type {
        None => Ok(results_format_for("application/sparql-results+json"@)->Some_0),
        Some(spec) => if texts(RESULT_OUTPUTS@).contains(spec) {
            Ok(results_format_for(spec)->Some_0)
        } else {
            match results_format_for(spec) {
                Some(format) => if texts(RESULT_OUTPUTS@).contains(bare(results_media(format))) {
                    Ok(format)
                } else {
                    Err(no_result_format(spec))
                },
                None => Err(no_result_format(spec)),
            }
        },
    }
}

/// The graph format an `as` argument asks for: N-Triples where there is none, and never
/// another one than what was asked for. Every declared output names one.
pub open spec fn graph_format_of(as_type: Option<Seq<char>>) -> Result<RdfFormat, ErrorModel> {
    match as_type {
        None => Ok(format_of("application/n-triples"@)),
        Some(spec) => if texts(GRAPH_OUTPUTS@).contains(spec) {
            Ok(format_of(spec))
        } else {
            match rdf_format_named(spec) {
                Some(format) => if texts(GRAPH_OUTPUTS@).contains(bare(rdf_media(format))) {
                    Ok(format)
                } else {
                    Err(no_graph_format(spec))
                },
                None => Err(no_graph_format(spec)),
            }
        },
    }
}

/// The result format an `as` argument asks for. Every declared output is offered.
pub fn results_format(as_type: Option<&str>) -> (r: Result<QueryResultsFormat, Error>)
    ensures
        match r {
            Ok(format) => results_format_of(crate::sparql::optional(as_type)) == Ok::<
                QueryResultsFormat,
                ErrorModel,
            >(format),
            Err(e) => results_format_of(crate::sparql::optional(as_type)) == Err::<
                QueryResultsFormat,
                ErrorModel,
            >(e@),
        },
        as_type matches Some(spec) ==> (texts(RESULT_OUTPUTS@).contains(spec@) ==> r is Ok && bare(
            results_media(r->Ok_0),
        ) == spec@),
{
    let spec = match as_type {
        Some(spec) => spec,
        None => {
            return Ok(json_results());
        },
    };
    match find_results_format(spec) {
        Some(format) => {
            if is_one_of(bare_media(media_of_results(&format)), &RESULT_OUTPUTS) {
                return Ok(format);
            }
        },
        None => {},
    }
    let mut detail = "SELECT/ASK cannot answer in `".to_owned();
    detail.append(spec);
    detail.append("` — one of ");
    detail.append(join(&RESULT_OUTPUTS, ", ").as_str());
    detail.append(
        ". A graph syntax is not among them: only CONSTRUCT and DESCRIBE answer with a graph",
    );
    Err(Error::InvalidArgument { name: "as".to_owned(), detail })
}

/// The graph format an `as` argument asks for. Every declared output is offered.
pub fn graph_format(as_type: Option<&str>) -> (r: Result<RdfFormat, Error>)
    ensures
        match r {
            Ok(format) => graph_format_of(crate::sparql::optional(as_type)) == Ok::<
                RdfFormat,
                ErrorModel,
            >(format),
            Err(e) => graph_format_of(crate::sparql::optional(as_type)) == Err::<
                RdfFormat,
                ErrorModel,
            >(e@),
        },
        as_type matches Some(spec) ==> (texts(GRAPH_OUTPUTS@).contains(spec@) ==> r is Ok && bare(
            rdf_media(r->Ok_0),
        ) == spec@),
{
    let spec = match as_type {
        Some(spec) => spec,
        None => {
            return Ok(ntriples());
        },
    };
    proof {
        assert(texts(LOAD_FORMATS@)[0] == texts(GRAPH_OUTPUTS@)[1]);
        assert(texts(LOAD_FORMATS@)[1] == texts(GRAPH_OUTPUTS@)[0]);
        assert(texts(GRAPH_OUTPUTS@).len() == 2);
    }
    match rdf_format(spec) {
        Some(format) => {
            if is_one_of(bare_media(media_of_rdf(&format)), &GRAPH_OUTPUTS) {
                return Ok(format);
            }
        },
        None => {},
    }
    let mut detail = "CONSTRUCT/DESCRIBE cannot answer in `".to_owned();
    detail.append(spec);
    detail.append("` — one of ");
    detail.append(join(&GRAPH_OUTPUTS, ", ").as_str());
    Err(Error::InvalidArgument { name: "as".to_owned(), detail })
}

/// A result set being written, held by `oxigraph`'s `WriterSolutionsSerializer`.
#[verifier::external_body]
pub struct SolutionsWriter {
    inner: WriterSolutionsSerializer<Vec<u8>>,
}

/// A graph being written, held by `oxigraph`'s `WriterQuadSerializer`.
#[verifier::external_body]
pub struct GraphWriter {
    inner: WriterQuadSerializer<Vec<u8>>,
}

/// A result set begun with these variables, or why it could not be.
pub uninterp spec fn solutions_begun(
    format: QueryResultsFormat,
    variables: Seq<Seq<char>>,
) -> Result<SolutionsWriter, Seq<char>>;

/// A result set with one more row, or why it could not be written.
pub uninterp spec fn solution_written(
    writer: SolutionsWriter,
    row: QuerySolution,
) -> Result<SolutionsWriter, Seq<char>>;

/// The bytes of a result set, or why it could not be finished.
pub uninterp spec fn solutions_finished(writer: SolutionsWriter) -> Result<Seq<u8>, Seq<char>>;

/// The bytes of a truth value, or why it could not be written.
pub uninterp spec fn boolean_written(format: QueryResultsFormat, value: bool) -> Result<
    Seq<u8>,
    Seq<char>,
>;

/// A graph begun.
pub uninterp spec fn graph_begun(format: RdfFormat) -> GraphWriter;

/// A graph with one more triple, or why it could not be written.
pub uninterp spec fn triple_written(writer: GraphWriter, triple: Triple) -> Result<
    GraphWriter,
    Seq<char>,
>;

/// The bytes of a graph, or why it could not be finished.
pub uninterp spec fn graph_finished(writer: GraphWriter) -> Result<Seq<u8>, Seq<char>>;

/// `QueryResultsSerializer::serialize_solutions_to_writer`: begins a result set.
#[verifier::external_body]
fn begin_solutions(format: &QueryResultsFormat, variables: &Vec<String>) -> (r: Result<
    SolutionsWriter,
    String,
>)
    ensures
        match r {
            Ok(writer) => solutions_begun(*format, strings(variables@)) == Ok::<
                SolutionsWriter,
                Seq<char>,
            >(writer),
            Err(reason) => solutions_begun(*format, strings(variables@)) == Err::<
                SolutionsWriter,
                Seq<char>,
            >(reason@),
        },
{
    let variables = variables.iter().map(|v| Variable::new_unchecked(v.as_str())).collect();
    match QueryResultsSerializer::from_format(*format).serialize_solutions_to_writer(Vec::new(), variables) {
        Ok(inner) => Ok(SolutionsWriter { inner }),
        Err(e) => Err(e.to_string()),
    }
}

/// `WriterSolutionsSerializer::serialize`: writes one row.
#[verifier::external_body]
fn write_solution(writer: &mut SolutionsWriter, row: &QuerySolution) -> (r: Result<(), String>)
    ensures
        match r {
            Ok(()) => solution_written(*old(writer), *row) == Ok::<SolutionsWriter, Seq<char>>(
                *final(writer),
            ),
            Err(reason) => solution_written(*old(writer), *row) == Err::<
                SolutionsWriter,
                Seq<char>,
            >(reason@),
        },
{
    writer.inner.serialize(row).map_err(|e| e.to_string())
}

/// `WriterSolutionsSerializer::finish`: the bytes of the result set.
#[verifier::external_body]
fn finish_solutions(writer: SolutionsWriter) -> (r: Result<Vec<u8>, String>)
    ensures
        match r {
            Ok(bytes) => solutions_finished(writer) == Ok::<Seq<u8>, Seq<char>>(bytes@),
            Err(reason) => solutions_finished(writer) == Err::<Seq<u8>, Seq<char>>(reason@),
        },
{
    writer.inner.finish().map_err(|e| e.to_string())
}

/// `QueryResultsSerializer::serialize_boolean_to_writer`: the bytes of a truth value.
#[verifier::external_body]
fn write_boolean(format: &QueryResultsFormat, value: bool) -> (r: Result<Vec<u8>, String>)
    ensures
        match r {
            Ok(bytes) => boolean_written(*format, value) == Ok::<Seq<u8>, Seq<char>>(bytes@),
            Err(reason) => boolean_written(*format, value) == Err::<Seq<u8>, Seq<char>>(reason@),
        },
{
    let serializer = QueryResultsSerializer::from_format(*format);
    serializer.serialize_boolean_to_writer(Vec::new(), value).map_err(|e| e.to_string())
}

/// `RdfSerializer::for_writer`: begins a graph.
#[verifier::external_body]
fn begin_graph(format: &RdfFormat) -> (r: GraphWriter)
    ensures
        r == graph_begun(*format),
{
    GraphWriter { inner: RdfSerializer::from_format(*format).for_writer(Vec::new()) }
}

/// `WriterQuadSerializer::serialize_quad` in the default graph: writes one triple.
#[verifier::external_body]
fn write_triple(writer: &mut GraphWriter, triple: &Triple) -> (r: Result<(), String>)
    ensures
        match r {
            Ok(()) => triple_written(*old(writer), *triple) == Ok::<GraphWriter, Seq<char>>(
                *final(writer),
            ),
            Err(reason) => triple_written(*old(writer), *triple) == Err::<GraphWriter, Seq<char>>(
                reason@,
            ),
        },
{
    let quad = triple.clone().in_graph(GraphName::DefaultGraph);
    writer.inner.serialize_quad(&quad).map_err(|e| e.to_string())
}

/// `WriterQuadSerializer::finish`: the bytes of the graph.
#[verifier::external_body]
fn finish_graph(writer: GraphWriter) -> (r: Result<Vec<u8>, String>)
    ensures
        match r {
            Ok(bytes) => graph_finished(writer) == Ok::<Seq<u8>, Seq<char>>(bytes@),
            Err(reason) => graph_finished(writer) == Err::<Seq<u8>, Seq<char>>(reason@),
        },
{
    writer.inner.finish().map_err(|e| e.to_string())
}

/// A failure to write an answer.
pub open spec fn serialize_failed(reason: Seq<char>) -> ErrorModel {
    ErrorModel::Endpoint("serialize: "@ + reason)
}

/// A failure to compute an answer.
pub open spec fn query_failed(reason: Seq<char>) -> ErrorModel {
    ErrorModel::Endpoint("query: "@ + reason)
}

fn serialize_error(reason: String) -> (r: Error)
    ensures
        r@ == serialize_failed(reason@),
{
    let mut text = "serialize: ".to_owned();
    text.append(reason.as_str());
    Error::Endpoint(text)
}

fn query_error(reason: &str) -> (r: Error)
    ensures
        r@ == query_failed(reason@),
{
    let mut text = "query: ".to_owned();
    text.append(reason);
    Error::Endpoint(text)
}

/// A result set with more rows, or the first failure.
pub open spec fn rows_written(
    writer: SolutionsWriter,
    rows: Seq<Result<QuerySolution, Seq<char>>>,
) -> Result<SolutionsWriter, ErrorModel>
    decreases rows.len(),
{
    if rows.len() == 0 {
        Ok(writer)
    } else {
        match rows_written(writer, rows.drop_last()) {
            Err(e) => Err(e),
            Ok(so_far) => match rows.last() {
                Err(reason) => Err(query_failed(reason)),
                Ok(row) => match solution_written(so_far, row) {
                    Err(reason) => Err(serialize_failed(reason)),
                    Ok(longer) => Ok(longer),
                },
            },
        }
    }
}

/// A graph with more triples, or the first failure.
pub open spec fn triples_written(
    writer: GraphWriter,
    triples: Seq<Result<Triple, Seq<char>>>,
) -> Result<GraphWriter, ErrorModel>
    decreases triples.len(),
{
    if triples.len() == 0 {
        Ok(writer)
    } else {
        match triples_written(writer, triples.drop_last()) {
            Err(e) => Err(e),
            Ok(so_far) => match triples.last() {
                Err(reason) => Err(query_failed(reason)),
                Ok(triple) => match triple_written(so_far, triple) {
                    Err(reason) => Err(serialize_failed(reason)),
                    Ok(longer) => Ok(longer),
                },
            },
        }
    }
}

/// Bytes that were written, or the failure to write them.
pub open spec fn written(bytes: Result<Seq<u8>, Seq<char>>) -> Result<Seq<u8>, ErrorModel> {
    match bytes {
        Ok(bytes) => Ok(bytes),
        Err(reason) => Err(serialize_failed(reason)),
    }
}

/// The bytes of a result set.
pub open spec fn solutions_bytes(answer: AnswerModel, format: QueryResultsFormat) -> Result<
    Seq<u8>,
    ErrorModel,
> {
    match answer {
        AnswerModel::Solutions { variables, rows } => match solutions_begun(format, variables) {
            Err(reason) => Err(serialize_failed(reason)),
            Ok(writer) => match rows_written(writer, rows) {
                Err(e) => Err(e),
                Ok(whole) => written(solutions_finished(whole)),
            },
        },
        AnswerModel::Boolean(value) => written(boolean_written(format, value)),
        AnswerModel::Graph(_) => Err(
            ErrorModel::Endpoint("internal: a graph reached the result-set serializer"@),
        ),
    }
}

/// The bytes of a graph.
pub open spec fn graph_bytes(answer: AnswerModel, format: RdfFormat) -> Result<
    Seq<u8>,
    ErrorModel,
> {
    match answer {
        AnswerModel::Graph(triples) => match triples_written(graph_begun(format), triples) {
            Err(e) => Err(e),
            Ok(whole) => written(graph_finished(whole)),
        },
        _ => Err(ErrorModel::Endpoint("internal: a result set reached the graph serializer"@)),
    }
}

/// The media type a result set is answered under: the default one where none was asked for, and
/// a declared one as it was asked for.
pub open spec fn results_media_of(as_type: Option<Seq<char>>, format: QueryResultsFormat) -> Seq<
    char,
> {
    match as_type {
        None => RESULT_OUTPUTS@[0]@,
        Some(spec) => if texts(RESULT_OUTPUTS@).contains(spec) {
            spec
        } else {
            bare(results_media(format))
        },
    }
}

/// The media type a graph is answered under: the default one where none was asked for, and a
/// declared one as it was asked for.
pub open spec fn graph_media_of(as_type: Option<Seq<char>>, format: RdfFormat) -> Seq<char> {
    match as_type {
        None => GRAPH_OUTPUTS@[0]@,
        Some(spec) => if texts(GRAPH_OUTPUTS@).contains(spec) {
            spec
        } else {
            bare(rdf_media(format))
        },
    }
}

/// A result set, by its media type and its bytes.
pub open spec fn solutions_document(answer: AnswerModel, as_type: Option<Seq<char>>) -> Result<
    (Seq<char>, Seq<u8>),
    ErrorModel,
> {
    match results_format_of(as_type) {
        Err(e) => Err(e),
        Ok(format) => match solutions_bytes(answer, format) {
            Err(e) => Err(e),
            Ok(bytes) => Ok((results_media_of(as_type, format), bytes)),
        },
    }
}

/// A graph, by its media type and its bytes.
pub open spec fn graph_document(answer: AnswerModel, as_type: Option<Seq<char>>) -> Result<
    (Seq<char>, Seq<u8>),
    ErrorModel,
> {
    match graph_format_of(as_type) {
        Err(e) => Err(e),
        Ok(format) => match graph_bytes(answer, format) {
            Err(e) => Err(e),
            Ok(bytes) => Ok((graph_media_of(as_type, format), bytes)),
        },
    }
}

/// A document with its media type and its bytes taken by their views.
pub open spec fn document(r: Result<(String, Vec<u8>), Error>) -> Result<
    (Seq<char>, Seq<u8>),
    ErrorModel,
> {
    match r {
        Ok((media, bytes)) => Ok((media@, bytes@)),
        Err(e) => Err(e@),
    }
}

/// A failure in a first part of the rows is the failure of them all.
proof fn lemma_rows_fail(
    writer: SolutionsWriter,
    rows: Seq<Result<QuerySolution, Seq<char>>>,
    n: int,
    e: ErrorModel,
)
    requires
        0 <= n <= rows.len(),
        rows_written(writer, rows.take(n)) == Err::<SolutionsWriter, ErrorModel>(e),
    ensures
        rows_written(writer, rows) == Err::<SolutionsWriter, ErrorModel>(e),
    decreases rows.len(),
{
    if n == rows.len() {
        assert(rows.take(n) == rows);
    } else {
        assert(rows.drop_last().take(n) == rows.take(n));
        lemma_rows_fail(writer, rows.drop_last(), n, e);
    }
}

/// A failure in a first part of the triples is the failure of them all.
proof fn lemma_triples_fail(
    writer: GraphWriter,
    triples: Seq<Result<Triple, Seq<char>>>,
    n: int,
    e: ErrorModel,
)
    requires
        0 <= n <= triples.len(),
        triples_written(writer, triples.take(n)) == Err::<GraphWriter, ErrorModel>(e),
    ensures
        triples_written(writer, triples) == Err::<GraphWriter, ErrorModel>(e),
    decreases triples.len(),
{
    if n == triples.len() {
        assert(triples.take(n) == triples);
    } else {
        assert(triples.drop_last().take(n) == triples.take(n));
        lemma_triples_fail(writer, triples.drop_last(), n, e);
    }
}

/// Write the rows of a result set, up to the first failure.
fn write_rows(begun: SolutionsWriter, rows: &Vec<Result<QuerySolution, String>>) -> (r: Result<
    SolutionsWriter,
    Error,
>)
    ensures
        match r {
            Ok(whole) => rows_written(begun, fallible(rows@)) == Ok::<SolutionsWriter, ErrorModel>(
                whole,
            ),
            Err(e) => rows_written(begun, fallible(rows@)) == Err::<SolutionsWriter, ErrorModel>(
                e@,
            ),
        },
{
    let ghost view = fallible(rows@);
    let mut writer = begun;
    let mut i: usize = 0;
    while i < rows.len()
        invariant
            i <= rows@.len(),
            view == fallible(rows@),
            rows_written(begun, view.take(i as int)) == Ok::<SolutionsWriter, ErrorModel>(writer),
        decreases rows@.len() - i,
    {
        proof {
            assert(view.take(i + 1).drop_last() == view.take(i as int));
            assert(view.take(i + 1).last() == view[i as int]);
        }
        match &rows[i] {
            Ok(row) => match write_solution(&mut writer, row) {
                Ok(()) => {},
                Err(reason) => {
                    let e = serialize_error(reason);
                    proof {
                        lemma_rows_fail(begun, view, i + 1, e@);
                    }
                    return Err(e);
                },
            },
            Err(reason) => {
                let e = query_error(reason.as_str());
                proof {
                    lemma_rows_fail(begun, view, i + 1, e@);
                }
                return Err(e);
            },
        }
        i += 1;
    }
    assert(view.take(rows@.len() as int) == view);
    Ok(writer)
}

/// Write the triples of a graph, up to the first failure.
fn write_triples(begun: GraphWriter, triples: &Vec<Result<Triple, String>>) -> (r: Result<
    GraphWriter,
    Error,
>)
    ensures
        match r {
            Ok(whole) => triples_written(begun, fallible(triples@)) == Ok::<
                GraphWriter,
                ErrorModel,
            >(whole),
            Err(e) => triples_written(begun, fallible(triples@)) == Err::<GraphWriter, ErrorModel>(
                e@,
            ),
        },
{
    let ghost view = fallible(triples@);
    let mut writer = begun;
    let mut i: usize = 0;
    while i < triples.len()
        invariant
            i <= triples@.len(),
            view == fallible(triples@),
            triples_written(begun, view.take(i as int)) == Ok::<GraphWriter, ErrorModel>(writer),
        decreases triples@.len() - i,
    {
        proof {
            assert(view.take(i + 1).drop_last() == view.take(i as int));
            assert(view.take(i + 1).last() == view[i as int]);
        }
        match &triples[i] {
            Ok(triple) => match write_triple(&mut writer, triple) {
                Ok(()) => {},
                Err(reason) => {
                    let e = serialize_error(reason);
                    proof {
                        lemma_triples_fail(begun, view, i + 1, e@);
                    }
                    return Err(e);
                },
            },
            Err(reason) => {
                let e = query_error(reason.as_str());
                proof {
                    lemma_triples_fail(begun, view, i + 1, e@);
                }
                return Err(e);
            },
        }
        i += 1;
    }
    assert(view.take(triples@.len() as int) == view);
    Ok(writer)
}

/// Serialize the answer to a SELECT or an ASK, refusing an `as` the form cannot answer in.
pub fn serialize_solutions(answer: &Answer, as_type: Option<&str>) -> (r: Result<
    (String, Vec<u8>),
    Error,
>)
    ensures
        document(r) == solutions_document(answer@, crate::sparql::optional(as_type)),
{
    let format = match results_format(as_type) {
        Ok(format) => format,
        Err(e) => {
            return Err(e);
        },
    };
    let bytes = match answer {
        Answer::Solutions { variables, rows } => {
            let writer = match begin_solutions(&format, variables) {
                Ok(writer) => writer,
                Err(reason) => {
                    return Err(serialize_error(reason));
                },
            };
            let whole = match write_rows(writer, rows) {
                Ok(whole) => whole,
                Err(e) => {
                    return Err(e);
                },
            };
            match finish_solutions(whole) {
                Ok(bytes) => bytes,
                Err(reason) => {
                    return Err(serialize_error(reason));
                },
            }
        },
        Answer::Boolean(value) => match write_boolean(&format, *value) {
            Ok(bytes) => bytes,
            Err(reason) => {
                return Err(serialize_error(reason));
            },
        },
        Answer::Graph(_) => {
            return Err(
                Error::Endpoint("internal: a graph reached the result-set serializer".to_owned()),
            );
        },
    };
    let media = match as_type {
        None => RESULT_OUTPUTS[0],
        Some(_) => bare_media(media_of_results(&format)),
    };
    Ok((media.to_owned(), bytes))
}

/// Serialize the answer to a CONSTRUCT or a DESCRIBE, refusing an unusable `as` the same
/// way.
pub fn serialize_graph(answer: &Answer, as_type: Option<&str>) -> (r: Result<
    (String, Vec<u8>),
    Error,
>)
    ensures
        document(r) == graph_document(answer@, crate::sparql::optional(as_type)),
{
    let format = match graph_format(as_type) {
        Ok(format) => format,
        Err(e) => {
            return Err(e);
        },
    };
    let triples = match answer {
        Answer::Graph(triples) => triples,
        _ => {
            return Err(
                Error::Endpoint("internal: a result set reached the graph serializer".to_owned()),
            );
        },
    };
    let whole = match write_triples(begin_graph(&format), triples) {
        Ok(whole) => whole,
        Err(e) => {
            return Err(e);
        },
    };
    let media = match as_type {
        None => GRAPH_OUTPUTS[0],
        Some(_) => bare_media(media_of_rdf(&format)),
    };
    match finish_graph(whole) {
        Ok(bytes) => Ok((media.to_owned(), bytes)),
        Err(reason) => Err(serialize_error(reason)),
    }
}

} // verus!
