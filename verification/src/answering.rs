//! What a query is answered with, told by the rows and triples that the evaluator gave.

use crate::error::ErrorModel;
use crate::query::{Form, QueryEndpoint};
use crate::request::ReprModel;
use crate::results::{
    bare, boolean_written, format_of, graph_begun, graph_document, graph_finished, rdf_format_for,
    rdf_format_named, rdf_media, results_format_for, results_media, rows_written, solution_written,
    solutions_begun, solutions_document, solutions_finished, triple_written, triples_written,
    GraphWriter, SolutionsWriter, GRAPH_OUTPUTS, RESULT_OUTPUTS,
};
use crate::scope::{fallible, AnswerModel};
use crate::term::TermModel;
use crate::text::{joined, nat_text, occurs_in, texts};
use oxigraph::io::RdfFormat;
use oxigraph::model::Triple;
use oxigraph::sparql::results::QueryResultsFormat;
use oxigraph::sparql::QuerySolution;
use vstd::prelude::*;

verus! {

// ------------------------------------------------------------------- writing a result set

/// Whether these are the stages of writing rows one by one: each row is good, and each stage is
/// the one before it with one more row, none left out and none twice.
pub open spec fn writes_each_row(
    stages: Seq<SolutionsWriter>,
    rows: Seq<Result<QuerySolution, Seq<char>>>,
) -> bool {
    &&& stages.len() == rows.len() + 1
    &&& forall|i: int|
        0 <= i < rows.len() ==> (#[trigger] rows[i]) is Ok && solution_written(
            stages[i],
            rows[i]->Ok_0,
        ) == Ok::<SolutionsWriter, Seq<char>>(stages[i + 1])
}

/// A result set that is written holds every row, once and in order, however many there are.
pub proof fn every_row_is_written(
    begun: SolutionsWriter,
    rows: Seq<Result<QuerySolution, Seq<char>>>,
    whole: SolutionsWriter,
)
    ensures
        rows_written(begun, rows) == Ok::<SolutionsWriter, ErrorModel>(whole) <==> exists|
            stages: Seq<SolutionsWriter>,
        | #[trigger]
            writes_each_row(stages, rows) && stages[0] == begun && stages.last() == whole,
    decreases rows.len(),
{
    if rows.len() == 0 {
        if rows_written(begun, rows) == Ok::<SolutionsWriter, ErrorModel>(whole) {
            assert(writes_each_row(seq![begun], rows));
            assert(seq![begun].last() == whole);
        }
    } else {
        let shorter = rows.drop_last();
        if rows_written(begun, rows) == Ok::<SolutionsWriter, ErrorModel>(whole) {
            let so_far = rows_written(begun, shorter)->Ok_0;
            every_row_is_written(begun, shorter, so_far);
            let stages = choose|stages: Seq<SolutionsWriter>| #[trigger]
                writes_each_row(stages, shorter) && stages[0] == begun && stages.last() == so_far;
            let longer = stages.push(whole);
            assert forall|i: int| 0 <= i < rows.len() implies (#[trigger] rows[i]) is Ok
                && solution_written(longer[i], rows[i]->Ok_0) == Ok::<SolutionsWriter, Seq<char>>(
                longer[i + 1],
            ) by {
                if i < shorter.len() {
                    assert(shorter[i] == rows[i]);
                }
            }
            assert(writes_each_row(longer, rows));
            assert(longer.last() == whole && longer[0] == begun);
        }
        if exists|stages: Seq<SolutionsWriter>| #[trigger]
            writes_each_row(stages, rows) && stages[0] == begun && stages.last() == whole {
            let stages = choose|stages: Seq<SolutionsWriter>| #[trigger]
                writes_each_row(stages, rows) && stages[0] == begun && stages.last() == whole;
            let first = stages.drop_last();
            assert forall|i: int| 0 <= i < shorter.len() implies (#[trigger] shorter[i]) is Ok
                && solution_written(first[i], shorter[i]->Ok_0) == Ok::<
                SolutionsWriter,
                Seq<char>,
            >(first[i + 1]) by {
                assert(shorter[i] == rows[i]);
            }
            assert(writes_each_row(first, shorter));
            every_row_is_written(begun, shorter, first.last());
            assert(rows[rows.len() - 1] == rows.last());
        }
    }
}

/// The first row that fails, or that cannot be written, decides: the rows before it make no
/// difference to the words, and those after it none at all.
pub proof fn the_first_bad_row_decides(
    begun: SolutionsWriter,
    good: Seq<Result<QuerySolution, Seq<char>>>,
    so_far: SolutionsWriter,
    bad: Result<QuerySolution, Seq<char>>,
    rest: Seq<Result<QuerySolution, Seq<char>>>,
)
    requires
        rows_written(begun, good) == Ok::<SolutionsWriter, ErrorModel>(so_far),
    ensures
        bad matches Err(reason) ==> rows_written(begun, good.push(bad) + rest) == Err::<
            SolutionsWriter,
            ErrorModel,
        >(ErrorModel::Endpoint("query: "@ + reason)),
        bad matches Ok(row) ==> (solution_written(so_far, row) matches Err(reason) ==> rows_written(
            begun,
            good.push(bad) + rest,
        ) == Err::<SolutionsWriter, ErrorModel>(ErrorModel::Endpoint("serialize: "@ + reason))),
    decreases rest.len(),
{
    let all = good.push(bad) + rest;
    if rest.len() == 0 {
        assert(all.drop_last() =~= good);
        assert(all.last() == bad);
    } else {
        the_first_bad_row_decides(begun, good, so_far, bad, rest.drop_last());
        assert(all.drop_last() =~= good.push(bad) + rest.drop_last());
    }
}

/// Whether this is the result format that an `as` argument names, or the default one.
pub open spec fn result_format_asked_for(
    as_type: Option<Seq<char>>,
    format: QueryResultsFormat,
) -> bool {
    match as_type {
        None => format == results_format_for("application/sparql-results+json"@)->Some_0,
        Some(spec) => format == results_format_for(spec)->Some_0,
    }
}

/// Whether a media type is what an `as` argument asked for: the very one where it is declared,
/// the default one where there is none, and else the one of the format that it names.
pub open spec fn result_media_asked_for(
    as_type: Option<Seq<char>>,
    format: QueryResultsFormat,
    media: Seq<char>,
) -> bool {
    match as_type {
        None => media == "application/sparql-results+json"@,
        Some(spec) => if texts(RESULT_OUTPUTS@).contains(spec) {
            media == spec
        } else {
            media == bare(results_media(format)) && texts(RESULT_OUTPUTS@).contains(media)
        },
    }
}

/// A SELECT is answered with all of its variables and every row, once and in order, in the format
/// that was asked for and under its media type.
pub proof fn a_result_set_is_complete(
    variables: Seq<Seq<char>>,
    rows: Seq<Result<QuerySolution, Seq<char>>>,
    as_type: Option<Seq<char>>,
    media: Seq<char>,
    bytes: Seq<u8>,
)
    requires
        solutions_document(AnswerModel::Solutions { variables, rows }, as_type) == Ok::<
            (Seq<char>, Seq<u8>),
            ErrorModel,
        >((media, bytes)),
    ensures
        exists|format: QueryResultsFormat, stages: Seq<SolutionsWriter>|
            #![trigger solutions_begun(format, variables), writes_each_row(stages, rows)]
            {
                &&& result_format_asked_for(as_type, format)
                &&& result_media_asked_for(as_type, format, media)
                &&& writes_each_row(stages, rows)
                &&& solutions_begun(format, variables) == Ok::<SolutionsWriter, Seq<char>>(
                    stages[0],
                )
                &&& solutions_finished(stages.last()) == Ok::<Seq<u8>, Seq<char>>(bytes)
            },
{
    let format = crate::results::results_format_of(as_type)->Ok_0;
    let begun = solutions_begun(format, variables)->Ok_0;
    let whole = rows_written(begun, rows)->Ok_0;
    every_row_is_written(begun, rows, whole);
    let stages = choose|stages: Seq<SolutionsWriter>| #[trigger]
        writes_each_row(stages, rows) && stages[0] == begun && stages.last() == whole;
    assert(result_format_asked_for(as_type, format));
}

/// A SELECT whose rows are all good and can all be written is answered, in every declared output
/// and in the default one.
pub proof fn a_result_set_that_can_be_written_is(
    variables: Seq<Seq<char>>,
    rows: Seq<Result<QuerySolution, Seq<char>>>,
    as_type: Option<Seq<char>>,
    format: QueryResultsFormat,
    stages: Seq<SolutionsWriter>,
    bytes: Seq<u8>,
)
    requires
        as_type matches Some(spec) ==> texts(RESULT_OUTPUTS@).contains(spec),
        result_format_asked_for(as_type, format),
        writes_each_row(stages, rows),
        solutions_begun(format, variables) == Ok::<SolutionsWriter, Seq<char>>(stages[0]),
        solutions_finished(stages.last()) == Ok::<Seq<u8>, Seq<char>>(bytes),
    ensures
        solutions_document(AnswerModel::Solutions { variables, rows }, as_type) == Ok::<
            (Seq<char>, Seq<u8>),
            ErrorModel,
        >(
            (
                match as_type {
                    None => "application/sparql-results+json"@,
                    Some(spec) => spec,
                },
                bytes,
            ),
        ),
{
    every_row_is_written(stages[0], rows, stages.last());
}

/// An ASK is answered with the very truth value, in the format that was asked for and under its
/// media type.
pub proof fn a_truth_value_is_answered_as_it_is(
    value: bool,
    as_type: Option<Seq<char>>,
    media: Seq<char>,
    bytes: Seq<u8>,
)
    requires
        solutions_document(AnswerModel::Boolean(value), as_type) == Ok::<
            (Seq<char>, Seq<u8>),
            ErrorModel,
        >((media, bytes)),
    ensures
        exists|format: QueryResultsFormat| #[trigger]
            result_format_asked_for(as_type, format) && result_media_asked_for(
                as_type,
                format,
                media,
            ) && boolean_written(format, value) == Ok::<Seq<u8>, Seq<char>>(bytes),
{
    let format = crate::results::results_format_of(as_type)->Ok_0;
    assert(result_format_asked_for(as_type, format));
}

// ------------------------------------------------------------------- writing a graph

/// Whether these are the stages of writing triples one by one: each triple is good, and each
/// stage is the one before it with one more triple, none left out and none twice.
pub open spec fn writes_each_triple(
    stages: Seq<GraphWriter>,
    triples: Seq<Result<Triple, Seq<char>>>,
) -> bool {
    &&& stages.len() == triples.len() + 1
    &&& forall|i: int|
        0 <= i < triples.len() ==> (#[trigger] triples[i]) is Ok && triple_written(
            stages[i],
            triples[i]->Ok_0,
        ) == Ok::<GraphWriter, Seq<char>>(stages[i + 1])
}

/// A graph that is written holds every triple, once and in order, however many there are.
pub proof fn every_triple_is_written(
    begun: GraphWriter,
    triples: Seq<Result<Triple, Seq<char>>>,
    whole: GraphWriter,
)
    ensures
        triples_written(begun, triples) == Ok::<GraphWriter, ErrorModel>(whole) <==> exists|
            stages: Seq<GraphWriter>,
        | #[trigger]
            writes_each_triple(stages, triples) && stages[0] == begun && stages.last() == whole,
    decreases triples.len(),
{
    if triples.len() == 0 {
        if triples_written(begun, triples) == Ok::<GraphWriter, ErrorModel>(whole) {
            assert(writes_each_triple(seq![begun], triples));
            assert(seq![begun].last() == whole);
        }
    } else {
        let shorter = triples.drop_last();
        if triples_written(begun, triples) == Ok::<GraphWriter, ErrorModel>(whole) {
            let so_far = triples_written(begun, shorter)->Ok_0;
            every_triple_is_written(begun, shorter, so_far);
            let stages = choose|stages: Seq<GraphWriter>| #[trigger]
                writes_each_triple(stages, shorter) && stages[0] == begun && stages.last()
                    == so_far;
            let longer = stages.push(whole);
            assert forall|i: int| 0 <= i < triples.len() implies (#[trigger] triples[i]) is Ok
                && triple_written(longer[i], triples[i]->Ok_0) == Ok::<GraphWriter, Seq<char>>(
                longer[i + 1],
            ) by {
                if i < shorter.len() {
                    assert(shorter[i] == triples[i]);
                }
            }
            assert(writes_each_triple(longer, triples));
            assert(longer.last() == whole && longer[0] == begun);
        }
        if exists|stages: Seq<GraphWriter>| #[trigger]
            writes_each_triple(stages, triples) && stages[0] == begun && stages.last() == whole {
            let stages = choose|stages: Seq<GraphWriter>| #[trigger]
                writes_each_triple(stages, triples) && stages[0] == begun && stages.last()
                    == whole;
            let first = stages.drop_last();
            assert forall|i: int| 0 <= i < shorter.len() implies (#[trigger] shorter[i]) is Ok
                && triple_written(first[i], shorter[i]->Ok_0) == Ok::<GraphWriter, Seq<char>>(
                first[i + 1],
            ) by {
                assert(shorter[i] == triples[i]);
            }
            assert(writes_each_triple(first, shorter));
            every_triple_is_written(begun, shorter, first.last());
            assert(triples[triples.len() - 1] == triples.last());
        }
    }
}

/// The first triple that fails, or that cannot be written, decides: the triples before it make no
/// difference to the words, and those after it none at all.
pub proof fn the_first_bad_triple_decides(
    begun: GraphWriter,
    good: Seq<Result<Triple, Seq<char>>>,
    so_far: GraphWriter,
    bad: Result<Triple, Seq<char>>,
    rest: Seq<Result<Triple, Seq<char>>>,
)
    requires
        triples_written(begun, good) == Ok::<GraphWriter, ErrorModel>(so_far),
    ensures
        bad matches Err(reason) ==> triples_written(begun, good.push(bad) + rest) == Err::<
            GraphWriter,
            ErrorModel,
        >(ErrorModel::Endpoint("query: "@ + reason)),
        bad matches Ok(triple) ==> (triple_written(so_far, triple) matches Err(reason)
            ==> triples_written(begun, good.push(bad) + rest) == Err::<GraphWriter, ErrorModel>(
            ErrorModel::Endpoint("serialize: "@ + reason),
        )),
    decreases rest.len(),
{
    let all = good.push(bad) + rest;
    if rest.len() == 0 {
        assert(all.drop_last() =~= good);
        assert(all.last() == bad);
    } else {
        the_first_bad_triple_decides(begun, good, so_far, bad, rest.drop_last());
        assert(all.drop_last() =~= good.push(bad) + rest.drop_last());
    }
}

/// A CONSTRUCT or a DESCRIBE is answered with every triple, once and in order, written in the
/// format that its media type names: the one that was asked for, where it is declared, and
/// N-Triples where none was.
pub proof fn a_graph_is_complete_and_in_its_own_format(
    triples: Seq<Result<Triple, Seq<char>>>,
    as_type: Option<Seq<char>>,
    media: Seq<char>,
    bytes: Seq<u8>,
)
    requires
        graph_document(AnswerModel::Graph(triples), as_type) == Ok::<
            (Seq<char>, Seq<u8>),
            ErrorModel,
        >((media, bytes)),
    ensures
        as_type is None ==> media == "application/n-triples"@,
        as_type matches Some(spec) ==> (texts(GRAPH_OUTPUTS@).contains(spec) ==> media == spec),
        exists|format: RdfFormat, stages: Seq<GraphWriter>|
            #![trigger graph_begun(format), writes_each_triple(stages, triples)]
            {
                &&& writes_each_triple(stages, triples)
                &&& stages[0] == graph_begun(format)
                &&& graph_finished(stages.last()) == Ok::<Seq<u8>, Seq<char>>(bytes)
                &&& match as_type {
                    None => format == rdf_format_for(media)->Some_0,
                    Some(spec) => if texts(GRAPH_OUTPUTS@).contains(spec) {
                        format == rdf_format_for(media)->Some_0
                    } else {
                        &&& rdf_format_for(spec) == Some(format)
                        &&& media == bare(rdf_media(format))
                        &&& texts(GRAPH_OUTPUTS@).contains(media)
                    },
                }
            },
{
    let format = crate::results::graph_format_of(as_type)->Ok_0;
    let begun = graph_begun(format);
    let whole = triples_written(begun, triples)->Ok_0;
    every_triple_is_written(begun, triples, whole);
    let stages = choose|stages: Seq<GraphWriter>| #[trigger]
        writes_each_triple(stages, triples) && stages[0] == begun && stages.last() == whole;
    assert(graph_begun(format) == stages[0]);
}

/// A graph whose triples are all good and can all be written is answered, in every declared
/// output and in the default one.
pub proof fn a_graph_that_can_be_written_is(
    triples: Seq<Result<Triple, Seq<char>>>,
    as_type: Option<Seq<char>>,
    media: Seq<char>,
    stages: Seq<GraphWriter>,
    bytes: Seq<u8>,
)
    requires
        match as_type {
            None => media == "application/n-triples"@,
            Some(spec) => media == spec && texts(GRAPH_OUTPUTS@).contains(spec),
        },
        writes_each_triple(stages, triples),
        stages[0] == graph_begun(format_of(media)),
        graph_finished(stages.last()) == Ok::<Seq<u8>, Seq<char>>(bytes),
    ensures
        graph_document(AnswerModel::Graph(triples), as_type) == Ok::<
            (Seq<char>, Seq<u8>),
            ErrorModel,
        >((media, bytes)),
{
    every_triple_is_written(stages[0], triples, stages.last());
}

/// What the evaluator gave is handed on item by item: as many, in order, each value as it is and
/// each failure in its own words.
pub proof fn items_are_handed_on_one_by_one<T>(items: Seq<Result<T, String>>)
    ensures
        fallible(items).len() == items.len(),
        forall|i: int|
            0 <= i < items.len() ==> #[trigger] fallible(items)[i] == match items[i] {
                Ok(value) => Ok::<T, Seq<char>>(value),
                Err(reason) => Err::<T, Seq<char>>(reason@),
            },
{
}

// ------------------------------------------------------------------- choosing an output

/// An `as` is answered in if and only if it is declared, or names a format whose media type is
/// declared. Any other is refused by name, in words that repeat it and list every output.
pub proof fn an_output_that_is_not_offered_is_refused(
    answer: AnswerModel,
    spec: Seq<char>,
)
    ensures
        !texts(RESULT_OUTPUTS@).contains(spec) && (results_format_for(spec) matches Some(format)
            ==> !texts(RESULT_OUTPUTS@).contains(bare(results_media(format)))) ==> {
            &&& solutions_document(answer, Some(spec)) matches Err(ErrorModel::InvalidArgument {
                name,
                detail,
            })
            &&& name == "as"@
            &&& occurs_in(spec, detail)
            &&& forall|i: int|
                0 <= i < RESULT_OUTPUTS@.len() ==> occurs_in(
                    #[trigger] texts(RESULT_OUTPUTS@)[i],
                    detail,
                )
        },
        !texts(GRAPH_OUTPUTS@).contains(spec) && (rdf_format_named(spec) matches Some(format)
            ==> !texts(GRAPH_OUTPUTS@).contains(bare(rdf_media(format)))) ==> {
            &&& graph_document(answer, Some(spec)) matches Err(ErrorModel::InvalidArgument {
                name,
                detail,
            })
            &&& name == "as"@
            &&& occurs_in(spec, detail)
            &&& forall|i: int|
                0 <= i < GRAPH_OUTPUTS@.len() ==> occurs_in(
                    #[trigger] texts(GRAPH_OUTPUTS@)[i],
                    detail,
                )
        },
{
    let rows = crate::results::no_result_format(spec)->detail;
    let r = "SELECT/ASK cannot answer in `"@.len() as int;
    assert(rows.subrange(r, r + spec.len()) =~= spec);
    let offered = joined(texts(RESULT_OUTPUTS@), ", "@);
    let from = r + spec.len() + "` — one of "@.len();
    assert(rows.subrange(from, from + offered.len()) =~= offered);
    assert forall|i: int| 0 <= i < RESULT_OUTPUTS@.len() implies occurs_in(
        #[trigger] texts(RESULT_OUTPUTS@)[i],
        rows,
    ) by {
        lemma_joined_holds_each(texts(RESULT_OUTPUTS@), ", "@, i);
        lemma_occurs_within(texts(RESULT_OUTPUTS@)[i], offered, rows, from);
    }
    let graph = crate::results::no_graph_format(spec)->detail;
    let g = "CONSTRUCT/DESCRIBE cannot answer in `"@.len() as int;
    assert(graph.subrange(g, g + spec.len()) =~= spec);
    let listed = joined(texts(GRAPH_OUTPUTS@), ", "@);
    let at = g + spec.len() + "` — one of "@.len();
    assert(graph.subrange(at, at + listed.len()) =~= listed);
    assert forall|i: int| 0 <= i < GRAPH_OUTPUTS@.len() implies occurs_in(
        #[trigger] texts(GRAPH_OUTPUTS@)[i],
        graph,
    ) by {
        lemma_joined_holds_each(texts(GRAPH_OUTPUTS@), ", "@, i);
        lemma_occurs_within(texts(GRAPH_OUTPUTS@)[i], listed, graph, at);
    }
}

/// What stands in a part of a text stands in the text.
proof fn lemma_occurs_within(part: Seq<char>, middle: Seq<char>, whole: Seq<char>, at: int)
    requires
        occurs_in(part, middle),
        0 <= at,
        at + middle.len() <= whole.len(),
        whole.subrange(at, at + middle.len()) == middle,
    ensures
        occurs_in(part, whole),
{
    let k = choose|k: int|
        0 <= k <= middle.len() - part.len() && #[trigger] middle.subrange(k, k + part.len())
            == part;
    assert(whole.subrange(at, at + middle.len()).subrange(k, k + part.len()) =~= whole.subrange(
        at + k,
        at + k + part.len(),
    ));
}

/// The outputs are these, and an `as` that names one of them in other words, with parameters or
/// under another name, is answered under the declared name.
pub proof fn an_output_may_be_named_in_other_words(
    answer: AnswerModel,
    spec: Seq<char>,
    results: QueryResultsFormat,
    graphs: RdfFormat,
)
    ensures
        texts(RESULT_OUTPUTS@) == seq![
            "application/sparql-results+json"@,
            "application/sparql-results+xml"@,
            "text/csv"@,
            "text/tab-separated-values"@,
        ],
        texts(GRAPH_OUTPUTS@) == seq!["application/n-triples"@, "text/turtle"@],
        !texts(RESULT_OUTPUTS@).contains(spec) && results_format_for(spec) == Some(results)
            && texts(RESULT_OUTPUTS@).contains(bare(results_media(results))) ==> (
        solutions_document(answer, Some(spec)) matches Ok((media, _)) ==> media == bare(
            results_media(results),
        )),
        !texts(GRAPH_OUTPUTS@).contains(spec) && rdf_format_named(spec) == Some(graphs) && texts(
            GRAPH_OUTPUTS@,
        ).contains(bare(rdf_media(graphs))) ==> (graph_document(answer, Some(spec)) matches Ok(
            (media, _),
        ) ==> media == bare(rdf_media(graphs))),
{
    assert(texts(RESULT_OUTPUTS@) =~= seq![
        "application/sparql-results+json"@,
        "application/sparql-results+xml"@,
        "text/csv"@,
        "text/tab-separated-values"@,
    ]);
    assert(texts(GRAPH_OUTPUTS@) =~= seq!["application/n-triples"@, "text/turtle"@]);
}

/// Whether an `as` can be answered in, and in this format.
pub open spec fn result_format_offered(
    as_type: Option<Seq<char>>,
    format: QueryResultsFormat,
) -> bool {
    match as_type {
        None => format == results_format_for("application/sparql-results+json"@)->Some_0,
        Some(spec) => if texts(RESULT_OUTPUTS@).contains(spec) {
            format == results_format_for(spec)->Some_0
        } else {
            results_format_for(spec) == Some(format) && texts(RESULT_OUTPUTS@).contains(
                bare(results_media(format)),
            )
        },
    }
}

/// Whether an `as` can be answered with a graph, and in this format.
pub open spec fn graph_format_offered(as_type: Option<Seq<char>>, format: RdfFormat) -> bool {
    match as_type {
        None => format == format_of("application/n-triples"@),
        Some(spec) => if texts(GRAPH_OUTPUTS@).contains(spec) {
            format == format_of(spec)
        } else {
            rdf_format_named(spec) == Some(format) && texts(GRAPH_OUTPUTS@).contains(
                bare(rdf_media(format)),
            )
        },
    }
}

/// In a format that is offered, an answer fails if and only if a step of writing it does, and then
/// in the words of the first that did.
pub proof fn an_answer_fails_where_its_writing_does(
    variables: Seq<Seq<char>>,
    rows: Seq<Result<QuerySolution, Seq<char>>>,
    value: bool,
    triples: Seq<Result<Triple, Seq<char>>>,
    as_type: Option<Seq<char>>,
    results: QueryResultsFormat,
    graphs: RdfFormat,
)
    requires
        result_format_offered(as_type, results),
        graph_format_offered(as_type, graphs),
    ensures
        match solutions_begun(results, variables) {
            Err(reason) => told_as(
                solutions_document(AnswerModel::Solutions { variables, rows }, as_type),
                reason,
            ),
            Ok(begun) => match rows_written(begun, rows) {
                Err(e) => solutions_document(AnswerModel::Solutions { variables, rows }, as_type)
                    == Err::<(Seq<char>, Seq<u8>), ErrorModel>(e),
                Ok(whole) => match solutions_finished(whole) {
                    Err(reason) => told_as(
                        solutions_document(AnswerModel::Solutions { variables, rows }, as_type),
                        reason,
                    ),
                    Ok(bytes) => solutions_document(
                        AnswerModel::Solutions { variables, rows },
                        as_type,
                    ) matches Ok(document) && document.1 == bytes,
                },
            },
        },
        match boolean_written(results, value) {
            Err(reason) => told_as(
                solutions_document(AnswerModel::Boolean(value), as_type),
                reason,
            ),
            Ok(bytes) => solutions_document(AnswerModel::Boolean(value), as_type) matches Ok(
                document,
            ) && document.1 == bytes,
        },
        match triples_written(graph_begun(graphs), triples) {
            Err(e) => graph_document(AnswerModel::Graph(triples), as_type) == Err::<
                (Seq<char>, Seq<u8>),
                ErrorModel,
            >(e),
            Ok(whole) => match graph_finished(whole) {
                Err(reason) => told_as(
                    graph_document(AnswerModel::Graph(triples), as_type),
                    reason,
                ),
                Ok(bytes) => graph_document(AnswerModel::Graph(triples), as_type) matches Ok(
                    document,
                ) && document.1 == bytes,
            },
        },
{
}

/// Whether a document failed because it could not be written, for this reason.
pub open spec fn told_as(
    document: Result<(Seq<char>, Seq<u8>), ErrorModel>,
    reason: Seq<char>,
) -> bool {
    document == Err::<(Seq<char>, Seq<u8>), ErrorModel>(
        ErrorModel::Endpoint("serialize: "@ + reason),
    )
}

// ------------------------------------------------------------------- answering a request

/// A SELECT and an ASK answer with a result set, a CONSTRUCT and a DESCRIBE with a graph, and what
/// has the other shape is refused as the wrong query. What has the right shape is answered with
/// its document: the media type, the bytes, and whether it may be kept, and nothing else.
pub proof fn an_answer_is_its_document(
    endpoint: QueryEndpoint,
    answer: AnswerModel,
    bound: Seq<(Seq<char>, TermModel)>,
    as_type: Option<Seq<char>>,
    covered: bool,
)
    ensures
        match endpoint.form {
            Form::Select | Form::Ask => answer is Graph,
            Form::Construct | Form::Describe => !(answer is Graph),
        } ==> {
            &&& endpoint.answered(Ok(answer), bound, as_type, covered) matches Err(
                ErrorModel::InvalidArgument { name, detail },
            )
            &&& name == "query"@
            &&& occurs_in(endpoint.spec_iri(), detail)
            &&& occurs_in(
                if answer is Graph {
                    "which answers with a result set; that query answers with a graph"@
                } else {
                    "which answers with a graph; that query answers with a result set"@
                },
                detail,
            )
        },
        match endpoint.form {
            Form::Select | Form::Ask => !(answer is Graph),
            Form::Construct | Form::Describe => answer is Graph,
        } ==> match if answer is Graph {
            graph_document(answer, as_type)
        } else {
            solutions_document(answer, as_type)
        } {
            Err(e) => endpoint.answered(Ok(answer), bound, as_type, covered) == Err::<
                ReprModel,
                ErrorModel,
            >(e),
            Ok((media, bytes)) => {
                &&& endpoint.answered(Ok(answer), bound, as_type, covered) matches Ok(rep)
                &&& rep.media_type == media
                &&& rep.bytes == bytes
                &&& rep.charset == "utf-8"@
                &&& rep.cacheable == covered
            },
        },
{
    if (answer is Graph) != endpoint.form.spec_graph_shaped() {
        let detail = endpoint.wrong_shape(answer is Graph)->detail;
        let before = "this is `"@;
        let at = before.len() as int;
        let iri = endpoint.spec_iri();
        assert(detail.subrange(at, at + iri.len()) =~= iri);
        reveal_strlit("`, which answers with ");
        reveal_strlit("; that query answers with ");
        reveal_strlit("a graph");
        reveal_strlit("a result set");
        reveal_strlit("which answers with a result set; that query answers with a graph");
        reveal_strlit("which answers with a graph; that query answers with a result set");
        let words = if answer is Graph {
            "which answers with a result set; that query answers with a graph"@
        } else {
            "which answers with a graph; that query answers with a result set"@
        };
        let from = at + iri.len() + 3;
        assert(detail.subrange(from, from + words.len()) =~= words);
    }
}

/// A CONSTRUCT or a DESCRIBE is answered with bytes in the very format that the answer's media type
/// names, every triple in order; and where a declared output was asked for, the media type is that
/// one.
pub proof fn a_graph_answer_is_in_the_format_it_names(
    endpoint: QueryEndpoint,
    triples: Seq<Result<Triple, Seq<char>>>,
    bound: Seq<(Seq<char>, TermModel)>,
    as_type: Option<Seq<char>>,
    covered: bool,
    rep: ReprModel,
)
    requires
        endpoint.answered(Ok(AnswerModel::Graph(triples)), bound, as_type, covered) == Ok::<
            ReprModel,
            ErrorModel,
        >(rep),
        as_type matches Some(spec) ==> texts(GRAPH_OUTPUTS@).contains(spec),
    ensures
        endpoint.form is Construct || endpoint.form is Describe,
        rep.media_type == match as_type {
            Some(spec) => spec,
            None => "application/n-triples"@,
        },
        exists|stages: Seq<GraphWriter>|
            {
                &&& #[trigger] writes_each_triple(stages, triples)
                &&& stages[0] == graph_begun(rdf_format_for(rep.media_type)->Some_0)
                &&& graph_finished(stages.last()) == Ok::<Seq<u8>, Seq<char>>(rep.bytes)
            },
{
    an_answer_is_its_document(endpoint, AnswerModel::Graph(triples), bound, as_type, covered);
    a_graph_is_complete_and_in_its_own_format(triples, as_type, rep.media_type, rep.bytes);
}

/// A SELECT is answered with its variables and every row in order, in the very format that was asked
/// for; and where a declared output was asked for, the media type is that one.
pub proof fn a_select_answer_is_in_the_format_it_names(
    endpoint: QueryEndpoint,
    variables: Seq<Seq<char>>,
    rows: Seq<Result<QuerySolution, Seq<char>>>,
    bound: Seq<(Seq<char>, TermModel)>,
    as_type: Option<Seq<char>>,
    covered: bool,
    rep: ReprModel,
)
    requires
        endpoint.answered(
            Ok(AnswerModel::Solutions { variables, rows }),
            bound,
            as_type,
            covered,
        ) == Ok::<ReprModel, ErrorModel>(rep),
        as_type matches Some(spec) ==> texts(RESULT_OUTPUTS@).contains(spec),
    ensures
        endpoint.form is Select || endpoint.form is Ask,
        rep.media_type == match as_type {
            Some(spec) => spec,
            None => "application/sparql-results+json"@,
        },
        exists|stages: Seq<SolutionsWriter>|
            {
                &&& #[trigger] writes_each_row(stages, rows)
                &&& solutions_begun(results_format_for(rep.media_type)->Some_0, variables) == Ok::<
                    SolutionsWriter,
                    Seq<char>,
                >(stages[0])
                &&& solutions_finished(stages.last()) == Ok::<Seq<u8>, Seq<char>>(rep.bytes)
            },
{
    let answer = AnswerModel::Solutions { variables, rows };
    an_answer_is_its_document(endpoint, answer, bound, as_type, covered);
    a_result_set_is_complete(variables, rows, as_type, rep.media_type, rep.bytes);
}

/// An evaluation that failed is reported in the evaluator's own words, whatever was bound; only
/// where it speaks of the projection, and something was bound, is the `bindings` argument blamed,
/// and then every bound variable is named.
pub proof fn a_failed_evaluation_is_told_in_its_own_words(
    endpoint: QueryEndpoint,
    reason: Seq<char>,
    bound: Seq<(Seq<char>, TermModel)>,
    as_type: Option<Seq<char>>,
    covered: bool,
)
    ensures
        bound.len() == 0 || !occurs_in("projection"@, reason) ==> endpoint.answered(
            Err(reason),
            bound,
            as_type,
            covered,
        ) == Err::<ReprModel, ErrorModel>(ErrorModel::Endpoint("query: "@ + reason)),
        bound.len() > 0 && occurs_in("projection"@, reason) ==> {
            &&& endpoint.answered(Err(reason), bound, as_type, covered) matches Err(
                ErrorModel::InvalidArgument { name, detail },
            )
            &&& name == "bindings"@
            &&& detail.take(reason.len() as int) == reason
            &&& forall|i: int|
                0 <= i < bound.len() ==> occurs_in("?"@ + (#[trigger] bound[i]).0, detail)
            &&& exists|names: Seq<Seq<char>>|
                {
                    &&& names.len() == bound.len()
                    &&& forall|i: int|
                        0 <= i < bound.len() ==> #[trigger] names[i] == "?"@ + bound[i].0
                    &&& occurs_in(
                        nat_text(bound.len()) + " bound here ("@ + #[trigger] joined(names, ", "@)
                            + ")"@,
                        detail,
                    )
                }
        },
{
    if bound.len() > 0 && occurs_in("projection"@, reason) {
        let names = bound.map_values(|entry: (Seq<char>, TermModel)| "?"@ + entry.0);
        let list = joined(names, ", "@);
        let before = reason
            + ". Every bound variable must appear in the query's projection, and this query projects fewer than the "@
            + nat_text(bound.len()) + " bound here ("@;
        let detail = crate::query::query_refused(reason, bound)->detail;
        let at = before.len() as int;
        let told = nat_text(bound.len()) + " bound here ("@ + list + ")"@;
        let start = at - (nat_text(bound.len()) + " bound here ("@).len();
        reveal_strlit(")");
        reveal_strlit(
            "). Either name it in the SELECT clause or write `SELECT *`; ASK, CONSTRUCT and DESCRIBE have no projection to widen and accept any variable in the pattern. A binding the query does not mention is refused rather than ignored, so that a filter you thought was applied can never silently not be",
        );
        assert(detail.subrange(start, start + told.len()) =~= told);
        assert(occurs_in(told, detail));
        assert(detail.take(reason.len() as int) =~= reason);
        assert(detail.subrange(at, at + list.len()) =~= list);
        assert forall|i: int| 0 <= i < bound.len() implies occurs_in(
            "?"@ + (#[trigger] bound[i]).0,
            detail,
        ) by {
            let name = "?"@ + bound[i].0;
            assert(names[i] == name);
            lemma_joined_holds_each(names, ", "@, i);
            let k = choose|k: int|
                0 <= k <= list.len() - name.len() && #[trigger] list.subrange(k, k + name.len())
                    == name;
            assert(detail.subrange(at + k, at + k + name.len()) =~= list.subrange(
                k,
                k + name.len(),
            ));
        }
    }
}

/// Each of the joined parts stands in the whole.
proof fn lemma_joined_holds_each(parts: Seq<Seq<char>>, between: Seq<char>, i: int)
    requires
        0 <= i < parts.len(),
    ensures
        occurs_in(parts[i], joined(parts, between)),
    decreases parts.len(),
{
    let whole = joined(parts, between);
    let part = parts[i];
    if parts.len() == 1 {
        assert(whole.subrange(0, 0int + part.len()) =~= part);
    } else {
        let first = joined(parts.drop_last(), between);
        if i == parts.len() - 1 {
            let at = (first + between).len() as int;
            assert(whole.subrange(at, at + part.len()) =~= part);
        } else {
            lemma_joined_holds_each(parts.drop_last(), between, i);
            assert(parts.drop_last()[i] == part);
            let k = choose|k: int|
                0 <= k <= first.len() - part.len() && #[trigger] first.subrange(k, k + part.len())
                    == part;
            assert(whole.subrange(k, k + part.len()) =~= first.subrange(k, k + part.len()));
        }
    }
}

} // verus!
