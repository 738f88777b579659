//! What a request asks for, told by the arguments that stand in it.
//!
//! Nothing here leans on how a request is taken apart on the way: an argument is the text that
//! stands in the request, whole and as it is.

use crate::caps::{read_scope, write_scope};
use crate::dataset::{loaded, DatasetModel, GraphModel, QuadModel};
use crate::error::ErrorModel;
use crate::request::{
    find_arg, grants, held_scopes, Arg, ArgModel, Invocation, InvocationModel, Verb,
};
use crate::results::{
    bare, has_lone_quote, is_lone_quote, is_quad_syntax, is_triple_syntax, rdf_format_for,
    rdf_format_named, rdf_names_graphs,
};
use crate::term::iri_refusal;
use crate::text::{
    digit, find, int_text, is_white_space, joined, lowered, nat_text, occurs_in, texts, trim_end,
    trim_start, trimmed,
};
use crate::write::{
    GraphUpdateEndpoint, LoadEndpoint, LoadPlan, UpdateEndpoint, LOAD_FORMATS,
};
use ikigai_core::Capability;
use vstd::prelude::*;
use vstd::utf8::{decode_utf8, valid_utf8};

verus! {

// ------------------------------------------------------------------- taking an argument

/// Whether this is the first argument with its name.
pub open spec fn first_with_its_name(args: Seq<(Seq<char>, ArgModel)>, i: int) -> bool {
    0 <= i < args.len() && forall|j: int| 0 <= j < i ==> #[trigger] args[j].0 != args[i].0
}

/// A request is seen as it was made: every argument, in order, under its name and with its bytes.
pub proof fn a_request_is_seen_as_it_was_made(inv: Invocation<'_>)
    ensures
        inv@.verb == inv.verb,
        inv@.capability == *inv.capability,
        inv@.args.len() == inv.args@.len(),
        forall|i: int|
            0 <= i < inv.args@.len() ==> (#[trigger] inv@.args[i]).0 == inv.args@[i].0@
                && match inv.args@[i].1 {
                Arg::Inline(bytes) => inv@.args[i].1 == ArgModel::Inline(bytes@),
                Arg::Other => inv@.args[i].1 == ArgModel::Other,
            },
{
}

/// The first argument with a name counts, whatever stands around it: its bytes as they are, and
/// its text as UTF-8 has it. One that is not given by value, or is no text, is refused by name.
pub proof fn an_argument_is_what_stands_in_the_request(inv: InvocationModel, i: int)
    requires
        first_with_its_name(inv.args, i),
    ensures
        inv.has(inv.args[i].0),
        match inv.args[i].1 {
            ArgModel::Inline(bytes) => {
                let name = inv.args[i].0;
                &&& inv.bytes(name) == Ok::<Seq<u8>, ErrorModel>(bytes)
                &&& valid_utf8(bytes) ==> inv.text(name) == Ok::<Seq<char>, ErrorModel>(
                    decode_utf8(bytes),
                ) && inv.optional_text(name) == Ok::<Option<Seq<char>>, ErrorModel>(
                    Some(decode_utf8(bytes)),
                )
                &&& !valid_utf8(bytes) ==> {
                    let e = ErrorModel::InvalidArgument { name, detail: "not valid UTF-8"@ };
                    &&& inv.text(name) == Err::<Seq<char>, ErrorModel>(e)
                    &&& inv.optional_text(name) == Err::<Option<Seq<char>>, ErrorModel>(e)
                }
            },
            ArgModel::Other => {
                let name = inv.args[i].0;
                let e = ErrorModel::InvalidArgument { name, detail: "expected an inline value"@ };
                &&& inv.bytes(name) == Err::<Seq<u8>, ErrorModel>(e)
                &&& inv.text(name) == Err::<Seq<char>, ErrorModel>(e)
                &&& inv.optional_text(name) == Err::<Option<Seq<char>>, ErrorModel>(e)
            },
        },
{
    lemma_found_first(inv.args, i);
}

proof fn lemma_found_first(args: Seq<(Seq<char>, ArgModel)>, i: int)
    requires
        first_with_its_name(args, i),
    ensures
        find_arg(args, args[i].0) == Some(args[i].1),
    decreases i,
{
    if i > 0 {
        assert(args[0].0 != args[i].0);
        let rest = args.drop_first();
        assert forall|j: int| 0 <= j < i - 1 implies #[trigger] rest[j].0 != rest[i - 1].0 by {
            assert(rest[j] == args[j + 1]);
        }
        lemma_found_first(rest, i - 1);
    }
}

/// An argument that is not there is missing where it is asked for, and absent where it may be
/// left out.
pub proof fn an_absent_argument_is_absent(inv: InvocationModel, name: Seq<char>)
    requires
        forall|i: int| 0 <= i < inv.args.len() ==> #[trigger] inv.args[i].0 != name,
    ensures
        !inv.has(name),
        inv.bytes(name) == Err::<Seq<u8>, ErrorModel>(ErrorModel::MissingArgument(name)),
        inv.text(name) == Err::<Seq<char>, ErrorModel>(ErrorModel::MissingArgument(name)),
        inv.optional_text(name) == Ok::<Option<Seq<char>>, ErrorModel>(None),
{
    lemma_not_found(inv.args, name);
}

proof fn lemma_not_found(args: Seq<(Seq<char>, ArgModel)>, name: Seq<char>)
    requires
        forall|i: int| 0 <= i < args.len() ==> #[trigger] args[i].0 != name,
    ensures
        find_arg(args, name) == None::<ArgModel>,
    decreases args.len(),
{
    if args.len() > 0 {
        assert(args[0].0 != name);
        let rest = args.drop_first();
        assert forall|i: int| 0 <= i < rest.len() implies #[trigger] rest[i].0 != name by {
            assert(rest[i] == args[i + 1]);
        }
        lemma_not_found(rest, name);
    }
}

/// A capability grants a scope if and only if it holds full authority or that very scope.
pub proof fn a_scope_is_granted_by_name(capability: Capability, scope: Seq<char>)
    ensures
        grants(capability, scope) <==> (held_scopes(capability) matches Some(held)
            ==> held.contains(scope)),
{
}

/// The scopes for a graph are its IRI, whole and as it is, behind a fixed prefix.
pub proof fn a_graph_scope_ends_in_the_graph(graph: Seq<char>)
    ensures
        read_scope(graph) == "urn:cap:store:read:graph:"@ + graph,
        write_scope(graph) == "urn:cap:store:write:graph:"@ + graph,
{
}

// ------------------------------------------------------------------- asking for a write

/// The open door takes the whole `content` argument for the update, character by character, of
/// every `Sink` request that carries no `bindings`; and of no other.
pub proof fn the_open_door_runs_the_content(inv: InvocationModel, update: Seq<char>)
    ensures
        UpdateEndpoint.requested(inv) == Ok::<Seq<char>, ErrorModel>(update) <==> {
            &&& inv.verb == Verb::Sink
            &&& inv.text("content"@) == Ok::<Seq<char>, ErrorModel>(update)
            &&& !inv.has("bindings"@)
        },
{
}

/// The scoped door takes the whole `content` argument for the update and the whole `graph`
/// argument for the graph, character by character, of every `Sink` request that carries no
/// `bindings` and names an IRI that the capability may write; and of no other.
pub proof fn the_scoped_door_runs_the_content_in_the_graph(
    inv: InvocationModel,
    graph: Seq<char>,
    update: Seq<char>,
)
    ensures
        GraphUpdateEndpoint.requested(inv) == Ok::<(Seq<char>, Seq<char>), ErrorModel>(
            (graph, update),
        ) <==> {
            &&& inv.verb == Verb::Sink
            &&& inv.text("content"@) == Ok::<Seq<char>, ErrorModel>(update)
            &&& inv.text("graph"@) == Ok::<Seq<char>, ErrorModel>(graph)
            &&& !inv.has("bindings"@)
            &&& iri_refusal(graph) == None::<Seq<char>>
            &&& grants(inv.capability, "urn:cap:store:write:graph:"@ + graph)
        },
{
}

/// A load takes the whole `content` argument for the document, byte by byte, and the whole
/// `format` argument for its syntax, of every `Sink` request.
pub proof fn a_load_reads_the_content(inv: InvocationModel, plan: LoadPlan)
    requires
        LoadEndpoint.requested(inv) == Ok::<LoadPlan, ErrorModel>(plan),
    ensures
        inv.verb == Verb::Sink,
        inv.bytes("content"@) == Ok::<Seq<u8>, ErrorModel>(plan.bytes),
        match inv.optional_text("format"@) {
            Ok(Some(format)) => plan.media == format,
            Ok(None) => plan.media == "text/turtle"@,
            Err(_) => false,
        },
{
}

/// A document in a syntax for triples goes into the graph that the `graph` argument names,
/// character by character, and into the default graph where there is none: every statement that
/// came stands there.
pub proof fn a_document_lands_in_the_graph_that_was_named(
    inv: InvocationModel,
    plan: LoadPlan,
    before: DatasetModel,
    after: DatasetModel,
)
    requires
        LoadEndpoint.requested(inv) == Ok::<LoadPlan, ErrorModel>(plan),
        plan.media == "text/turtle"@ || plan.media == "application/n-triples"@ || plan.media
            == "application/rdf+xml"@,
        loaded(plan.format, plan.graph, plan.bytes, before, after),
    ensures
        inv.optional_text("graph"@) == Ok::<Option<Seq<char>>, ErrorModel>(plan.graph),
        forall|q: QuadModel|
            #[trigger] after.quads.contains(q) && !before.quads.contains(q) ==> match plan.graph {
                Some(graph) => q.graph == GraphModel::Iri(graph),
                None => q.graph == GraphModel::Default,
            },
{
    crate::laws::a_triple_syntax_takes_the_graph(inv, plan, before, after);
}

/// A `graph` argument on a load is refused if and only if it is no IRI, and the refusal is of
/// that very text.
pub proof fn a_load_takes_every_iri_for_its_graph(inv: InvocationModel, graph: Seq<char>)
    requires
        inv.optional_text("graph"@) == Ok::<Option<Seq<char>>, ErrorModel>(Some(graph)),
    ensures
        match iri_refusal(graph) {
            None => LoadEndpoint.target(inv) == Ok::<Option<Seq<char>>, ErrorModel>(Some(graph)),
            Some(reason) => LoadEndpoint.target(inv) == Err::<Option<Seq<char>>, ErrorModel>(
                ErrorModel::InvalidArgument {
                    name: "graph"@,
                    detail: "`"@ + graph + "` is not an IRI: "@ + reason,
                },
            ),
        },
{
}

/// Loading adds and never takes away, and it makes known the graphs of what it adds and no
/// others.
pub proof fn a_load_adds_statements_and_their_graphs(
    plan: LoadPlan,
    before: DatasetModel,
    after: DatasetModel,
)
    requires
        loaded(plan.format, plan.graph, plan.bytes, before, after),
    ensures
        exists|added: Set<QuadModel>|
            #![trigger crate::dataset::document_may_say(plan.format, plan.graph, plan.bytes, added)]
            {
                &&& crate::dataset::document_may_say(plan.format, plan.graph, plan.bytes, added)
                &&& forall|q: QuadModel| #[trigger]
                    after.quads.contains(q) <==> before.quads.contains(q) || added.contains(q)
                &&& forall|g: GraphModel| #[trigger]
                    after.graphs.contains(g) <==> before.graphs.contains(g) || g
                        != GraphModel::Default && exists|q: QuadModel| #[trigger]
                        added.contains(q) && q.graph == g
            },
{
    let added = choose|added: Set<QuadModel>| #[trigger]
        crate::dataset::document_may_say(plan.format, plan.graph, plan.bytes, added)
            && crate::dataset::adds(plan.format, plan.graph, added, before, after);
    assert forall|g: GraphModel| #[trigger]
        after.graphs.contains(g) <==> before.graphs.contains(g) || g != GraphModel::Default
            && exists|q: QuadModel| #[trigger] added.contains(q) && q.graph == g by {
        let graphs = added.map(|q: QuadModel| q.graph);
        assert(graphs.contains(g) <==> exists|q: QuadModel| #[trigger]
            added.contains(q) && q.graph == g);
    }
}

/// The syntax of a document is the one that its media type names to the RDF library, and a media
/// type that names none is refused in words that repeat it.
pub proof fn a_load_reads_the_syntax_that_was_named(inv: InvocationModel, media: Seq<char>)
    requires
        inv.verb == Verb::Sink,
        inv.bytes("content"@) is Ok,
        inv.optional_text("format"@) == Ok::<Option<Seq<char>>, ErrorModel>(Some(media)),
        !media.contains('"'),
    ensures
        LoadEndpoint.requested(inv) matches Ok(plan) ==> plan.format == rdf_format_for(
            media,
        )->Some_0,
        rdf_format_for(media) is Some ==> (LoadEndpoint.requested(inv) is Ok
            <==> LoadEndpoint.target(inv) is Ok),
        rdf_format_for(media) is None && !texts(LOAD_FORMATS@).contains(media) ==> {
            &&& LoadEndpoint.requested(inv) matches Err(ErrorModel::InvalidArgument {
                name,
                detail,
            })
            &&& name == "format"@
            &&& detail == "unknown RDF syntax `"@ + media + "` — one of "@ + joined(
                texts(LOAD_FORMATS@),
                ", "@,
            )
        },
{
    a_media_type_without_quotes_is_taken_whole(media);
}

/// Whatever syntax a document comes in, it is read in the format that its media type names to the
/// RDF library, and its graph is the `graph` argument, character by character, or none: none where
/// the syntax has graph names of its own, and only there.
pub proof fn a_document_goes_where_it_was_sent(inv: InvocationModel, plan: LoadPlan)
    requires
        LoadEndpoint.requested(inv) == Ok::<LoadPlan, ErrorModel>(plan),
    ensures
        plan.format == rdf_format_for(plan.media)->Some_0,
        inv.optional_text("graph"@) matches Ok(graph) && {
            let triples = plan.media == "text/turtle"@ || plan.media == "application/n-triples"@
                || plan.media == "application/rdf+xml"@;
            let quads = plan.media == "application/n-quads"@ || plan.media
                == "application/trig"@;
            &&& graph matches Some(iri) ==> iri_refusal(iri) == None::<Seq<char>>
            &&& triples ==> plan.graph == graph
            &&& quads ==> plan.graph is None
            &&& !triples && !quads ==> plan.graph == if is_quad_syntax(plan.format)
                || !is_triple_syntax(plan.format) && rdf_names_graphs(plan.format) {
                None
            } else {
                graph
            }
        },
{
    reveal_strlit("text/turtle");
    reveal_strlit("application/n-triples");
    reveal_strlit("application/n-quads");
    reveal_strlit("application/trig");
    reveal_strlit("application/rdf+xml");
    assert("text/turtle"@.len() == 11 && "application/n-triples"@.len() == 21);
    assert("application/n-quads"@.len() == 19 && "application/trig"@.len() == 16);
    assert("application/rdf+xml"@.len() == 19);
    assert("application/n-quads"@[12] == 'n' && "application/rdf+xml"@[12] == 'r');
}

/// A media type that holds no quote is handed to the RDF library as it is, parameters and all.
pub proof fn a_media_type_without_quotes_is_taken_whole(media: Seq<char>)
    requires
        !media.contains('"'),
    ensures
        rdf_format_named(media) == rdf_format_for(media),
{
    let end = find(media, ';');
    lemma_find_bounds(media, ';');
    if 0 <= end < media.len() {
        lemma_no_lone_quote(media.skip(end + 1));
    }
}

/// A load is taken, with its bytes, its syntax and its graph as they were given, of every `Sink`
/// request in a declared syntax that names an IRI for its graph or none. A syntax for quads has no
/// use for the graph.
pub proof fn a_load_is_taken(
    inv: InvocationModel,
    bytes: Seq<u8>,
    media: Seq<char>,
    graph: Option<Seq<char>>,
)
    requires
        inv.verb == Verb::Sink,
        inv.bytes("content"@) == Ok::<Seq<u8>, ErrorModel>(bytes),
        inv.optional_text("format"@) == Ok::<Option<Seq<char>>, ErrorModel>(Some(media)) || media
            == "text/turtle"@ && inv.optional_text("format"@) == Ok::<
            Option<Seq<char>>,
            ErrorModel,
        >(None),
        texts(LOAD_FORMATS@).contains(media),
        inv.optional_text("graph"@) == Ok::<Option<Seq<char>>, ErrorModel>(graph),
        graph matches Some(iri) ==> iri_refusal(iri) == None::<Seq<char>>,
    ensures
        LoadEndpoint.requested(inv) matches Ok(plan) && {
            &&& plan.bytes == bytes
            &&& plan.media == media
            &&& plan.format == rdf_format_for(media)->Some_0
            &&& plan.graph == if media == "application/n-quads"@ || media == "application/trig"@ {
                None
            } else {
                graph
            }
        },
{
    reveal_strlit("text/turtle");
    reveal_strlit("application/n-triples");
    reveal_strlit("application/n-quads");
    reveal_strlit("application/trig");
    reveal_strlit("application/rdf+xml");
    let i = choose|i: int| 0 <= i < LOAD_FORMATS@.len() && texts(LOAD_FORMATS@)[i] == media;
    assert(media == LOAD_FORMATS@[i]@);
    assert(i == 0 || i == 1 || i == 2 || i == 3 || i == 4);
    assert("text/turtle"@.len() == 11 && "application/n-triples"@.len() == 21);
    assert("application/n-quads"@.len() == 19 && "application/trig"@.len() == 16);
    assert("application/rdf+xml"@.len() == 19);
    assert("application/n-quads"@[12] == 'n' && "application/rdf+xml"@[12] == 'r');
}

/// The syntaxes that are declared are these, and each is taken.
pub proof fn the_declared_syntaxes_are_these()
    ensures
        texts(LOAD_FORMATS@) == seq![
            "text/turtle"@,
            "application/n-triples"@,
            "application/n-quads"@,
            "application/trig"@,
            "application/rdf+xml"@,
        ],
{
    assert(texts(LOAD_FORMATS@) =~= seq![
        "text/turtle"@,
        "application/n-triples"@,
        "application/n-quads"@,
        "application/trig"@,
        "application/rdf+xml"@,
    ]);
}

/// Whether a part of a text stands between two semicolons, or between one and an end, and holds
/// none.
pub open spec fn between_semicolons(text: Seq<char>, from: int, to: int) -> bool {
    &&& 0 <= from <= to <= text.len()
    &&& from == 0 || text[from - 1] == ';'
    &&& to == text.len() || text[to] == ';'
    &&& forall|k: int| from <= k < to ==> #[trigger] text[k] != ';'
}

/// Whether a parameter is a `profile` that opens a quote and holds nothing else: what stands before
/// its first equals sign is `profile`, and what stands behind it is a quote.
pub open spec fn opens_a_quote(parameter: Seq<char>) -> bool {
    exists|at: int|
        {
            &&& 0 <= at < parameter.len()
            &&& #[trigger] parameter[at] == '='
            &&& !parameter.take(at).contains('=')
            &&& trimmed(parameter.take(at)) == "profile"@
            &&& trimmed(parameter.skip(at + 1)) == "\""@
        }
}

/// A media type names an RDF format to the library as it is, unless one of its parameters, whichever
/// it is, is a `profile` that opens a quote and holds nothing else: then it names none.
pub proof fn a_media_type_is_taken_whole_unless_a_quote_is_left_open(media: Seq<char>)
    ensures
        rdf_format_named(media) == if exists|from: int, to: int|
            from > 0 && #[trigger] between_semicolons(media, from, to) && opens_a_quote(
                media.subrange(from, to),
            ) {
            None
        } else {
            rdf_format_for(media)
        },
{
    let end = find(media, ';');
    lemma_find(media, ';');
    if end < media.len() {
        let rest = media.skip(end + 1);
        lemma_lone_quote(rest);
        if has_lone_quote(rest) {
            let (from, to) = choose|from: int, to: int| #[trigger]
                between_semicolons(rest, from, to) && opens_a_quote(rest.subrange(from, to));
            let f = from + end + 1;
            let t = to + end + 1;
            assert(media.subrange(f, t) =~= rest.subrange(from, to));
            assert(between_semicolons(media, f, t)) by {
                if from > 0 {
                    assert(rest[from - 1] == media[f - 1]);
                }
                if to < rest.len() {
                    assert(rest[to] == media[t]);
                }
                assert forall|k: int| f <= k < t implies #[trigger] media[k] != ';' by {
                    assert(media[k] == rest[k - end - 1]);
                }
            }
        } else {
            assert forall|from: int, to: int|
                from > 0 && #[trigger] between_semicolons(media, from, to) implies !opens_a_quote(
                media.subrange(from, to),
            ) by {
                assert(from - 1 >= end);
                let f = from - end - 1;
                let t = to - end - 1;
                assert(media.subrange(from, to) =~= rest.subrange(f, t));
                assert(between_semicolons(rest, f, t)) by {
                    if f > 0 {
                        assert(rest[f - 1] == media[from - 1]);
                    }
                    if t < rest.len() {
                        assert(rest[t] == media[to]);
                    }
                    assert forall|k: int| f <= k < t implies #[trigger] rest[k] != ';' by {
                        assert(rest[k] == media[k + end + 1]);
                    }
                }
            }
        }
    } else {
        assert forall|from: int, to: int| from > 0 implies !(#[trigger] between_semicolons(
            media,
            from,
            to,
        )) by {
            if between_semicolons(media, from, to) {
                assert(media[from - 1] == ';');
            }
        }
    }
}

/// Parameters hold a lone quote if and only if one of them is one.
proof fn lemma_lone_quote(parameters: Seq<char>)
    ensures
        has_lone_quote(parameters) <==> exists|from: int, to: int| #[trigger]
            between_semicolons(parameters, from, to) && opens_a_quote(
                parameters.subrange(from, to),
            ),
    decreases parameters.len(),
{
    let end = find(parameters, ';');
    lemma_find(parameters, ';');
    let first = parameters.take(end);
    lemma_opens(first);
    assert(parameters.subrange(0, end) =~= first);
    assert(between_semicolons(parameters, 0, end));
    if end < parameters.len() {
        let rest = parameters.skip(end + 1);
        lemma_lone_quote(rest);
        if has_lone_quote(rest) {
            let (from, to) = choose|from: int, to: int| #[trigger]
                between_semicolons(rest, from, to) && opens_a_quote(rest.subrange(from, to));
            let f = from + end + 1;
            let t = to + end + 1;
            assert(parameters.subrange(f, t) =~= rest.subrange(from, to));
            assert(between_semicolons(parameters, f, t)) by {
                if from > 0 {
                    assert(rest[from - 1] == parameters[f - 1]);
                }
                if to < rest.len() {
                    assert(rest[to] == parameters[t]);
                }
                assert forall|k: int| f <= k < t implies #[trigger] parameters[k] != ';' by {
                    assert(parameters[k] == rest[k - end - 1]);
                }
            }
        }
        if !has_lone_quote(parameters) {
            assert forall|from: int, to: int| #[trigger]
                between_semicolons(parameters, from, to) implies !opens_a_quote(
                parameters.subrange(from, to),
            ) by {
                if from == 0 {
                    assert(to == end) by {
                        if to < end {
                            assert(parameters[to] != ';');
                        }
                        if end < to {
                            assert(parameters[end] == ';');
                        }
                    }
                } else {
                    assert(from - 1 >= end);
                    let f = from - end - 1;
                    let t = to - end - 1;
                    assert(parameters.subrange(from, to) =~= rest.subrange(f, t));
                    assert(between_semicolons(rest, f, t)) by {
                        if f > 0 {
                            assert(rest[f - 1] == parameters[from - 1]);
                        }
                        if t < rest.len() {
                            assert(rest[t] == parameters[to]);
                        }
                        assert forall|k: int| f <= k < t implies #[trigger] rest[k] != ';' by {
                            assert(rest[k] == parameters[k + end + 1]);
                        }
                    }
                }
            }
        }
    } else if !has_lone_quote(parameters) {
        assert forall|from: int, to: int| #[trigger]
            between_semicolons(parameters, from, to) implies !opens_a_quote(
            parameters.subrange(from, to),
        ) by {
            if from > 0 {
                assert(parameters[from - 1] == ';');
            }
            if to < parameters.len() {
                assert(parameters[to] == ';');
            }
        }
    }
}

/// A parameter is a lone quote if and only if it opens one.
proof fn lemma_opens(parameter: Seq<char>)
    ensures
        is_lone_quote(parameter) <==> opens_a_quote(parameter),
{
    let at = find(parameter, '=');
    lemma_find(parameter, '=');
    if is_lone_quote(parameter) {
        assert(parameter[at] == '=');
        assert(!parameter.take(at).contains('=')) by {
            if parameter.take(at).contains('=') {
                let k = choose|k: int|
                    0 <= k < parameter.take(at).len() && parameter.take(at)[k] == '=';
                assert(parameter[k] == '=');
            }
        }
    }
    if opens_a_quote(parameter) {
        let first = choose|first: int|
            {
                &&& 0 <= first < parameter.len()
                &&& #[trigger] parameter[first] == '='
                &&& !parameter.take(first).contains('=')
                &&& trimmed(parameter.take(first)) == "profile"@
                &&& trimmed(parameter.skip(first + 1)) == "\""@
            };
        assert(first == at) by {
            if at < first {
                assert(parameter.take(first)[at] == '=');
            }
        }
    }
}

/// A character is found where it stands first.
proof fn lemma_find(text: Seq<char>, c: char)
    ensures
        0 <= find(text, c) <= text.len(),
        find(text, c) < text.len() ==> text[find(text, c)] == c,
        forall|k: int| 0 <= k < find(text, c) ==> #[trigger] text[k] != c,
    decreases text.len(),
{
    if text.len() > 0 && text[0] != c {
        let rest = text.drop_first();
        lemma_find(rest, c);
        assert forall|k: int| 0 <= k < find(text, c) implies #[trigger] text[k] != c by {
            if k > 0 {
                assert(text[k] == rest[k - 1]);
            }
        }
    }
}

/// Parameters without a quote hold no lone quote.
proof fn lemma_no_lone_quote(parameters: Seq<char>)
    requires
        !parameters.contains('"'),
    ensures
        !has_lone_quote(parameters),
    decreases parameters.len(),
{
    let end = find(parameters, ';');
    lemma_find_bounds(parameters, ';');
    let parameter = parameters.take(end);
    let at = find(parameter, '=');
    lemma_find_bounds(parameter, '=');
    if at < parameter.len() {
        let value = parameter.skip(at + 1);
        assert(!value.contains('"')) by {
            if value.contains('"') {
                let k = choose|k: int| 0 <= k < value.len() && value[k] == '"';
                assert(parameters[at + 1 + k] == '"');
            }
        }
        lemma_trimmed_is_inside(value);
        reveal_strlit("\"");
        assert("\""@[0] == '"');
        let (from, to) = choose|from: int, to: int|
            0 <= from <= to <= value.len() && trimmed(value) == #[trigger] value.subrange(from, to);
        if trimmed(value) == "\""@ {
            assert(trimmed(value).len() == 1);
            assert(value.subrange(from, to)[0] == value[from]);
            assert(value.contains('"'));
        }
        assert(!is_lone_quote(parameter));
    }
    if end < parameters.len() {
        let rest = parameters.skip(end + 1);
        assert(!rest.contains('"')) by {
            if rest.contains('"') {
                let k = choose|k: int| 0 <= k < rest.len() && rest[k] == '"';
                assert(parameters[end + 1 + k] == '"');
            }
        }
        lemma_no_lone_quote(rest);
    }
}

/// Where a character is found lies within the text, or at its end.
proof fn lemma_find_bounds(text: Seq<char>, c: char)
    ensures
        0 <= find(text, c) <= text.len(),
    decreases text.len(),
{
    if text.len() > 0 && text[0] != c {
        lemma_find_bounds(text.drop_first(), c);
    }
}

/// What is left of a text without the white space around it stands in the text.
proof fn lemma_trimmed_is_inside(text: Seq<char>)
    ensures
        exists|from: int, to: int|
            0 <= from <= to <= text.len() && trimmed(text) == #[trigger] text.subrange(from, to),
{
    let from = lemma_trim_start(text);
    let begun = trim_start(text);
    let to = lemma_trim_end(begun);
    assert(begun == text.skip(from));
    assert(trimmed(text) == begun.take(to));
    assert(begun.take(to) =~= text.subrange(from, from + to));
}

proof fn lemma_trim_start(text: Seq<char>) -> (from: int)
    ensures
        0 <= from <= text.len(),
        trim_start(text) == text.skip(from),
        forall|i: int| 0 <= i < from ==> is_white_space(#[trigger] text[i]),
        from < text.len() ==> !is_white_space(text[from]),
    decreases text.len(),
{
    if text.len() > 0 && is_white_space(text[0]) {
        let rest = text.drop_first();
        let from = lemma_trim_start(rest);
        assert(rest.skip(from) =~= text.skip(from + 1));
        assert forall|i: int| 0 <= i < from + 1 implies is_white_space(#[trigger] text[i]) by {
            if i > 0 {
                assert(text[i] == rest[i - 1]);
            }
        }
        if from < rest.len() {
            assert(rest[from] == text[from + 1]);
        }
        from + 1
    } else {
        assert(text.skip(0) =~= text);
        0
    }
}

proof fn lemma_trim_end(text: Seq<char>) -> (to: int)
    ensures
        0 <= to <= text.len(),
        trim_end(text) == text.take(to),
        forall|i: int| to <= i < text.len() ==> is_white_space(#[trigger] text[i]),
        to > 0 ==> !is_white_space(text[to - 1]),
    decreases text.len(),
{
    if text.len() > 0 && is_white_space(text.last()) {
        let rest = text.drop_last();
        let to = lemma_trim_end(rest);
        assert(rest.take(to) =~= text.take(to));
        assert forall|i: int| to <= i < text.len() implies is_white_space(#[trigger] text[i]) by {
            if i < rest.len() {
                assert(text[i] == rest[i]);
            }
        }
        if to > 0 {
            assert(rest[to - 1] == text[to - 1]);
        }
        to
    } else {
        assert(text.take(text.len() as int) =~= text);
        text.len() as int
    }
}

// ------------------------------------------------------------------- texts

/// Trimming takes the white space from both ends of a text, all of it and nothing else.
pub proof fn trimming_takes_the_white_space_around(
    before: Seq<char>,
    text: Seq<char>,
    after: Seq<char>,
)
    requires
        forall|i: int| 0 <= i < before.len() ==> is_white_space(#[trigger] before[i]),
        forall|i: int| 0 <= i < after.len() ==> is_white_space(#[trigger] after[i]),
        text.len() > 0,
        !is_white_space(text[0]),
        !is_white_space(text.last()),
    ensures
        trimmed(before + text + after) == text,
{
    let whole = before + text + after;
    let from = lemma_trim_start(whole);
    assert(whole[before.len() as int] == text[0]);
    if from < before.len() {
        assert(whole[from] == before[from]);
    }
    assert(from == before.len());
    let begun = whole.skip(from);
    assert(begun =~= text + after);
    let to = lemma_trim_end(begun);
    assert(begun[text.len() - 1] == text.last());
    if to > text.len() {
        assert(begun[to - 1] == after[to - 1 - text.len()]);
    }
    assert(to == text.len());
    assert(begun.take(to) =~= text);
}

/// Of a text that is white space alone, trimming leaves nothing.
pub proof fn trimming_leaves_nothing_of_white_space(text: Seq<char>)
    requires
        forall|i: int| 0 <= i < text.len() ==> is_white_space(#[trigger] text[i]),
    ensures
        trimmed(text) == Seq::<char>::empty(),
{
    let from = lemma_trim_start(text);
    assert(from == text.len());
    assert(text.skip(from) =~= Seq::empty());
}

/// A media type is bared of everything from its first semicolon on, and of the white space
/// around what is left.
pub proof fn a_bare_media_type_has_no_parameters(
    before: Seq<char>,
    media: Seq<char>,
    after: Seq<char>,
    parameters: Seq<char>,
)
    requires
        forall|i: int| 0 <= i < before.len() ==> is_white_space(#[trigger] before[i]),
        forall|i: int| 0 <= i < after.len() ==> is_white_space(#[trigger] after[i]),
        media.len() > 0,
        !is_white_space(media[0]),
        !is_white_space(media.last()),
        !(before + media + after).contains(';'),
    ensures
        bare(before + media + after) == media,
        bare(before + media + after + seq![';'] + parameters) == media,
{
    let head = before + media + after;
    let whole = head + seq![';'] + parameters;
    the_first_of_a_character_is_found(head, seq![';'] + parameters, ';');
    the_first_of_a_character_is_found(head, Seq::empty(), ';');
    assert(head + (seq![';'] + parameters) =~= whole);
    assert(head + Seq::<char>::empty() =~= head);
    assert(whole.take(head.len() as int) =~= head);
    assert(head.take(head.len() as int) =~= head);
    trimming_takes_the_white_space_around(before, media, after);
}

/// A character is found where it stands first, and at the end where it does not stand at all.
pub proof fn the_first_of_a_character_is_found(before: Seq<char>, after: Seq<char>, c: char)
    requires
        !before.contains(c),
        after.len() == 0 || after[0] == c,
    ensures
        find(before + after, c) == before.len(),
    decreases before.len(),
{
    let whole = before + after;
    if before.len() > 0 {
        assert(before[0] != c) by {
            if before[0] == c {
                assert(before.contains(c));
            }
        }
        let rest = before.drop_first();
        assert(whole.drop_first() =~= rest + after);
        assert(!rest.contains(c)) by {
            if rest.contains(c) {
                let k = choose|k: int| 0 <= k < rest.len() && rest[k] == c;
                assert(before[k + 1] == c);
            }
        }
        the_first_of_a_character_is_found(rest, after, c);
    } else {
        assert(whole =~= after);
    }
}

/// A text stands in another if and only if the other is something, the text and something.
pub proof fn a_text_stands_in_another(part: Seq<char>, whole: Seq<char>)
    ensures
        occurs_in(part, whole) <==> exists|before: Seq<char>, after: Seq<char>|
            whole == #[trigger] (before + part + after),
{
    if occurs_in(part, whole) {
        let i = choose|i: int|
            0 <= i <= whole.len() - part.len() && #[trigger] whole.subrange(i, i + part.len())
                == part;
        let before = whole.take(i);
        let after = whole.skip(i + part.len());
        assert(whole =~= before + part + after);
    }
    if exists|before: Seq<char>, after: Seq<char>| whole == #[trigger] (before + part + after) {
        let (before, after) = choose|before: Seq<char>, after: Seq<char>|
            whole == #[trigger] (before + part + after);
        let i = before.len() as int;
        assert(whole.subrange(i, i + part.len()) =~= part);
    }
}

/// Small letters are had character by character: an ASCII capital becomes its small letter, and
/// every other character stays.
pub proof fn small_letters_are_had_character_by_character(text: Seq<char>)
    ensures
        lowered(text).len() == text.len(),
        forall|i: int|
            0 <= i < text.len() ==> (#[trigger] lowered(text)[i]) as int == if 'A' as int
                <= text[i] as int <= 'Z' as int {
                text[i] as int + ('a' as int - 'A' as int)
            } else {
                text[i] as int
            },
{
}

/// What a text of decimal digits stands for.
pub open spec fn decimal_value(digits: Seq<char>) -> int
    decreases digits.len(),
{
    if digits.len() == 0 {
        0
    } else {
        decimal_value(digits.drop_last()) * 10 + (digits.last() as int - '0' as int)
    }
}

/// A number is written in digits that stand for it, and without a zero in front.
pub proof fn a_number_is_written_in_decimal(n: nat)
    ensures
        decimal_value(nat_text(n)) == n,
        nat_text(n).len() > 0,
        forall|i: int| 0 <= i < nat_text(n).len() ==> '0' <= #[trigger] nat_text(n)[i] <= '9',
        nat_text(n).len() > 1 ==> nat_text(n)[0] != '0',
    decreases n,
{
    let text = nat_text(n);
    reveal_with_fuel(decimal_value, 2);
    if n < 10 {
        assert(text.drop_last() =~= Seq::empty());
        assert(text.last() == digit(n));
    } else {
        a_number_is_written_in_decimal(n / 10);
        assert(text.drop_last() =~= nat_text(n / 10));
        assert(text.last() == digit(n % 10));
        assert forall|i: int| 0 <= i < text.len() implies '0' <= #[trigger] text[i] <= '9' by {
            if i < text.len() - 1 {
                assert(text[i] == nat_text(n / 10)[i]);
            }
        }
        assert(text[0] == nat_text(n / 10)[0]);
        if nat_text(n / 10).len() == 1 {
            assert(n / 10 > 0);
            reveal_with_fuel(decimal_value, 2);
            assert(nat_text(n / 10).drop_last() =~= Seq::empty());
        }
    }
}

/// An integer is written as its magnitude, behind a minus sign if and only if it is negative.
pub proof fn an_integer_is_written_with_its_sign(n: nat)
    ensures
        int_text(n as int) == nat_text(n),
        n > 0 ==> int_text(-n) == seq!['-'] + nat_text(n),
{
    reveal_strlit("-");
    assert("-"@ =~= seq!['-']);
}

/// Parts are joined with the separator between each and the next, however many there are.
pub proof fn parts_are_joined_one_by_one(
    parts: Seq<Seq<char>>,
    more: Seq<char>,
    between: Seq<char>,
)
    ensures
        joined(seq![more], between) == more,
        parts.len() > 0 ==> joined(parts.push(more), between) == joined(parts, between) + between
            + more,
        joined(Seq::empty(), between) == Seq::<char>::empty(),
{
    assert(parts.push(more).drop_last() =~= parts);
}

} // verus!
