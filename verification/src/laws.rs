//! What holds of the library as a whole, for every input.

use crate::caps::{
    a_grant_names_one_graph, a_graph_grant_is_nothing_else, a_wildcard_grants_no_graph, read_scope,
    write_scope, CAP_READ, CAP_READ_GRAPH, CAP_WRITE, CAP_WRITE_GRAPH, GRAPH_UPDATE_THREAD,
    LOAD_THREAD, UPDATE_THREAD,
};
use crate::confine::{
    is_storage_error, may_find, may_show, not_an_update, scoped_effect, scoped_outcome,
    scoped_stop, scoped_success, settled, written,
};
use crate::dataset::{
    document_may_be_refused, document_refused, graph_place, loaded, store_states,
    update_may_be_refused, update_may_fail, update_may_give, update_refused, Change, Dataset,
    DatasetModel, GraphModel, QuadModel,
};
use crate::endpoints::{resolved, resources, Endpoint};
use crate::error::ErrorModel;
use crate::json::{entries_map, is_object, json_of_text, json_text, lists_keys, JsonModel};
use crate::query::{bound_of, substituted, Form, QueryEndpoint};
use crate::request::{grants, held_scopes, InvocationModel, ReprModel, Verb};
use crate::results::{format_of, is_plain_syntax, GRAPH_OUTPUTS, RESULT_OUTPUTS};
use crate::scope::{
    a_confined_query_sees_one_graph, parsed_query, query_may_answer, AnswerModel, QueryPlan,
};
use crate::sparql::{
    binds, bound_by, bound_term, bound_terms, found_field, given_entries, given_of, term_fields,
    variable_name, writes_bindings, GivenModel,
};
use crate::store::{BackingModel, DurableStore};
use crate::term::{
    escaped, escaped_char, hex_digit, iri_refusal, iri_shaped, language_refusal, never_in_iri,
    quoted, AnnotationModel, TermModel, XSD_STRING,
};
use crate::text::{lowered, nat_text, texts};
use crate::write::{
    graph_updated_text, is_info, load_failed, plain_model, tells_load, GraphUpdateEndpoint,
    InfoEndpoint, LoadEndpoint, LoadPlan, UpdateEndpoint, LOAD_FORMATS,
};
use ikigai_core::Capability;
use oxigraph::store::Store;
use vstd::prelude::*;
use vstd::utf8::encode_utf8;

verus! {

// ---------------------------------------------------------------- writing a value as a term

/// Where a reader that honours backslash escapes finds the closing quote of a literal, when
/// it starts at `from`. The length of the text stands for no closing quote.
pub open spec fn closing_quote(text: Seq<char>, from: int) -> int
    decreases text.len() + 1 - from,
{
    if from >= text.len() {
        text.len() as int
    } else if text[from] == '\\' {
        closing_quote(text, from + 2)
    } else if text[from] == '"' {
        from
    } else {
        closing_quote(text, from + 1)
    }
}

/// A text written as a literal closes at its last character and nowhere before it, whatever
/// the text holds and whatever follows. So no text can end its literal early and become
/// syntax.
pub proof fn a_literal_closes_only_at_its_end(text: Seq<char>, rest: Seq<char>)
    ensures
        closing_quote(quoted(text) + rest, 1) == quoted(text).len() - 1,
{
    let open = seq!['"'];
    let tail = seq!['"'] + rest;
    let whole = open + escaped(text) + tail;
    assert(quoted(text) + rest =~= whole);
    lemma_reader_passes(open, text, tail);
    assert(whole[(1 + escaped(text).len()) as int] == '"');
}

/// A reader that honours backslash escapes passes over an escaped text.
proof fn lemma_reader_passes(before: Seq<char>, text: Seq<char>, after: Seq<char>)
    ensures
        closing_quote(before + escaped(text) + after, before.len() as int) == closing_quote(
            before + escaped(text) + after,
            (before.len() + escaped(text).len()) as int,
        ),
    decreases text.len(),
{
    if text.len() > 0 {
        let last = escaped_char(text.last());
        let start = escaped(text.drop_last());
        lemma_reader_passes(before, text.drop_last(), last + after);
        let whole = before + escaped(text) + after;
        assert(before + start + (last + after) =~= whole);
        let at = (before.len() + start.len()) as int;
        assert(forall|i: int| 0 <= i < last.len() ==> whole[at + i] == last[i]);
        lemma_reader_passes_char(whole, at, text.last());
    }
}

/// A reader that honours backslash escapes passes over an escaped character.
proof fn lemma_reader_passes_char(whole: Seq<char>, at: int, c: char)
    requires
        0 <= at,
        at + escaped_char(c).len() <= whole.len(),
        forall|i: int| 0 <= i < escaped_char(c).len() ==> #[trigger] whole[at + i] == escaped_char(c)[i],
    ensures
        closing_quote(whole, at) == closing_quote(whole, at + escaped_char(c).len()),
{
    let written = escaped_char(c);
    assert(whole[at + 0] == written[0]);
    if written.len() == 6 {
        lemma_hex_digits();
        assert(whole[at + 2] == written[2]);
        assert(whole[at + 3] == written[3]);
        assert(whole[at + 4] == written[4]);
        assert(whole[at + 5] == written[5]);
        reveal_with_fuel(closing_quote, 6);
    } else {
        reveal_with_fuel(closing_quote, 3);
    }
}

/// A hexadecimal digit is neither a quote nor a backslash, and stands for one number.
proof fn lemma_hex_digits()
    ensures
        forall|n: int| 0 <= n < 16 ==> #[trigger] hex_digit(n) != '"' && hex_digit(n) != '\\',
        forall|n: int, m: int|
            0 <= n < 16 && 0 <= m < 16 && #[trigger] hex_digit(n) == #[trigger] hex_digit(m) ==> n
                == m,
{
}

/// Two texts that are written alike are the same text: nothing is lost in a literal.
pub proof fn a_literal_keeps_its_text(one: Seq<char>, two: Seq<char>)
    requires
        quoted(one) == quoted(two),
    ensures
        one == two,
{
    assert(quoted(one).subrange(1, quoted(one).len() - 1) =~= escaped(one));
    assert(quoted(two).subrange(1, quoted(two).len() - 1) =~= escaped(two));
    lemma_escaped_injective(one, two);
}

proof fn lemma_escaped_injective(one: Seq<char>, two: Seq<char>)
    requires
        escaped(one) == escaped(two),
    ensures
        one == two,
    decreases one.len(),
{
    if one.len() > 0 {
        lemma_escaped_first(one);
    }
    if two.len() > 0 {
        lemma_escaped_first(two);
    }
    if one.len() > 0 && two.len() > 0 {
        let a = escaped_char(one[0]);
        let b = escaped_char(two[0]);
        let x = escaped(one.drop_first());
        let y = escaped(two.drop_first());
        assert(a + x == b + y);
        lemma_escaped_char_prefix_free(one[0], two[0], x, y);
        assert((a + x).skip(a.len() as int) =~= x);
        assert((b + y).skip(b.len() as int) =~= y);
        lemma_escaped_injective(one.drop_first(), two.drop_first());
        assert(one =~= seq![one[0]] + one.drop_first());
        assert(two =~= seq![two[0]] + two.drop_first());
    } else if one.len() > 0 {
        assert(escaped(one).len() > 0);
    } else if two.len() > 0 {
        assert(escaped(two).len() > 0);
    } else {
        assert(one =~= two);
    }
}

/// The first character of a text is written first.
pub(crate) proof fn lemma_escaped_first(text: Seq<char>)
    requires
        text.len() > 0,
    ensures
        escaped(text) == escaped_char(text[0]) + escaped(text.drop_first()),
    decreases text.len(),
{
    reveal_with_fuel(escaped, 2);
    if text.len() == 1 {
        assert(text.drop_last() =~= Seq::empty());
        assert(text.drop_first() =~= Seq::empty());
        assert(escaped(text) =~= escaped_char(text[0]) + escaped(text.drop_first()));
    } else {
        lemma_escaped_first(text.drop_last());
        assert(text.drop_last().drop_first() =~= text.drop_first().drop_last());
        assert(text.drop_first().last() == text.last());
        assert(escaped(text) =~= escaped_char(text[0]) + escaped(text.drop_first()));
    }
}

/// No written character begins another.
proof fn lemma_escaped_char_prefix_free(c: char, d: char, x: Seq<char>, y: Seq<char>)
    requires
        escaped_char(c) + x == escaped_char(d) + y,
    ensures
        c == d,
{
    lemma_hex_digits();
    let a = escaped_char(c);
    let b = escaped_char(d);
    let whole = a + x;
    assert(whole[0] == a[0] && whole[0] == b[0]);
    if a.len() >= 2 && b.len() >= 2 {
        assert(whole[1] == a[1] && whole[1] == b[1]);
    }
    if a.len() == 6 && b.len() == 6 {
        assert(whole[2] == a[2] && whole[2] == b[2]);
        assert(whole[3] == a[3] && whole[3] == b[3]);
        assert(whole[4] == a[4] && whole[4] == b[4]);
        assert(whole[5] == a[5] && whole[5] == b[5]);
        let n = c as int;
        let m = d as int;
        assert(n / 4096 == m / 4096);
        assert(n / 256 % 16 == m / 256 % 16);
        assert(n / 16 % 16 == m / 16 % 16);
        assert(n % 16 == m % 16);
        assert(n == m);
    }
}

/// An IRI between its brackets closes at its last character and nowhere before it.
pub proof fn an_iri_closes_only_at_its_end(iri: Seq<char>, i: int)
    requires
        iri_shaped(iri),
        0 <= i < TermModel::NamedNode(iri).syntax().len() - 1,
    ensures
        TermModel::NamedNode(iri).syntax()[i] != '>',
{
    if i > 0 {
        assert(TermModel::NamedNode(iri).syntax()[i] == iri[i - 1]);
        assert(!never_in_iri(iri[i - 1]));
    }
}

// ------------------------------------------------------------------------ binding a value

/// Whether a term can be bound to a variable and come out as it went in: a blank node cannot
/// be bound, and an IRI or a language must be one.
pub open spec fn bindable(name: Seq<char>, term: TermModel) -> bool {
    variable_name(name) && match term {
        TermModel::NamedNode(iri) => iri_refusal(iri) == None::<Seq<char>>,
        TermModel::BlankNode(_) => false,
        TermModel::Literal(literal) => match literal.annotation {
            AnnotationModel::Plain => true,
            AnnotationModel::Language(tag) => lowered(tag) == tag && language_refusal(tag)
                == None::<Seq<char>>,
            AnnotationModel::Datatype(datatype) => datatype != XSD_STRING@ && iri_refusal(datatype)
                == None::<Seq<char>>,
        },
    }
}

/// A `bindings` argument binds the terms it was written from, each to its variable.
pub proof fn bindings_round_trip(json: JsonModel, terms: Map<Seq<char>, TermModel>)
    requires
        binds(json, terms),
        forall|name: Seq<char>| #[trigger]
            terms.contains_key(name) ==> bindable(name, terms[name]),
    ensures
        bound_by(Ok(json)) matches Ok(list) && entries_map(list) == terms,
{
    let order = json->order;
    let fields = json->fields;
    let offers = given_entries(order, fields);
    assert forall|i: int| 0 <= i < offers.len() implies bound_term(
        (#[trigger] offers[i]).0,
        offers[i].1,
    ) == Ok::<TermModel, ErrorModel>(terms[order[i]]) by {
        assert(order.to_set().contains(order[i]));
        assert(terms.contains_key(order[i]));
        lemma_term_object(order[i], fields[order[i]], terms[order[i]]);
    }
    let list = order.map_values(|name: Seq<char>| (name, terms[name]));
    lemma_all_bound(offers, list);
    lemma_listed(order, terms);
}

/// What [`bindings_json`](crate::sparql::bindings_json) writes,
/// [`parse_bindings`](crate::sparql::parse_bindings) reads back: the same terms, each bound to
/// its variable.
pub proof fn written_bindings_are_read_back(text: Seq<char>, terms: Map<Seq<char>, TermModel>)
    requires
        writes_bindings(text, terms),
        forall|name: Seq<char>| #[trigger]
            terms.contains_key(name) ==> bindable(name, terms[name]),
    ensures
        bound_by(json_of_text(text)) matches Ok(list) && entries_map(list) == terms,
{
    let json = choose|json: JsonModel| #[trigger]
        binds(json, terms) && text == json_text(json) && json_of_text(text) == Ok::<
            JsonModel,
            Seq<char>,
        >(json);
    bindings_round_trip(json, terms);
}

/// A value is bound and never written into the query: what is evaluated is the text of the
/// query as it was given, with exactly the values of the `bindings` argument bound into it.
pub proof fn a_value_never_becomes_syntax(
    endpoint: QueryEndpoint,
    inv: InvocationModel,
    plan: QueryPlan,
    bound: Seq<(Seq<char>, TermModel)>,
)
    requires
        endpoint.planned(inv) == Ok::<(QueryPlan, Seq<(Seq<char>, TermModel)>), ErrorModel>(
            (plan, bound),
        ),
    ensures
        inv.text("query"@) == Ok::<Seq<char>, ErrorModel>(plan.text),
        bound_of(inv) == Ok::<Seq<(Seq<char>, TermModel)>, ErrorModel>(bound),
        plan.bindings == entries_map(bound),
{
    let query = inv.text("query"@)->Ok_0;
    let dataset = parsed_query(query)->Ok_0;
    match endpoint.scope_of(inv)->Ok_0 {
        Some(graph) => {
            lemma_substituted(
                QueryPlan::new(query, dataset).confined(GraphModel::Iri(graph)),
                bound,
            );
        },
        None => {
            lemma_substituted(QueryPlan::new(query, dataset), bound);
        },
    }
}

/// Binding values changes neither the text of a query nor the graphs it sees.
proof fn lemma_substituted(plan: QueryPlan, bound: Seq<(Seq<char>, TermModel)>)
    requires
        plan.bindings == Map::<Seq<char>, TermModel>::empty(),
        substituted(plan, bound) is Ok,
    ensures
        substituted(plan, bound)->Ok_0.text == plan.text,
        substituted(plan, bound)->Ok_0.dataset == plan.dataset,
        substituted(plan, bound)->Ok_0.bindings == entries_map(bound),
    decreases bound.len(),
{
    if bound.len() > 0 {
        lemma_substituted(plan, bound.drop_last());
    }
}

/// The term object for a bindable term stands for that term.
proof fn lemma_term_object(name: Seq<char>, json: JsonModel, term: TermModel)
    requires
        is_object(json, term_fields(term)),
        bindable(name, term),
    ensures
        bound_term(name, given_of(json)) == Ok::<TermModel, ErrorModel>(term),
{
    let order = json->order;
    let fields = json->fields;
    let listed = given_of(json)->Object_0;
    reveal_strlit("type");
    reveal_strlit("value");
    reveal_strlit("xml:lang");
    reveal_strlit("lang");
    reveal_strlit("datatype");
    reveal_strlit("uri");
    reveal_strlit("iri");
    reveal_strlit("literal");
    assert("type"@.len() == 4 && "lang"@.len() == 4 && "type"@[0] == 't' && "lang"@[0] == 'l');
    assert("xml:lang"@.len() == 8 && "datatype"@.len() == 8 && "xml:lang"@[0] == 'x'
        && "datatype"@[0] == 'd');
    assert("value"@.len() == 5);
    assert("uri"@.len() == 3 && "literal"@.len() == 7 && "iri"@.len() == 3);
    lemma_field(order, fields, "type"@);
    lemma_field(order, fields, "value"@);
    lemma_field(order, fields, "xml:lang"@);
    lemma_field(order, fields, "lang"@);
    lemma_field(order, fields, "datatype"@);
    assert(forall|key: Seq<char>| order.contains(key) == order.to_set().contains(key));
}

/// A field of an object is looked up in its map of fields.
pub(crate) proof fn lemma_field(order: Seq<Seq<char>>, fields: Map<Seq<char>, JsonModel>, key: Seq<char>)
    ensures
        found_field(given_of(JsonModel::Object { order, fields })->Object_0, key)
            == if order.contains(key) {
            Some(
                match fields[key] {
                    JsonModel::Text(text) => Some(text),
                    _ => None::<Seq<char>>,
                },
            )
        } else {
            None::<Option<Seq<char>>>
        },
    decreases order.len(),
{
    let listed = given_of(JsonModel::Object { order, fields })->Object_0;
    if order.len() > 0 {
        let rest = order.drop_first();
        lemma_field(rest, fields, key);
        assert(given_of(JsonModel::Object { order: rest, fields })->Object_0
            =~= listed.drop_first());
        assert(listed[0].0 == order[0]);
        if order[0] != key {
            assert(order.contains(key) == rest.contains(key)) by {
                if order.contains(key) {
                    let k = choose|k: int| 0 <= k < order.len() && order[k] == key;
                    assert(rest[k - 1] == key);
                }
                if rest.contains(key) {
                    let k = choose|k: int| 0 <= k < rest.len() && rest[k] == key;
                    assert(order[k + 1] == key);
                }
            }
        }
    }
}

/// Where every entry is bound, the list is bound entry by entry.
proof fn lemma_all_bound(offers: Seq<(Seq<char>, GivenModel)>, list: Seq<(Seq<char>, TermModel)>)
    requires
        offers.len() == list.len(),
        forall|i: int|
            0 <= i < offers.len() ==> (#[trigger] offers[i]).0 == list[i].0 && bound_term(
                offers[i].0,
                offers[i].1,
            ) == Ok::<TermModel, ErrorModel>(list[i].1),
    ensures
        bound_terms(offers) == Ok::<Seq<(Seq<char>, TermModel)>, ErrorModel>(list),
    decreases offers.len(),
{
    if offers.len() > 0 {
        lemma_all_bound(offers.drop_last(), list.drop_last());
        assert(offers.last() == offers[offers.len() - 1]);
        assert(list.drop_last().push(list.last()) =~= list);
    } else {
        assert(list =~= Seq::empty());
    }
}

/// Listing a map by its keys and reading the list as a map gives the map back.
proof fn lemma_listed<T>(order: Seq<Seq<char>>, map: Map<Seq<char>, T>)
    requires
        lists_keys(order, map),
    ensures
        entries_map(order.map_values(|key: Seq<char>| (key, map[key]))) == map,
{
    lemma_listed_part(order, map);
    let read = entries_map(order.map_values(|key: Seq<char>| (key, map[key])));
    assert(read.dom() =~= map.dom());
    assert(read =~= map);
}

proof fn lemma_listed_part<T>(order: Seq<Seq<char>>, map: Map<Seq<char>, T>)
    ensures
        entries_map(order.map_values(|key: Seq<char>| (key, map[key]))).dom() == order.to_set(),
        forall|key: Seq<char>| #[trigger]
            order.contains(key) ==> entries_map(
                order.map_values(|key: Seq<char>| (key, map[key])),
            )[key] == map[key],
    decreases order.len(),
{
    let entries = order.map_values(|key: Seq<char>| (key, map[key]));
    if order.len() > 0 {
        let rest = order.drop_last();
        lemma_listed_part(rest, map);
        assert(rest.map_values(|key: Seq<char>| (key, map[key])) =~= entries.drop_last());
        assert forall|key: Seq<char>| order.contains(key) == (rest.contains(key) || key
            == order.last()) by {
            if order.contains(key) {
                let k = choose|k: int| 0 <= k < order.len() && order[k] == key;
                if k < rest.len() {
                    assert(rest[k] == key);
                }
            }
            if rest.contains(key) {
                let k = choose|k: int| 0 <= k < rest.len() && rest[k] == key;
                assert(order[k] == key);
            }
            assert(order[order.len() - 1] == order.last());
        }
        assert(entries_map(entries).dom() =~= order.to_set());
    } else {
        assert(entries_map(entries).dom() =~= order.to_set());
    }
}

// ------------------------------------------------------------------------ holding a grant

/// The scopes over the whole dataset and the declared wildcards, held without a grant for the
/// graph, grant neither reading nor writing it.
pub proof fn a_broad_scope_opens_no_graph(capability: Capability, graph: Seq<char>)
    requires
        iri_shaped(graph),
        held_scopes(capability) matches Some(held) && held.subset_of(
            set![CAP_READ@, CAP_WRITE@, CAP_READ_GRAPH@, CAP_WRITE_GRAPH@],
        ),
    ensures
        !grants(capability, read_scope(graph)),
        !grants(capability, write_scope(graph)),
{
    a_graph_grant_is_nothing_else(graph, graph);
    a_wildcard_grants_no_graph(graph);
    reveal_strlit("urn:cap:store:write:graph:");
    reveal_strlit("urn:cap:store:read:graph:");
    reveal_strlit("urn:cap:store:write:graph:*");
    reveal_strlit("urn:cap:store:read:graph:*");
    assert(read_scope(graph)[14] == 'r' && CAP_WRITE_GRAPH@[14] == 'w');
    assert(write_scope(graph)[14] == 'w' && CAP_READ_GRAPH@[14] == 'r');
}

/// A grant to read one graph grants that and nothing more: no other graph, and no writing.
pub proof fn a_read_grant_opens_one_graph(capability: Capability, graph: Seq<char>, other: Seq<char>)
    requires
        held_scopes(capability) == Some(set![read_scope(graph)]),
    ensures
        grants(capability, read_scope(graph)),
        grants(capability, read_scope(other)) ==> other == graph,
        !grants(capability, write_scope(other)),
{
    a_graph_grant_is_nothing_else(other, graph);
    if other != graph {
        a_grant_names_one_graph(other, graph);
    }
}

/// A grant to write one graph grants that and nothing more: no other graph, and no reading.
pub proof fn a_write_grant_opens_one_graph(
    capability: Capability,
    graph: Seq<char>,
    other: Seq<char>,
)
    requires
        held_scopes(capability) == Some(set![write_scope(graph)]),
    ensures
        grants(capability, write_scope(graph)),
        grants(capability, write_scope(other)) ==> other == graph,
        !grants(capability, read_scope(other)),
{
    a_graph_grant_is_nothing_else(graph, other);
    if other != graph {
        a_grant_names_one_graph(other, graph);
    }
}

// ------------------------------------------------------------------- writing to one graph

/// A scoped update leaves every other graph alone: a quad outside its graph is there after it
/// if and only if it was there before, and so is another graph.
pub proof fn a_scoped_update_leaves_other_graphs_alone(
    whole: DatasetModel,
    after: DatasetModel,
    graph: GraphModel,
)
    ensures
        forall|q: QuadModel|
            q.graph != graph ==> #[trigger] whole.with_graph(graph, after).quads.contains(q)
                == whole.quads.contains(q),
        forall|g: GraphModel|
            g != graph ==> #[trigger] whole.with_graph(graph, after).graphs.contains(g)
                == whole.graphs.contains(g),
{
}

/// After a scoped update its graph holds what the update left, all of it and nothing else.
pub proof fn a_scoped_update_replaces_its_graph(
    whole: DatasetModel,
    after: DatasetModel,
    graph: GraphModel,
)
    requires
        after.within(graph),
    ensures
        whole.with_graph(graph, after).only(graph) == after,
{
    let left = whole.with_graph(graph, after).only(graph);
    assert(left.quads =~= after.quads);
    assert(left.graphs =~= after.graphs);
}

/// A scoped update cannot read outside its graph: it is run against that graph alone, which
/// is the same of two datasets that agree on the graph.
pub proof fn a_scoped_update_depends_on_one_graph(
    one: DatasetModel,
    two: DatasetModel,
    graph: GraphModel,
)
    requires
        forall|q: QuadModel| q.graph == graph ==> one.quads.contains(q) == two.quads.contains(q),
        one.graphs.contains(graph) == two.graphs.contains(graph),
    ensures
        one.only(graph) == two.only(graph),
{
    assert(one.only(graph).quads =~= two.only(graph).quads);
    assert(one.only(graph).graphs =~= two.only(graph).graphs);
}

/// An update that leaves a quad in the default graph never goes through a scoped door: the
/// default graph is not a named graph.
pub proof fn the_default_graph_is_out_of_scope(after: DatasetModel, quad: QuadModel, graph: Seq<char>)
    requires
        after.quads.contains(quad),
        quad.graph is Default,
    ensures
        !after.within(GraphModel::Iri(graph)),
{
}

/// An update that makes another graph known, or leaves a quad in one, never goes through a
/// scoped door.
pub proof fn another_graph_is_out_of_scope(after: DatasetModel, other: GraphModel, graph: Seq<char>)
    requires
        after.graphs.contains(other) || exists|q: QuadModel| #[trigger]
            after.quads.contains(q) && q.graph == other,
        other != GraphModel::Iri(graph),
    ensures
        !after.within(GraphModel::Iri(graph)),
{
}

/// An update that empties everything it sees empties its graph and no other.
pub proof fn emptying_is_confined(whole: DatasetModel, graph: GraphModel)
    ensures
        forall|q: QuadModel| #[trigger]
            whole.with_graph(graph, DatasetModel::empty()).quads.contains(q) <==> (
            whole.quads.contains(q) && q.graph != graph),
        forall|g: GraphModel| #[trigger]
            whole.with_graph(graph, DatasetModel::empty()).graphs.contains(g) <==> (
            whole.graphs.contains(g) && g != graph),
{
}

/// Through the scoped door a write changes one graph at most: whatever was asked and whatever
/// came of it, every other graph is as it was.
pub proof fn a_scoped_write_changes_one_graph(
    inv: InvocationModel,
    old_store: DurableStore,
    new_store: DurableStore,
    r: Result<ReprModel, ErrorModel>,
    graph: Seq<char>,
)
    requires
        GraphUpdateEndpoint.served(inv, old_store, new_store, r),
        old_store.covered(),
        inv.text("graph"@) == Ok::<Seq<char>, ErrorModel>(graph),
    ensures
        forall|q: QuadModel|
            q.graph != GraphModel::Iri(graph) ==> #[trigger] new_store.contents().quads.contains(q)
                == old_store.contents().quads.contains(q),
        forall|g: GraphModel|
            g != GraphModel::Iri(graph) ==> #[trigger] new_store.contents().graphs.contains(g)
                == old_store.contents().graphs.contains(g),
{
}

/// The same of every store, one that others write to among them: through the scoped door nothing
/// is done to it, or one transaction is committed, and that leaves every graph but its own as it
/// found it.
pub proof fn a_scoped_write_is_confined_on_every_store(
    inv: InvocationModel,
    old_store: DurableStore,
    new_store: DurableStore,
    r: Result<ReprModel, ErrorModel>,
    graph: Seq<char>,
)
    requires
        GraphUpdateEndpoint.served(inv, old_store, new_store, r),
        inv.text("graph"@) == Ok::<Seq<char>, ErrorModel>(graph),
    ensures
        new_store.changes() == old_store.changes() || {
            &&& new_store.changes().len() == old_store.changes().len() + 1
            &&& new_store.changes().drop_last() == old_store.changes()
            &&& new_store.changes().last().confined_to(GraphModel::Iri(graph))
        },
{
    let one = old_store.spec_dataset();
    let two = new_store.spec_dataset();
    if GraphUpdateEndpoint.requested(inv) is Ok && new_store.changes() != old_store.changes() {
        let update = GraphUpdateEndpoint.requested(inv)->Ok_0.1;
        let (before, after) = choose|before: DatasetModel, after: DatasetModel| #[trigger]
            scoped_effect(graph, update, one, before, after) && written(
                graph,
                before,
                after,
                one,
                two,
            );
        lemma_written_is_confined(graph, before, after, one, two);
    }
}

/// What is written of a scoped update is one transaction on its graph.
proof fn lemma_written_is_confined(
    graph: Seq<char>,
    before: DatasetModel,
    after: DatasetModel,
    old_store: Dataset,
    new_store: Dataset,
)
    requires
        before.within(GraphModel::Iri(graph)),
        after.within(GraphModel::Iri(graph)),
        written(graph, before, after, old_store, new_store),
    ensures
        new_store.changes().len() == old_store.changes().len() + 1,
        new_store.changes().drop_last() == old_store.changes(),
        new_store.changes().last().confined_to(GraphModel::Iri(graph)),
{
    let name = GraphModel::Iri(graph);
    let removed = before.quads.difference(after.quads);
    let added = after.quads.difference(before.quads);
    let known = choose|known: bool|
        new_store.edited_since(
            old_store,
            removed,
            added,
            name,
            #[trigger] settled(known, after.graphs.contains(name)),
        );
    let change = choose|change: Change| #[trigger]
        new_store.changed_since(old_store, change) && change.left == change.found.edited(
            removed,
            added,
            name,
            settled(known, after.graphs.contains(name)),
        );
    assert(new_store.changed_since(old_store, change));
    assert(new_store.changes().drop_last() =~= old_store.changes());
    assert(new_store.changes().last() == change);
}

/// Whether two datasets are the same to a reader of one graph: what may be found of the graph in
/// one may be found of it in the other.
pub open spec fn agree_on(one: Dataset, two: Dataset, graph: GraphModel) -> bool {
    forall|part: DatasetModel|
        #![trigger may_find(one, graph, part)]
        #![trigger may_find(two, graph, part)]
        may_find(one, graph, part) <==> may_find(two, graph, part)
}

/// Two owned datasets that hold the same graph are the same to a reader of it.
pub proof fn the_same_graph_agrees(one: Dataset, two: Dataset, graph: GraphModel)
    requires
        one.owned(),
        two.owned(),
        one.contents().only(graph) == two.contents().only(graph),
    ensures
        agree_on(one, two, graph),
{
    assert(one.may_hold(one.contents()) && two.may_hold(two.contents()));
}

/// A scoped update cannot tell two datasets apart that agree on its graph: it may do the same to
/// the graph on both, and it may be refused for the same on both, whatever their other graphs
/// hold and whoever writes to them.
pub proof fn a_scoped_update_cannot_read_outside_its_graph(
    graph: Seq<char>,
    update: Seq<char>,
    one: Dataset,
    two: Dataset,
    before: DatasetModel,
    after: DatasetModel,
    e: ErrorModel,
)
    requires
        agree_on(one, two, GraphModel::Iri(graph)),
        one.in_memory() == two.in_memory(),
    ensures
        scoped_effect(graph, update, one, before, after) == scoped_effect(
            graph,
            update,
            two,
            before,
            after,
        ),
        scoped_stop(graph, update, one, e) == scoped_stop(graph, update, two, e),
{
    lemma_shows_the_same(one, two, GraphModel::Iri(graph));
}

/// Two datasets that agree on a graph show the same of it.
proof fn lemma_shows_the_same(one: Dataset, two: Dataset, graph: GraphModel)
    requires
        agree_on(one, two, graph),
    ensures
        forall|before: DatasetModel|
            #![trigger may_show(one, graph, before)]
            #![trigger may_show(two, graph, before)]
            may_show(one, graph, before) <==> may_show(two, graph, before),
{
}

/// Through the scoped door the other graphs do not matter: an answer that can come of a write on
/// one store can come of it on any other store that agrees on the graph, with the same done to
/// the graph.
pub proof fn a_scoped_write_depends_on_one_graph(
    inv: InvocationModel,
    one: DurableStore,
    one_after: DurableStore,
    two: DurableStore,
    rep: ReprModel,
    graph: Seq<char>,
    update: Seq<char>,
)
    requires
        GraphUpdateEndpoint.served(inv, one, one_after, Ok(rep)),
        GraphUpdateEndpoint.requested(inv) == Ok::<(Seq<char>, Seq<char>), ErrorModel>(
            (graph, update),
        ),
        agree_on(one.spec_dataset(), two.spec_dataset(), GraphModel::Iri(graph)),
    ensures
        exists|before: DatasetModel, after: DatasetModel|
            {
                &&& #[trigger] scoped_effect(graph, update, two.spec_dataset(), before, after)
                &&& written(
                    graph,
                    before,
                    after,
                    one.spec_dataset(),
                    one_after.spec_dataset(),
                )
                &&& rep == plain_model(
                    graph_updated_text(
                        graph,
                        after.quads.difference(before.quads).len(),
                        before.quads.difference(after.quads).len(),
                    ),
                )
            },
{
    let (added, removed) = choose|added: nat, removed: nat| #[trigger]
        scoped_success(
            graph,
            update,
            one.spec_dataset(),
            one_after.spec_dataset(),
            added,
            removed,
        ) && rep == plain_model(graph_updated_text(graph, added, removed));
    let (before, after) = choose|before: DatasetModel, after: DatasetModel|
        {
            &&& #[trigger] scoped_effect(graph, update, one.spec_dataset(), before, after)
            &&& written(graph, before, after, one.spec_dataset(), one_after.spec_dataset())
            &&& added == after.quads.difference(before.quads).len()
            &&& removed == before.quads.difference(after.quads).len()
        };
    lemma_shows_the_same(one.spec_dataset(), two.spec_dataset(), GraphModel::Iri(graph));
    assert(scoped_effect(graph, update, two.spec_dataset(), before, after));
}

/// Through the scoped door the other graphs do not matter to a refusal either: a write that can
/// be refused on one store can be refused in the same words on any other store that agrees on
/// the graph and is kept in the same way.
pub proof fn a_scoped_refusal_depends_on_one_graph(
    inv: InvocationModel,
    one: DurableStore,
    one_after: DurableStore,
    two: DurableStore,
    e: ErrorModel,
    graph: Seq<char>,
)
    requires
        GraphUpdateEndpoint.served(inv, one, one_after, Err(e)),
        inv.text("graph"@) == Ok::<Seq<char>, ErrorModel>(graph),
        one.kept_in_memory() == two.kept_in_memory(),
        agree_on(one.spec_dataset(), two.spec_dataset(), GraphModel::Iri(graph)),
    ensures
        GraphUpdateEndpoint.served(inv, two, two, Err(e)),
{
    if GraphUpdateEndpoint.requested(inv) is Ok {
        let update = GraphUpdateEndpoint.requested(inv)->Ok_0.1;
        let nothing = DatasetModel::empty();
        assert(scoped_stop(graph, update, one.spec_dataset(), e));
        a_scoped_update_cannot_read_outside_its_graph(
            graph,
            update,
            one.spec_dataset(),
            two.spec_dataset(),
            nothing,
            nothing,
            e,
        );
    }
}

/// What comes of a scoped update in memory is decided by what it does to its graph. Where the
/// evaluator carries it out on the graph alone, with one outcome, it succeeds if and only if
/// that outcome stays in the graph, and then the graph is that outcome and the rest is as it
/// was; otherwise it is denied, and nothing is changed. On a store in a directory the same
/// holds unless the storage failed.
pub proof fn effects_decide_a_scoped_update(
    graph: Seq<char>,
    update: Seq<char>,
    old_store: Dataset,
    new_store: Dataset,
    r: Result<(nat, nat), ErrorModel>,
    after: DatasetModel,
)
    requires
        scoped_outcome(graph, update, old_store, new_store, r),
        old_store.owned(),
        old_store.in_memory() || (r matches Err(e) ==> !is_storage_error(e)),
        comes_out_as(update, old_store.contents().only(GraphModel::Iri(graph)), after),
    ensures
        r is Ok <==> after.within(GraphModel::Iri(graph)),
        r is Ok ==> new_store.contents() == old_store.contents().with_graph(
            GraphModel::Iri(graph),
            after,
        ),
        r matches Ok((added, removed)) ==> {
            let before = old_store.contents().only(GraphModel::Iri(graph));
            &&& added == after.quads.difference(before.quads).len()
            &&& removed == before.quads.difference(after.quads).len()
        },
        (r matches Err(e) && e is Denied) <==> !after.within(GraphModel::Iri(graph)),
        r is Err ==> new_store.contents() == old_store.contents(),
{
    lemma_shows_its_graph(old_store, GraphModel::Iri(graph));
}

/// Whether an update is taken, and its evaluation on a dataset does not fail and has no other
/// outcome than this.
pub open spec fn comes_out_as(
    update: Seq<char>,
    before: DatasetModel,
    after: DatasetModel,
) -> bool {
    &&& !update_refused(update)
    &&& forall|reason: Seq<char>| !#[trigger] update_may_fail(update, before, reason)
    &&& forall|other: DatasetModel| #[trigger]
        update_may_give(update, before, other) ==> other == after
}

/// What may be found of a graph in an owned dataset is what it holds of it.
proof fn lemma_shows_its_graph(store: Dataset, graph: GraphModel)
    requires
        store.owned(),
    ensures
        forall|before: DatasetModel| #[trigger]
            may_show(store, graph, before) ==> before == store.contents().only(graph),
{
}

/// Two scoped updates with the same text, on two owned datasets in memory that hold the same
/// graph, end alike where the evaluation has one outcome: both succeed with the same counts and
/// leave the same graph, or both are denied. The other graphs make no difference.
pub proof fn a_determined_scoped_update_is_the_same_everywhere(
    graph: Seq<char>,
    update: Seq<char>,
    one: Dataset,
    one_after: Dataset,
    first: Result<(nat, nat), ErrorModel>,
    two: Dataset,
    two_after: Dataset,
    second: Result<(nat, nat), ErrorModel>,
    after: DatasetModel,
)
    requires
        scoped_outcome(graph, update, one, one_after, first),
        scoped_outcome(graph, update, two, two_after, second),
        one.owned(),
        two.owned(),
        one.in_memory() || (first matches Err(e) ==> !is_storage_error(e)),
        two.in_memory() || (second matches Err(e) ==> !is_storage_error(e)),
        one.contents().only(GraphModel::Iri(graph)) == two.contents().only(GraphModel::Iri(graph)),
        comes_out_as(update, one.contents().only(GraphModel::Iri(graph)), after),
    ensures
        first is Ok ==> second == first,
        first is Err ==> {
            &&& second is Err
            &&& first->Err_0 is Denied
            &&& second->Err_0 is Denied
        },
        one_after.contents().only(GraphModel::Iri(graph)) == two_after.contents().only(
            GraphModel::Iri(graph),
        ),
{
    effects_decide_a_scoped_update(graph, update, one, one_after, first, after);
    effects_decide_a_scoped_update(graph, update, two, two_after, second, after);
    if first is Ok {
        a_scoped_update_replaces_its_graph(one.contents(), after, GraphModel::Iri(graph));
        a_scoped_update_replaces_its_graph(two.contents(), after, GraphModel::Iri(graph));
    }
}

/// A scoped update that the evaluator refuses whatever it finds of the graph is refused on every
/// dataset in memory, and never denied; nothing is done.
pub proof fn an_update_that_cannot_be_carried_out_is_refused(
    graph: Seq<char>,
    update: Seq<char>,
    old_store: Dataset,
    new_store: Dataset,
    r: Result<(nat, nat), ErrorModel>,
)
    requires
        scoped_outcome(graph, update, old_store, new_store, r),
        old_store.in_memory(),
        forall|before: DatasetModel, after: DatasetModel|
            may_show(old_store, GraphModel::Iri(graph), before) ==> !#[trigger] update_may_give(
                update,
                before,
                after,
            ),
    ensures
        r matches Err(e) && !(e is Denied),
        new_store.untouched_since(old_store),
{
}

/// In memory a scoped update that the evaluator carries out on its graph, and that stays in the
/// graph whatever its outcome, succeeds: on every store, one that others write to among them.
pub proof fn an_update_that_stays_in_its_graph_succeeds(
    graph: Seq<char>,
    update: Seq<char>,
    old_store: Dataset,
    new_store: Dataset,
    r: Result<(nat, nat), ErrorModel>,
)
    requires
        scoped_outcome(graph, update, old_store, new_store, r),
        old_store.in_memory(),
        !update_refused(update),
        forall|before: DatasetModel, reason: Seq<char>|
            may_show(old_store, GraphModel::Iri(graph), before) ==> !#[trigger] update_may_fail(
                update,
                before,
                reason,
            ),
        forall|before: DatasetModel, after: DatasetModel|
            may_show(old_store, GraphModel::Iri(graph), before) && #[trigger] update_may_give(
                update,
                before,
                after,
            ) ==> after.within(GraphModel::Iri(graph)),
    ensures
        r is Ok,
        exists|before: DatasetModel, after: DatasetModel| #[trigger]
            scoped_effect(graph, update, old_store, before, after) && written(
                graph,
                before,
                after,
                old_store,
                new_store,
            ),
{
}

/// In memory a scoped update that leaves its graph whatever its outcome is denied, and nothing
/// is done, however much of it stayed inside: on every store, one that others write to among
/// them.
pub proof fn an_update_that_leaves_its_graph_is_denied(
    graph: Seq<char>,
    update: Seq<char>,
    old_store: Dataset,
    new_store: Dataset,
    r: Result<(nat, nat), ErrorModel>,
)
    requires
        scoped_outcome(graph, update, old_store, new_store, r),
        old_store.in_memory(),
        !update_refused(update),
        forall|before: DatasetModel, reason: Seq<char>|
            may_show(old_store, GraphModel::Iri(graph), before) ==> !#[trigger] update_may_fail(
                update,
                before,
                reason,
            ),
        forall|before: DatasetModel, after: DatasetModel|
            may_show(old_store, GraphModel::Iri(graph), before) && #[trigger] update_may_give(
                update,
                before,
                after,
            ) ==> !after.within(GraphModel::Iri(graph)),
    ensures
        r matches Err(e) && e is Denied,
        new_store.untouched_since(old_store),
{
}

/// The scoped door in memory answers by what the update does to its graph: where the evaluator
/// carries it out with one outcome, the request succeeds if and only if the outcome stays in
/// the graph, and the answer counts what came and what went.
pub proof fn effects_decide_a_scoped_write(
    inv: InvocationModel,
    old_store: DurableStore,
    new_store: DurableStore,
    r: Result<ReprModel, ErrorModel>,
    graph: Seq<char>,
    update: Seq<char>,
    after: DatasetModel,
)
    requires
        GraphUpdateEndpoint.served(inv, old_store, new_store, r),
        GraphUpdateEndpoint.requested(inv) == Ok::<(Seq<char>, Seq<char>), ErrorModel>(
            (graph, update),
        ),
        old_store.covered(),
        old_store.kept_in_memory(),
        comes_out_as(update, old_store.contents().only(GraphModel::Iri(graph)), after),
    ensures
        after.within(GraphModel::Iri(graph)) ==> {
            let before = old_store.contents().only(GraphModel::Iri(graph));
            &&& r == Ok::<ReprModel, ErrorModel>(
                plain_model(
                    graph_updated_text(
                        graph,
                        after.quads.difference(before.quads).len(),
                        before.quads.difference(after.quads).len(),
                    ),
                ),
            )
            &&& new_store.contents() == old_store.contents().with_graph(
                GraphModel::Iri(graph),
                after,
            )
        },
        !after.within(GraphModel::Iri(graph)) ==> {
            &&& r matches Err(e) && e is Denied
            &&& new_store.contents() == old_store.contents()
        },
{
    let one = old_store.spec_dataset();
    let two = new_store.spec_dataset();
    match r {
        Ok(rep) => {
            let (added, removed) = choose|added: nat, removed: nat| #[trigger]
                scoped_success(graph, update, one, two, added, removed) && rep == plain_model(
                    graph_updated_text(graph, added, removed),
                );
            effects_decide_a_scoped_update(graph, update, one, two, Ok((added, removed)), after);
        },
        Err(e) => {
            effects_decide_a_scoped_update(graph, update, one, two, Err(e), after);
        },
    }
}

/// In memory a text that is no update is refused as such at the open door, and nothing is
/// changed.
pub proof fn a_malformed_update_is_refused(
    inv: InvocationModel,
    old_store: DurableStore,
    new_store: DurableStore,
    r: Result<ReprModel, ErrorModel>,
    update: Seq<char>,
)
    requires
        UpdateEndpoint.served(inv, old_store, new_store, r),
        UpdateEndpoint.requested(inv) == Ok::<Seq<char>, ErrorModel>(update),
        update_refused(update),
        old_store.kept_in_memory(),
    ensures
        exists|reason: Seq<char>| #[trigger]
            update_may_be_refused(update, reason) && r == Err::<ReprModel, ErrorModel>(
                not_an_update(reason),
            ),
        new_store == old_store,
{
}

/// In memory a text that is no update is refused as such at the scoped door, and nothing is
/// changed.
pub proof fn a_malformed_scoped_update_is_refused(
    inv: InvocationModel,
    old_store: DurableStore,
    new_store: DurableStore,
    r: Result<ReprModel, ErrorModel>,
    graph: Seq<char>,
    update: Seq<char>,
)
    requires
        GraphUpdateEndpoint.served(inv, old_store, new_store, r),
        GraphUpdateEndpoint.requested(inv) == Ok::<(Seq<char>, Seq<char>), ErrorModel>(
            (graph, update),
        ),
        update_refused(update),
        old_store.kept_in_memory(),
    ensures
        exists|reason: Seq<char>| #[trigger]
            update_may_be_refused(update, reason) && r == Err::<ReprModel, ErrorModel>(
                not_an_update(reason),
            ),
        new_store.untouched_since(old_store),
{
}

/// Through the scoped door nothing is done by a write that fails, unless it was the storage in a
/// directory that failed: no transaction is committed, and a covered store holds what it held.
pub proof fn a_refused_scoped_write_changes_nothing(
    inv: InvocationModel,
    old_store: DurableStore,
    new_store: DurableStore,
    e: ErrorModel,
)
    requires
        GraphUpdateEndpoint.served(inv, old_store, new_store, Err(e)),
        old_store.kept_in_memory() || !is_storage_error(e),
    ensures
        new_store.untouched_since(old_store),
{
}

/// Nothing but a grant for the graph opens the scoped door to write, and without it nothing
/// changes: a request that names a graph is carried out only under the grant for that graph.
pub proof fn only_a_graph_grant_opens_the_scoped_write(
    inv: InvocationModel,
    old_store: DurableStore,
    new_store: DurableStore,
    r: Result<ReprModel, ErrorModel>,
    graph: Seq<char>,
)
    requires
        GraphUpdateEndpoint.served(inv, old_store, new_store, r),
        inv.text("graph"@) == Ok::<Seq<char>, ErrorModel>(graph),
        !grants(inv.capability, write_scope(graph)),
    ensures
        r is Err,
        new_store == old_store,
{
}

// ------------------------------------------------------------------- reading from one graph

/// A scoped read sees one graph of the store, the one it names, and holds the grant for it.
pub proof fn a_scoped_read_sees_one_graph(
    endpoint: QueryEndpoint,
    inv: InvocationModel,
    plan: QueryPlan,
    bound: Seq<(Seq<char>, TermModel)>,
    contents: DatasetModel,
)
    requires
        endpoint.scoped,
        endpoint.planned(inv) == Ok::<(QueryPlan, Seq<(Seq<char>, TermModel)>), ErrorModel>(
            (plan, bound),
        ),
    ensures
        inv.text("graph"@) matches Ok(graph) && grants(inv.capability, read_scope(graph))
            && contents.visible(plan.dataset) == contents.only(GraphModel::Iri(graph)),
{
    let query = inv.text("query"@)->Ok_0;
    let graph = inv.text("graph"@)->Ok_0;
    let dataset = parsed_query(query)->Ok_0;
    lemma_substituted(QueryPlan::new(query, dataset).confined(GraphModel::Iri(graph)), bound);
    a_confined_query_sees_one_graph(contents, GraphModel::Iri(graph));
}

/// A scoped read depends on one graph: what can be answered over one store can be answered over
/// any other store that agrees on the graph, and nothing else can, whatever their other graphs
/// hold and whoever writes to them.
pub proof fn a_scoped_read_depends_on_one_graph(
    endpoint: QueryEndpoint,
    inv: InvocationModel,
    one: DurableStore,
    two: DurableStore,
    r: Result<ReprModel, ErrorModel>,
    graph: Seq<char>,
)
    requires
        endpoint.scoped,
        inv.text("graph"@) == Ok::<Seq<char>, ErrorModel>(graph),
        one.covered() == two.covered(),
        agree_on(one.spec_dataset(), two.spec_dataset(), GraphModel::Iri(graph)),
    ensures
        endpoint.served(inv, one, r) == endpoint.served(inv, two, r),
{
    if let Ok((plan, bound)) = endpoint.planned(inv) {
        let first = one.spec_dataset();
        let second = two.spec_dataset();
        assert forall|answer: Result<AnswerModel, Seq<char>>|
            #![trigger first.may_answer(plan, answer)]
            #![trigger second.may_answer(plan, answer)]
            first.may_answer(plan, answer) == second.may_answer(plan, answer) by {
            lemma_answered_from_one_graph(endpoint, inv, first, plan, bound, graph, answer);
            lemma_answered_from_one_graph(endpoint, inv, second, plan, bound, graph, answer);
        }
    }
}

/// What a scoped read may answer rests on what may be found of its graph.
proof fn lemma_answered_from_one_graph(
    endpoint: QueryEndpoint,
    inv: InvocationModel,
    store: Dataset,
    plan: QueryPlan,
    bound: Seq<(Seq<char>, TermModel)>,
    graph: Seq<char>,
    answer: Result<AnswerModel, Seq<char>>,
)
    requires
        endpoint.scoped,
        inv.text("graph"@) == Ok::<Seq<char>, ErrorModel>(graph),
        endpoint.planned(inv) == Ok::<(QueryPlan, Seq<(Seq<char>, TermModel)>), ErrorModel>(
            (plan, bound),
        ),
    ensures
        store.may_answer(plan, answer) <==> exists|part: DatasetModel| #[trigger]
            may_find(store, GraphModel::Iri(graph), part) && query_may_answer(plan, part, answer),
{
    let name = GraphModel::Iri(graph);
    if store.may_answer(plan, answer) {
        let contents = choose|contents: DatasetModel| #[trigger]
            store.may_hold(contents) && query_may_answer(
                plan,
                contents.visible(plan.dataset),
                answer,
            );
        a_scoped_read_sees_one_graph(endpoint, inv, plan, bound, contents);
        assert(may_find(store, name, contents.only(name)));
    }
    if exists|part: DatasetModel| #[trigger]
        may_find(store, name, part) && query_may_answer(plan, part, answer) {
        let part = choose|part: DatasetModel| #[trigger]
            may_find(store, name, part) && query_may_answer(plan, part, answer);
        let contents = choose|contents: DatasetModel| #[trigger]
            store.may_hold(contents) && part == contents.only(name);
        a_scoped_read_sees_one_graph(endpoint, inv, plan, bound, contents);
        assert(store.may_hold(contents));
    }
}

/// A scoped read whose evaluation has one outcome has the same outcome over any two stores that
/// agree on the graph.
pub proof fn a_determined_scoped_read_is_the_same_everywhere(
    endpoint: QueryEndpoint,
    inv: InvocationModel,
    one: DurableStore,
    two: DurableStore,
    first: Result<ReprModel, ErrorModel>,
    second: Result<ReprModel, ErrorModel>,
    graph: Seq<char>,
)
    requires
        endpoint.scoped,
        inv.text("graph"@) == Ok::<Seq<char>, ErrorModel>(graph),
        one.covered() == two.covered(),
        agree_on(one.spec_dataset(), two.spec_dataset(), GraphModel::Iri(graph)),
        endpoint.planned(inv) matches Ok((plan, _)) ==> has_one_answer(one.spec_dataset(), plan),
        endpoint.served(inv, one, first),
        endpoint.served(inv, two, second),
    ensures
        first == second,
{
    a_scoped_read_depends_on_one_graph(endpoint, inv, one, two, second, graph);
    assert(endpoint.served(inv, one, second));
}

/// Whether a query over a dataset ends in one way only.
pub open spec fn has_one_answer(store: Dataset, plan: QueryPlan) -> bool {
    forall|a: Result<AnswerModel, Seq<char>>, b: Result<AnswerModel, Seq<char>>| #[trigger]
        store.may_answer(plan, a) && #[trigger] store.may_answer(plan, b) ==> a == b
}

/// A store whose handle was given away is read through that handle: a query is answered over
/// what the storage of the handle may be found to hold, whoever wrote it there.
pub proof fn a_shared_store_is_read_through_its_handle(
    endpoint: QueryEndpoint,
    inv: InvocationModel,
    store: DurableStore,
    handle: Store,
    r: Result<ReprModel, ErrorModel>,
    plan: QueryPlan,
    bound: Seq<(Seq<char>, TermModel)>,
)
    requires
        endpoint.served(inv, store, r),
        endpoint.planned(inv) == Ok::<(QueryPlan, Seq<(Seq<char>, TermModel)>), ErrorModel>(
            (plan, bound),
        ),
        inv.optional_text("as"@) is Ok,
        !store.covered(),
        store_states(store.spec_dataset().spec_store()) == store_states(handle),
    ensures
        exists|contents: DatasetModel, answer: Result<AnswerModel, Seq<char>>|
            #![trigger store_states(handle).contains(contents), endpoint.answered(answer, bound, inv.optional_text("as"@)->Ok_0, false)]
            {
                &&& store_states(handle).contains(contents)
                &&& query_may_answer(plan, contents.visible(plan.dataset), answer)
                &&& r == endpoint.answered(answer, bound, inv.optional_text("as"@)->Ok_0, false)
            },
{
    let dataset = store.spec_dataset();
    let answer = choose|answer: Result<AnswerModel, Seq<char>>| #[trigger]
        dataset.may_answer(plan, answer) && r == endpoint.answered(
            answer,
            bound,
            inv.optional_text("as"@)->Ok_0,
            false,
        );
    let contents = choose|contents: DatasetModel| #[trigger]
        dataset.may_hold(contents) && query_may_answer(
            plan,
            contents.visible(plan.dataset),
            answer,
        );
    assert(store_states(handle).contains(contents));
}

/// A store whose handle was given away counts what lies in the storage of that handle.
pub proof fn a_shared_store_counts_through_its_handle(
    inv: InvocationModel,
    store: DurableStore,
    handle: Store,
    r: Result<ReprModel, ErrorModel>,
)
    requires
        InfoEndpoint.served(inv, store, r),
        inv.verb == Verb::Source,
        !store.covered(),
        store.kept_in_memory(),
        store_states(store.spec_dataset().spec_store()) == store_states(handle),
    ensures
        r is Ok,
        exists|contents: DatasetModel| #[trigger]
            store_states(handle).contains(contents) && is_info(
                r->Ok_0,
                store.spec_backing(),
                contents.quads.len(),
                false,
            ),
{
    let contents = choose|contents: DatasetModel| #[trigger]
        store.may_hold(contents) && is_info(
            r->Ok_0,
            store.spec_backing(),
            contents.quads.len(),
            store.covered(),
        );
    assert(store_states(handle).contains(contents));
}

/// Whatever is asked of a store, it stays in its storage and at its place, and it is covered
/// afterwards if and only if it was before: a handle that left never comes back.
pub proof fn a_store_stays_in_its_storage(
    endpoint: Endpoint,
    inv: InvocationModel,
    old_store: DurableStore,
    new_store: DurableStore,
    r: Result<ReprModel, ErrorModel>,
)
    requires
        endpoint.served(inv, old_store, new_store, r),
    ensures
        new_store.continues(old_store),
{
}

/// Nothing but a grant for the graph opens the scoped door to read: without it the request is
/// refused before anything is parsed or evaluated, whatever else the capability grants.
pub proof fn only_a_graph_grant_opens_the_scoped_read(
    endpoint: QueryEndpoint,
    inv: InvocationModel,
    graph: Seq<char>,
)
    requires
        endpoint.scoped,
        inv.verb == Verb::Source,
        inv.text("query"@) is Ok,
        inv.text("graph"@) == Ok::<Seq<char>, ErrorModel>(graph),
        iri_refusal(graph) == None::<Seq<char>>,
        !grants(inv.capability, read_scope(graph)),
    ensures
        endpoint.planned(inv) == Err::<(QueryPlan, Seq<(Seq<char>, TermModel)>), ErrorModel>(
            endpoint.read_denied(graph),
        ),
{
}

/// A query of another shape is never served: what is answered has the shape of the form.
pub proof fn an_answer_has_the_shape_of_its_form(
    endpoint: QueryEndpoint,
    answer: AnswerModel,
    bound: Seq<(Seq<char>, TermModel)>,
    as_type: Option<Seq<char>>,
    covered: bool,
)
    requires
        endpoint.answered(Ok(answer), bound, as_type, covered) is Ok,
    ensures
        (answer is Graph) == endpoint.form.spec_graph_shaped(),
{
}

/// What is answered comes in one of the media types that the resource declares. An `as` that
/// is none of them is refused, never substituted.
pub proof fn an_answer_comes_in_a_declared_output(
    endpoint: QueryEndpoint,
    answer: Result<AnswerModel, Seq<char>>,
    bound: Seq<(Seq<char>, TermModel)>,
    as_type: Option<Seq<char>>,
    covered: bool,
)
    requires
        endpoint.answered(answer, bound, as_type, covered) is Ok,
    ensures
        endpoint.description().outputs.contains(
            endpoint.answered(answer, bound, as_type, covered)->Ok_0.media_type,
        ),
{
    assert(texts(RESULT_OUTPUTS@)[0] == RESULT_OUTPUTS@[0]@);
    assert(texts(GRAPH_OUTPUTS@)[0] == GRAPH_OUTPUTS@[0]@);
}

// ------------------------------------------------------------------- telling of the store

/// A store in memory always tells of itself: a fresh one that it is in memory, holds nothing
/// and is covered.
pub proof fn a_fresh_store_tells_of_itself(
    inv: InvocationModel,
    store: DurableStore,
    r: Result<ReprModel, ErrorModel>,
)
    requires
        InfoEndpoint.served(inv, store, r),
        inv.verb == Verb::Source,
        store.covered(),
        store.kept_in_memory(),
        store.contents() == DatasetModel::empty(),
        store.spec_backing() == BackingModel::Memory,
    ensures
        r matches Ok(rep) && rep.bytes == encode_utf8(
            "backing: "@ + "memory"@ + "\nquads: "@ + nat_text(0) + "\ncovered: "@ + "true"@
                + "\n"@,
        ),
{
}

// ------------------------------------------------------------------- reading what is cached

/// A read may be kept if and only if every write to the store is seen.
pub proof fn a_read_is_kept_exactly_when_covered(
    endpoint: Endpoint,
    inv: InvocationModel,
    old_store: DurableStore,
    new_store: DurableStore,
    rep: ReprModel,
)
    requires
        endpoint.served(inv, old_store, new_store, Ok(rep)),
    ensures
        rep.cacheable == (old_store.covered() && !endpoint.writes()),
        new_store.covered() == old_store.covered(),
{
}

/// An answer that may be kept depends on the thread of every resource that writes, so every
/// write through the resources retires it. One that may not be kept depends on nothing.
pub proof fn every_write_cuts_a_thread(
    endpoint: Endpoint,
    writer: Endpoint,
    inv: InvocationModel,
    old_store: DurableStore,
    new_store: DurableStore,
    rep: ReprModel,
)
    requires
        endpoint.served(inv, old_store, new_store, Ok(rep)),
        resources().contains(writer),
        writer.writes(),
    ensures
        rep.cacheable ==> rep.threads.contains(writer.spec_iri()),
        !rep.cacheable ==> rep.threads.len() == 0,
{
    let threads = seq![UPDATE_THREAD@, LOAD_THREAD@, GRAPH_UPDATE_THREAD@];
    assert(threads[0] == UPDATE_THREAD@);
    assert(threads[1] == LOAD_THREAD@);
    assert(threads[2] == GRAPH_UPDATE_THREAD@);
}

/// An update is one whole, however many operations it is made of: it is carried out in one
/// transaction or not at all, and a text that is no update is not carried out.
pub proof fn an_update_is_all_or_nothing(
    inv: InvocationModel,
    old_store: DurableStore,
    new_store: DurableStore,
    r: Result<ReprModel, ErrorModel>,
    update: Seq<char>,
)
    requires
        UpdateEndpoint.served(inv, old_store, new_store, r),
        inv.text("content"@) == Ok::<Seq<char>, ErrorModel>(update),
    ensures
        new_store.untouched_since(old_store) || new_store.spec_dataset().updated_since(
            old_store.spec_dataset(),
            update,
        ),
        r is Ok ==> new_store.spec_dataset().updated_since(old_store.spec_dataset(), update),
        old_store.covered() ==> new_store.contents() == old_store.contents() || update_may_give(
            update,
            old_store.contents(),
            new_store.contents(),
        ),
        update_refused(update) ==> r is Err && new_store == old_store,
{
}

/// In memory an update that the evaluator carries out whatever it finds succeeds, and is carried
/// out: on every store, one that others write to among them.
pub proof fn an_update_that_can_be_carried_out_is(
    inv: InvocationModel,
    old_store: DurableStore,
    new_store: DurableStore,
    r: Result<ReprModel, ErrorModel>,
    update: Seq<char>,
)
    requires
        UpdateEndpoint.served(inv, old_store, new_store, r),
        UpdateEndpoint.requested(inv) == Ok::<Seq<char>, ErrorModel>(update),
        old_store.kept_in_memory(),
        !update_refused(update),
        forall|found: DatasetModel, reason: Seq<char>|
            old_store.may_hold(found) ==> !#[trigger] update_may_fail(update, found, reason),
    ensures
        r is Ok,
        new_store.spec_dataset().updated_since(old_store.spec_dataset(), update),
        old_store.covered() ==> update_may_give(
            update,
            old_store.contents(),
            new_store.contents(),
        ),
{
}

/// In memory a document in a declared syntax that can be read is loaded: one transaction adds its
/// statements, and nothing else. One that cannot be read is refused for what it holds, and
/// nothing is done.
pub proof fn a_load_adds_its_document(
    inv: InvocationModel,
    old_store: DurableStore,
    new_store: DurableStore,
    r: Result<ReprModel, ErrorModel>,
    plan: LoadPlan,
)
    requires
        LoadEndpoint.served(inv, old_store, new_store, r),
        LoadEndpoint.requested(inv) == Ok::<LoadPlan, ErrorModel>(plan),
        texts(LOAD_FORMATS@).contains(plan.media),
        old_store.kept_in_memory(),
    ensures
        if document_refused(plan.format, plan.graph, plan.bytes) {
            &&& new_store.untouched_since(old_store)
            &&& exists|reason: Seq<char>| #[trigger]
                document_may_be_refused(plan.format, plan.graph, plan.bytes, reason) && r == Err::<
                    ReprModel,
                    ErrorModel,
                >(load_failed(plan.media, reason))
        } else {
            &&& r is Ok
            &&& new_store.spec_dataset().loaded_since(
                old_store.spec_dataset(),
                plan.format,
                plan.graph,
                plan.bytes,
            )
            &&& old_store.covered() ==> loaded(
                plan.format,
                plan.graph,
                plan.bytes,
                old_store.contents(),
                new_store.contents(),
            ) && tells_load(
                r->Ok_0,
                plan.media,
                old_store.contents().quads.len(),
                new_store.contents().quads.len(),
            )
        },
{
    lemma_declared_is_plain(plan.media);
}

/// Each of the declared syntaxes is one for triples or for quads.
proof fn lemma_declared_is_plain(media: Seq<char>)
    requires
        texts(LOAD_FORMATS@).contains(media),
    ensures
        is_plain_syntax(format_of(media)),
{
    let i = choose|i: int| 0 <= i < LOAD_FORMATS@.len() && texts(LOAD_FORMATS@)[i] == media;
    assert(media == LOAD_FORMATS@[i]@);
    assert(i == 0 || i == 1 || i == 2 || i == 3 || i == 4);
}

/// A document in a syntax for quads, which names its own graphs, is loaded as it says, whatever
/// `graph` is.
pub proof fn a_quad_syntax_ignores_the_graph(inv: InvocationModel, plan: LoadPlan)
    requires
        LoadEndpoint.requested(inv) == Ok::<LoadPlan, ErrorModel>(plan),
        plan.media == "application/n-quads"@ || plan.media == "application/trig"@,
    ensures
        plan.graph == None::<Seq<char>>,
{
    lemma_media_differ();
}

/// A document in a syntax for triples goes into `graph`, and into the default graph where there
/// is none.
pub proof fn a_triple_syntax_takes_the_graph(
    inv: InvocationModel,
    plan: LoadPlan,
    before: DatasetModel,
    after: DatasetModel,
)
    requires
        LoadEndpoint.requested(inv) == Ok::<LoadPlan, ErrorModel>(plan),
        plan.media == "text/turtle"@ || plan.media == "application/n-triples"@ || plan.media
            == "application/rdf+xml"@,
        loaded(plan.format, plan.graph, plan.bytes, before, after),
    ensures
        LoadEndpoint.target(inv) == Ok::<Option<Seq<char>>, ErrorModel>(plan.graph),
        forall|q: QuadModel| #[trigger]
            after.quads.contains(q) ==> before.quads.contains(q) || q.graph == graph_place(
                plan.graph,
            ),
        before.part_of(after),
{
    assert(texts(LOAD_FORMATS@)[0] == "text/turtle"@);
    assert(texts(LOAD_FORMATS@)[1] == "application/n-triples"@);
    assert(texts(LOAD_FORMATS@)[4] == "application/rdf+xml"@);
}

/// The media types of the syntaxes for quads are not those of the syntaxes for triples.
proof fn lemma_media_differ()
    ensures
        "application/n-quads"@ != "text/turtle"@,
        "application/n-quads"@ != "application/n-triples"@,
        "application/n-quads"@ != "application/rdf+xml"@,
        "application/trig"@ != "text/turtle"@,
        "application/trig"@ != "application/n-triples"@,
        "application/trig"@ != "application/rdf+xml"@,
{
    reveal_strlit("text/turtle");
    reveal_strlit("application/n-triples");
    reveal_strlit("application/n-quads");
    reveal_strlit("application/trig");
    reveal_strlit("application/rdf+xml");
    assert("application/n-quads"@.len() == 19 && "application/trig"@.len() == 16);
    assert("text/turtle"@.len() == 11 && "application/n-triples"@.len() == 21);
    assert("application/rdf+xml"@.len() == 19);
    assert("application/n-quads"@[12] == 'n' && "application/rdf+xml"@[12] == 'r');
}

/// A syntax that the resource declares is never refused as unknown, and the first of them is
/// taken where none is given.
pub proof fn a_declared_syntax_is_loaded(inv: InvocationModel, media: Seq<char>)
    requires
        inv.verb == Verb::Sink,
        inv.bytes("content"@) is Ok,
        LoadEndpoint.target(inv) is Ok,
        inv.optional_text("format"@) matches Ok(given) && media == match given {
            Some(given) => given,
            None => LOAD_FORMATS@[0]@,
        },
        texts(LOAD_FORMATS@).contains(media),
    ensures
        LoadEndpoint.requested(inv) matches Ok(plan) && plan.media == media && plan.format
            == format_of(media),
{
}

/// A load takes nothing away, whatever came of it: at most one transaction is committed, and it
/// leaves everything it found.
pub proof fn a_load_takes_nothing_away(
    inv: InvocationModel,
    old_store: DurableStore,
    new_store: DurableStore,
    r: Result<ReprModel, ErrorModel>,
)
    requires
        LoadEndpoint.served(inv, old_store, new_store, r),
    ensures
        new_store.changes() == old_store.changes() || {
            &&& new_store.changes().len() == old_store.changes().len() + 1
            &&& new_store.changes().drop_last() == old_store.changes()
            &&& new_store.changes().last().found.part_of(new_store.changes().last().left)
        },
        old_store.covered() ==> old_store.contents().part_of(new_store.contents()),
{
    if LoadEndpoint.requested(inv) is Ok && new_store.changes() != old_store.changes() {
        let plan = LoadEndpoint.requested(inv)->Ok_0;
        let one = old_store.spec_dataset();
        let two = new_store.spec_dataset();
        let change = choose|change: Change| #[trigger]
            two.changed_since(one, change) && loaded(
                plan.format,
                plan.graph,
                plan.bytes,
                change.found,
                change.left,
            );
        assert(two.changed_since(one, change));
        assert(new_store.changes().drop_last() =~= old_store.changes());
        assert(new_store.changes().last() == change);
    }
}

/// A read changes nothing.
pub proof fn a_read_changes_nothing(
    endpoint: Endpoint,
    inv: InvocationModel,
    old_store: DurableStore,
    new_store: DurableStore,
    r: Result<ReprModel, ErrorModel>,
)
    requires
        endpoint.served(inv, old_store, new_store, r),
        !endpoint.writes(),
    ensures
        new_store == old_store,
{
}

/// No two resources share an IRI, so a request resolves to the resource it names.
pub proof fn resources_have_their_own_iris(i: int, j: int)
    requires
        0 <= i < j < resources().len(),
    ensures
        resources()[i].spec_iri() != resources()[j].spec_iri(),
{
    lemma_suffixes();
    reveal_strlit("urn:iki:store:");
    reveal_strlit("urn:iki:store:graph-");
    reveal_strlit("urn:iki:store:info");
    reveal_strlit("urn:iki:store:update");
    reveal_strlit("urn:iki:store:graph-update");
    reveal_strlit("urn:iki:store:load");
    assert(resources()[0].spec_iri().len() == 20);
    assert(resources()[1].spec_iri().len() == 26);
    assert(resources()[2].spec_iri().len() == 17);
    assert(resources()[3].spec_iri().len() == 23);
    assert(resources()[4].spec_iri().len() == 23);
    assert(resources()[5].spec_iri().len() == 29);
    assert(resources()[6].spec_iri().len() == 22);
    assert(resources()[7].spec_iri().len() == 28);
    assert(resources()[8].spec_iri().len() == 18);
    assert(resources()[9].spec_iri().len() == 20);
    assert(resources()[10].spec_iri().len() == 26);
    assert(resources()[11].spec_iri().len() == 18);
    assert(resources()[0].spec_iri()[14] == 's');
    assert(resources()[9].spec_iri()[14] == 'u');
    assert(resources()[1].spec_iri()[20] == 's');
    assert(resources()[10].spec_iri()[20] == 'u');
    assert(resources()[3].spec_iri()[14] == 'g');
    assert(resources()[4].spec_iri()[14] == 'c');
    assert(resources()[8].spec_iri()[14] == 'i');
    assert(resources()[11].spec_iri()[14] == 'l');
}

/// A request to the IRI of a resource reaches that resource.
pub proof fn an_iri_reaches_its_resource(i: int)
    requires
        0 <= i < resources().len(),
    ensures
        resolved(resources(), resources()[i].spec_iri()) == Some(resources()[i]),
{
    assert(resources().skip(0) =~= resources());
    lemma_resolved(resources(), i);
}

/// Where no earlier resource is bound to the IRI of one, it resolves to that one.
proof fn lemma_resolved(endpoints: Seq<Endpoint>, i: int)
    requires
        endpoints.len() <= resources().len(),
        endpoints == resources().skip(resources().len() - endpoints.len()),
        0 <= i < endpoints.len(),
    ensures
        resolved(endpoints, endpoints[i].spec_iri()) == Some(endpoints[i]),
    decreases endpoints.len(),
{
    if i > 0 {
        let first = resources().len() - endpoints.len();
        resources_have_their_own_iris(first as int, first + i);
        assert(endpoints.drop_first() =~= resources().skip(first + 1));
        lemma_resolved(endpoints.drop_first(), i - 1);
    }
}

/// No two resources share a description id.
pub proof fn resources_have_their_own_ids(i: int, j: int)
    requires
        0 <= i < j < resources().len(),
    ensures
        resources()[i].spec_name() != resources()[j].spec_name(),
{
    lemma_suffixes();
    reveal_strlit("store-");
    reveal_strlit("store-graph-");
    reveal_strlit("store-info");
    reveal_strlit("store-update");
    reveal_strlit("store-graph-update");
    reveal_strlit("store-load");
    assert(resources()[0].spec_name().len() == 12);
    assert(resources()[1].spec_name().len() == 18);
    assert(resources()[2].spec_name().len() == 9);
    assert(resources()[3].spec_name().len() == 15);
    assert(resources()[4].spec_name().len() == 15);
    assert(resources()[5].spec_name().len() == 21);
    assert(resources()[6].spec_name().len() == 14);
    assert(resources()[7].spec_name().len() == 20);
    assert(resources()[8].spec_name().len() == 10);
    assert(resources()[9].spec_name().len() == 12);
    assert(resources()[10].spec_name().len() == 18);
    assert(resources()[11].spec_name().len() == 10);
    assert(resources()[0].spec_name()[6] == 's');
    assert(resources()[9].spec_name()[6] == 'u');
    assert(resources()[1].spec_name()[12] == 's');
    assert(resources()[10].spec_name()[12] == 'u');
    assert(resources()[3].spec_name()[6] == 'g');
    assert(resources()[4].spec_name()[6] == 'c');
    assert(resources()[8].spec_name()[6] == 'i');
    assert(resources()[11].spec_name()[6] == 'l');
}

/// The lengths and the first letters of the names of the query forms.
proof fn lemma_suffixes()
    ensures
        Form::Select.spec_suffix().len() == 6 && Form::Select.spec_suffix()[0] == 's',
        Form::Ask.spec_suffix().len() == 3 && Form::Ask.spec_suffix()[0] == 'a',
        Form::Construct.spec_suffix().len() == 9 && Form::Construct.spec_suffix()[0] == 'c',
        Form::Describe.spec_suffix().len() == 8 && Form::Describe.spec_suffix()[0] == 'd',
{
    reveal_strlit("select");
    reveal_strlit("ask");
    reveal_strlit("construct");
    reveal_strlit("describe");
}

} // verus!
