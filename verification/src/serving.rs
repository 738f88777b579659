//! What is done for a request, told by its arguments, the store and the answer.

use crate::behaviour::a_document_lands_in_the_graph_that_was_named;
use crate::confine::{
    escaped_graph_error, escaped_quad_error, may_find, scoped_effect, scoped_success, settled,
    written,
};
use crate::dataset::{
    document_may_be_refused, document_may_say, update_may_be_refused, update_may_fail,
    update_may_give, update_refused, Change, DatasetModel, GraphModel, QuadModel,
};
use crate::endpoints::Endpoint;
use crate::error::ErrorModel;
use crate::json::{entries_map, json_of_text};
use crate::query::{own_dataset_error, substituted, QueryEndpoint};
use crate::request::{grants, InvocationModel, ReprModel, Verb};
use crate::scope::{
    parsed_query, query_may_answer, variable_refusal, AnswerModel, DatasetSpec, QueryPlan,
};
use crate::sparql::bound_by;
use crate::store::{BackingModel, DurableStore};
use crate::term::{iri_refusal, TermModel};
use crate::text::{nat_text, occurs_in};
use crate::write::{
    graph_updated_text, plain_model, GraphUpdateEndpoint, InfoEndpoint, LoadEndpoint, LoadPlan,
    UpdateEndpoint,
};
use vstd::prelude::*;
use vstd::utf8::encode_utf8;

verus! {

// ------------------------------------------------------------------- planning a query

/// Whether these are the values that a request binds: those of its `bindings` argument, read as
/// JSON, and none where it has none.
pub open spec fn binds_these(
    inv: InvocationModel,
    bound: Seq<(Seq<char>, TermModel)>,
) -> bool {
    match inv.optional_text("bindings"@) {
        Ok(Some(json)) => bound_by(json_of_text(json)) == Ok::<
            Seq<(Seq<char>, TermModel)>,
            ErrorModel,
        >(bound),
        Ok(None) => bound.len() == 0,
        Err(_) => false,
    }
}

/// Whether a query sees what a request may read: on a resource over the whole dataset what its own
/// text asks for; on a scoped one the graph that the `graph` argument names, as the default graph
/// and as the only named one, under the grant for that graph, and only where the text asks for no
/// dataset of its own.
pub open spec fn sees_what_was_granted(
    endpoint: QueryEndpoint,
    inv: InvocationModel,
    own: DatasetSpec,
    seen: DatasetSpec,
) -> bool {
    if !endpoint.scoped {
        seen == own
    } else {
        match inv.text("graph"@) {
            Ok(graph) => {
                &&& iri_refusal(graph) == None::<Seq<char>>
                &&& grants(inv.capability, "urn:cap:store:read:graph:"@ + graph)
                &&& own.default == Some(seq![GraphModel::Default])
                &&& own.named == None::<Seq<GraphModel>>
                &&& seen.default == Some(seq![GraphModel::Iri(graph)])
                &&& seen.named == Some(seq![GraphModel::Iri(graph)])
            },
            Err(_) => false,
        }
    }
}

/// What is evaluated is the whole `query` argument, character by character, with the values of the
/// `bindings` argument bound into it, over what the request may read. Every such request is
/// evaluated, and no other.
pub proof fn a_query_is_evaluated_as_it_was_asked(
    endpoint: QueryEndpoint,
    inv: InvocationModel,
    plan: QueryPlan,
    bound: Seq<(Seq<char>, TermModel)>,
)
    ensures
        endpoint.planned(inv) == Ok::<(QueryPlan, Seq<(Seq<char>, TermModel)>), ErrorModel>(
            (plan, bound),
        ) <==> {
            &&& inv.verb == Verb::Source
            &&& inv.text("query"@) == Ok::<Seq<char>, ErrorModel>(plan.text)
            &&& binds_these(inv, bound)
            &&& plan.bindings == entries_map(bound)
            &&& forall|i: int|
                0 <= i < bound.len() ==> variable_refusal((#[trigger] bound[i]).0) == None::<
                    Seq<char>,
                >
            &&& parsed_query(plan.text) matches Ok(own) && sees_what_was_granted(
                endpoint,
                inv,
                own,
                plan.dataset,
            )
        },
{
    if inv.verb == Verb::Source && inv.text("query"@) is Ok {
        let query = inv.text("query"@)->Ok_0;
        if parsed_query(query) is Ok {
            let own = parsed_query(query)->Ok_0;
            lemma_substitutes(QueryPlan::new(query, own), bound);
            if endpoint.scoped && inv.text("graph"@) is Ok {
                let graph = inv.text("graph"@)->Ok_0;
                lemma_substitutes(
                    QueryPlan::new(query, own).confined(GraphModel::Iri(graph)),
                    bound,
                );
            }
        }
    }
    if binds_these(inv, bound) {
        assert(inv.optional_text("bindings"@) == Ok::<Option<Seq<char>>, ErrorModel>(None)
            ==> bound =~= Seq::empty());
    }
}

/// Values are bound into a query if and only if each stands for a variable, and then all of them
/// are.
proof fn lemma_substitutes(plan: QueryPlan, bound: Seq<(Seq<char>, TermModel)>)
    requires
        plan.bindings == Map::<Seq<char>, TermModel>::empty(),
    ensures
        substituted(plan, bound) is Ok <==> forall|i: int|
            0 <= i < bound.len() ==> variable_refusal((#[trigger] bound[i]).0) == None::<Seq<char>>,
        substituted(plan, bound) matches Ok(whole) ==> {
            &&& whole.text == plan.text
            &&& whole.dataset == plan.dataset
            &&& whole.bindings == entries_map(bound)
        },
    decreases bound.len(),
{
    if bound.len() > 0 {
        let shorter = bound.drop_last();
        lemma_substitutes(plan, shorter);
        assert(bound[bound.len() - 1] == bound.last());
        assert forall|i: int| 0 <= i < shorter.len() implies shorter[i] == #[trigger] bound[i] by {}
        if forall|i: int|
            0 <= i < bound.len() ==> variable_refusal((#[trigger] bound[i]).0) == None::<
                Seq<char>,
            > {
            assert forall|i: int| 0 <= i < shorter.len() implies variable_refusal(
                (#[trigger] shorter[i]).0,
            ) == None::<Seq<char>> by {
                assert(shorter[i] == bound[i]);
            }
        }
    }
}

/// Whether a request may read what it asks for: on a scoped resource an IRI and the grant for it.
pub open spec fn may_read(endpoint: QueryEndpoint, inv: InvocationModel, graph: Seq<char>) -> bool {
    endpoint.scoped ==> iri_refusal(graph) == None::<Seq<char>> && grants(
        inv.capability,
        "urn:cap:store:read:graph:"@ + graph,
    )
}

/// A request that is not evaluated is refused for its first fault: a graph that is none or may not
/// be read, values that cannot be bound, a text that is no query, a query with a dataset of its
/// own, each told in words that repeat what was wrong.
pub proof fn a_query_is_refused_for_its_fault(
    endpoint: QueryEndpoint,
    inv: InvocationModel,
    query: Seq<char>,
    graph: Seq<char>,
    bound: Seq<(Seq<char>, TermModel)>,
)
    requires
        inv.verb == Verb::Source,
        inv.text("query"@) == Ok::<Seq<char>, ErrorModel>(query),
        endpoint.scoped ==> inv.text("graph"@) == Ok::<Seq<char>, ErrorModel>(graph),
    ensures
        endpoint.scoped ==> (iri_refusal(graph) matches Some(reason) ==> endpoint.planned(inv)
            == Err::<(QueryPlan, Seq<(Seq<char>, TermModel)>), ErrorModel>(
            ErrorModel::InvalidArgument {
                name: "graph"@,
                detail: "`"@ + graph + "` is not an IRI: "@ + reason,
            },
        )),
        endpoint.scoped && iri_refusal(graph) == None::<Seq<char>> && !grants(
            inv.capability,
            "urn:cap:store:read:graph:"@ + graph,
        ) ==> {
            &&& endpoint.planned(inv) matches Err(ErrorModel::Denied(text))
            &&& occurs_in(graph, text)
            &&& occurs_in("urn:cap:store:read:graph:"@ + graph, text)
        },
        may_read(endpoint, inv, graph) ==> (inv.optional_text("bindings"@) matches Err(e)
            ==> endpoint.planned(inv) == Err::<
            (QueryPlan, Seq<(Seq<char>, TermModel)>),
            ErrorModel,
        >(e)),
        may_read(endpoint, inv, graph) ==> (inv.optional_text("bindings"@) matches Ok(Some(json))
            ==> (bound_by(json_of_text(json)) matches Err(e) ==> endpoint.planned(inv) == Err::<
            (QueryPlan, Seq<(Seq<char>, TermModel)>),
            ErrorModel,
        >(e))),
        may_read(endpoint, inv, graph) && binds_these(inv, bound) ==> (parsed_query(
            query,
        ) matches Err(reason) ==> endpoint.planned(inv) == Err::<
            (QueryPlan, Seq<(Seq<char>, TermModel)>),
            ErrorModel,
        >(
            ErrorModel::InvalidArgument {
                name: "query"@,
                detail: "not a SPARQL query: "@ + reason,
            },
        )),
        endpoint.scoped && may_read(endpoint, inv, graph) && binds_these(inv, bound)
            ==> (parsed_query(query) matches Ok(own) ==> !own.is_default() ==> {
            &&& endpoint.planned(inv) matches Err(ErrorModel::InvalidArgument { name, detail })
            &&& name == "query"@
            &&& occurs_in(graph, detail)
        }),
{
    if binds_these(inv, bound) {
        assert(inv.optional_text("bindings"@) == Ok::<Option<Seq<char>>, ErrorModel>(None)
            ==> bound =~= Seq::empty());
    }
    if endpoint.scoped {
        let denied = endpoint.read_denied(graph)->Denied_0;
        let first = "reading graph <"@.len() as int;
        assert(denied.subrange(first, first + graph.len()) =~= graph);
        let scope = "urn:cap:store:read:graph:"@ + graph;
        let at = first + graph.len() + "> through `"@.len() + endpoint.spec_iri().len()
            + "` needs the grant `"@.len();
        assert(denied.subrange(at, at + scope.len()) =~= scope);
        let own = own_dataset_error(endpoint.form, graph)->detail;
        let place =
            "this query carries its own `FROM` / `FROM NAMED` clauses, and `urn:iki:store:graph-"@.len()
            + endpoint.form.spec_suffix().len()
            + "` already fixes the dataset: `graph=` IS the dataset, exactly `FROM <"@.len();
        assert(own.subrange(place as int, place as int + graph.len()) =~= graph);
    }
}

/// A bound name that is not the name of a variable is refused, the first of them in words that
/// repeat it and the reason, whatever else is bound.
pub proof fn the_first_bad_variable_decides(
    plan: QueryPlan,
    bound: Seq<(Seq<char>, TermModel)>,
    i: int,
    reason: Seq<char>,
)
    requires
        0 <= i < bound.len(),
        variable_refusal(bound[i].0) == Some(reason),
        forall|j: int|
            0 <= j < i ==> variable_refusal((#[trigger] bound[j]).0) == None::<Seq<char>>,
    ensures
        substituted(plan, bound) == Err::<QueryPlan, ErrorModel>(
            ErrorModel::InvalidArgument {
                name: "bindings"@,
                detail: "`"@ + bound[i].0 + "` is not a variable name: "@ + reason,
            },
        ),
    decreases bound.len(),
{
    let shorter = bound.drop_last();
    assert(bound.last() == bound[bound.len() - 1]);
    if i == bound.len() - 1 {
        lemma_substitutes_all(plan, shorter);
    } else {
        assert(shorter[i] == bound[i]);
        the_first_bad_variable_decides(plan, shorter, i, reason);
    }
}

/// Values that all stand for variables are all bound.
proof fn lemma_substitutes_all(plan: QueryPlan, bound: Seq<(Seq<char>, TermModel)>)
    requires
        forall|j: int|
            0 <= j < bound.len() ==> variable_refusal((#[trigger] bound[j]).0) == None::<
                Seq<char>,
            >,
    ensures
        substituted(plan, bound) is Ok,
    decreases bound.len(),
{
    if bound.len() > 0 {
        let shorter = bound.drop_last();
        assert forall|j: int| 0 <= j < shorter.len() implies variable_refusal(
            (#[trigger] shorter[j]).0,
        ) == None::<Seq<char>> by {
            assert(shorter[j] == bound[j]);
        }
        lemma_substitutes_all(plan, shorter);
        assert(bound.last() == bound[bound.len() - 1]);
    }
}

/// A query is answered with what the evaluator made of it over what a reader finds in the store, in
/// the output that the `as` argument asks for; and one that is refused is answered with the
/// refusal.
pub proof fn a_query_is_answered_over_the_store(
    endpoint: QueryEndpoint,
    inv: InvocationModel,
    store: DurableStore,
    r: Result<ReprModel, ErrorModel>,
)
    requires
        endpoint.served(inv, store, r),
    ensures
        endpoint.planned(inv) matches Err(e) ==> r == Err::<ReprModel, ErrorModel>(e),
        endpoint.planned(inv) matches Ok((plan, bound)) ==> match inv.optional_text("as"@) {
            Err(e) => r == Err::<ReprModel, ErrorModel>(e),
            Ok(as_type) => exists|
                contents: DatasetModel,
                answer: Result<AnswerModel, Seq<char>>,
            |
                {
                    &&& #[trigger] query_may_answer(plan, contents.visible(plan.dataset), answer)
                    &&& store.may_hold(contents)
                    &&& store.covered() ==> contents == store.contents()
                    &&& r == endpoint.answered(answer, bound, as_type, store.covered())
                },
        },
{
    if let Ok((plan, bound)) = endpoint.planned(inv) {
        if let Ok(as_type) = inv.optional_text("as"@) {
            let answer = choose|answer: Result<AnswerModel, Seq<char>>| #[trigger]
                store.spec_dataset().may_answer(plan, answer) && r == endpoint.answered(
                    answer,
                    bound,
                    as_type,
                    store.covered(),
                );
            let contents = choose|contents: DatasetModel| #[trigger]
                store.spec_dataset().may_hold(contents) && query_may_answer(
                    plan,
                    contents.visible(plan.dataset),
                    answer,
                );
            assert(query_may_answer(plan, contents.visible(plan.dataset), answer));
        }
    }
}

/// A query without dataset clauses sees everything, and one with them sees the quads of the graphs
/// they list and no others. Where no default graph is listed, it is all of them together; where no
/// named ones are, they are all there.
pub proof fn a_query_sees_the_graphs_of_its_dataset(
    contents: DatasetModel,
    default: Seq<GraphModel>,
    named: Seq<GraphModel>,
)
    ensures
        forall|q: QuadModel| #[trigger]
            contents.visible(
                DatasetSpec { default: Some(default), named: None },
            ).quads.contains(q) <==> contents.quads.contains(q) && (default.contains(q.graph)
                || q.graph != GraphModel::Default),
        contents.visible(DatasetSpec { default: None, named: Some(named) }).quads
            == contents.quads,
        contents.visible(
            DatasetSpec { default: Some(seq![GraphModel::Default]), named: None },
        ) == contents,
        forall|q: QuadModel| #[trigger]
            contents.visible(
                DatasetSpec { default: Some(default), named: Some(named) },
            ).quads.contains(q) <==> contents.quads.contains(q) && (default.contains(q.graph)
                || named.contains(q.graph)),
        forall|g: GraphModel| #[trigger]
            contents.visible(
                DatasetSpec { default: Some(default), named: Some(named) },
            ).graphs.contains(g) <==> contents.graphs.contains(g) && named.contains(g),
{
    let all = contents.visible(
        DatasetSpec { default: Some(seq![GraphModel::Default]), named: None },
    );
    let merged = contents.visible(DatasetSpec { default: None, named: Some(named) });
    assert(merged.quads =~= contents.quads);
    assert(seq![GraphModel::Default][0] == GraphModel::Default);
    assert(seq![GraphModel::Default].contains(GraphModel::Default));
    assert(all.quads =~= contents.quads);
    assert(all.graphs =~= contents.graphs);
}

// ------------------------------------------------------------------- what a write does

/// A text as it is answered: plain, in UTF-8, and never kept.
pub open spec fn says(rep: ReprModel, text: Seq<char>) -> bool {
    &&& rep.media_type == "text/plain"@
    &&& rep.charset == "utf-8"@
    &&& rep.bytes == encode_utf8(text)
    &&& !rep.cacheable
    &&& rep.threads.len() == 0
}

/// An update that went through the open door is answered with how many quads the store held before
/// and how many it holds now, and the store has become what the update makes of it.
pub proof fn an_update_is_done_and_told(
    inv: InvocationModel,
    old_store: DurableStore,
    new_store: DurableStore,
    rep: ReprModel,
)
    requires
        UpdateEndpoint.served(inv, old_store, new_store, Ok(rep)),
        old_store.covered(),
    ensures
        inv.verb == Verb::Sink,
        inv.text("content"@) matches Ok(update) && update_may_give(
            update,
            old_store.contents(),
            new_store.contents(),
        ),
        says(
            rep,
            "updated: "@ + nat_text(old_store.contents().quads.len()) + " -> "@ + nat_text(
                new_store.contents().quads.len(),
            ) + " quads\n"@,
        ),
{
}

/// A load that succeeded is answered with how many quads the store held before and how many it
/// holds now, under the media type it was read in.
pub proof fn a_load_is_told(
    inv: InvocationModel,
    old_store: DurableStore,
    new_store: DurableStore,
    rep: ReprModel,
    media: Seq<char>,
)
    requires
        LoadEndpoint.served(inv, old_store, new_store, Ok(rep)),
        old_store.covered(),
        inv.optional_text("format"@) == Ok::<Option<Seq<char>>, ErrorModel>(Some(media)) || media
            == "text/turtle"@ && inv.optional_text("format"@) == Ok::<
            Option<Seq<char>>,
            ErrorModel,
        >(None),
    ensures
        says(
            rep,
            "loaded "@ + media + ": "@ + nat_text(old_store.contents().quads.len()) + " -> "@
                + nat_text(new_store.contents().quads.len()) + " quads\n"@,
        ),
{
}

/// An update that went through the scoped door was run on the quads of its graph, and on nothing
/// else. What it left of them is what the store holds of the graph now, quad by quad; every other
/// quad and every other graph is as it was; and the answer counts the quads that came and those
/// that went.
pub proof fn a_scoped_update_is_done_and_told(
    inv: InvocationModel,
    old_store: DurableStore,
    new_store: DurableStore,
    rep: ReprModel,
    graph: Seq<char>,
    update: Seq<char>,
)
    requires
        GraphUpdateEndpoint.served(inv, old_store, new_store, Ok(rep)),
        old_store.covered(),
        inv.text("graph"@) == Ok::<Seq<char>, ErrorModel>(graph),
        inv.text("content"@) == Ok::<Seq<char>, ErrorModel>(update),
    ensures
        inv.verb == Verb::Sink,
        grants(inv.capability, "urn:cap:store:write:graph:"@ + graph),
        exists|before: DatasetModel, after: DatasetModel| #[trigger]
            update_may_give(update, before, after) && {
                let name = GraphModel::Iri(graph);
                let old_quads = old_store.contents().quads;
                let new_quads = new_store.contents().quads;
                &&& forall|q: QuadModel| #[trigger]
                    before.quads.contains(q) <==> old_quads.contains(q) && q.graph == name
                &&& forall|g: GraphModel| #[trigger]
                    before.graphs.contains(g) <==> old_store.contents().graphs.contains(g) && g
                        == name
                &&& forall|q: QuadModel| #[trigger]
                    new_quads.contains(q) <==> if q.graph == name {
                        after.quads.contains(q)
                    } else {
                        old_quads.contains(q)
                    }
                &&& forall|q: QuadModel| #[trigger] after.quads.contains(q) ==> q.graph == name
                &&& forall|g: GraphModel| #[trigger]
                    new_store.contents().graphs.contains(g) <==> if g == name {
                        after.graphs.contains(g)
                    } else {
                        old_store.contents().graphs.contains(g)
                    }
                &&& forall|g: GraphModel| #[trigger] after.graphs.contains(g) ==> g == name
                &&& says(
                    rep,
                    "updated <"@ + graph + ">: +"@ + nat_text(
                        after.quads.difference(before.quads).len(),
                    ) + " -"@ + nat_text(before.quads.difference(after.quads).len())
                        + " quads\n"@,
                )
            },
{
    let one = old_store.spec_dataset();
    let two = new_store.spec_dataset();
    let (added, removed) = choose|added: nat, removed: nat| #[trigger]
        scoped_success(graph, update, one, two, added, removed) && rep
            == plain_model(
            graph_updated_text(graph, added, removed),
        );
    let (before, after) = choose|before: DatasetModel, after: DatasetModel|
        {
            &&& #[trigger] scoped_effect(graph, update, one, before, after)
            &&& written(graph, before, after, one, two)
            &&& added == after.quads.difference(before.quads).len()
            &&& removed == before.quads.difference(after.quads).len()
        };
    let name = GraphModel::Iri(graph);
    assert(before.quads == old_store.contents().only(name).quads);
    assert(before.graphs == old_store.contents().only(name).graphs);
    assert(update_may_give(update, before, after));
}

/// On every store, one that others write to among them, a scoped update that succeeded committed
/// one transaction: it takes out the quads that went, puts in those that came, and leaves the
/// other quads of the graph as it found them unless the graph itself went.
pub proof fn a_scoped_update_writes_its_difference(
    inv: InvocationModel,
    old_store: DurableStore,
    new_store: DurableStore,
    rep: ReprModel,
    graph: Seq<char>,
    update: Seq<char>,
)
    requires
        GraphUpdateEndpoint.served(inv, old_store, new_store, Ok(rep)),
        inv.text("graph"@) == Ok::<Seq<char>, ErrorModel>(graph),
        inv.text("content"@) == Ok::<Seq<char>, ErrorModel>(update),
    ensures
        new_store.changes().len() == old_store.changes().len() + 1,
        new_store.changes().drop_last() == old_store.changes(),
        exists|before: DatasetModel, after: DatasetModel| #[trigger]
            update_may_give(update, before, after) && {
                let change = new_store.changes().last();
                &&& exists|held: DatasetModel| #[trigger]
                    old_store.may_hold(held) && forall|q: QuadModel| #[trigger]
                        before.quads.contains(q) <==> held.quads.contains(q) && q.graph
                            == GraphModel::Iri(graph)
                &&& forall|q: QuadModel|
                    before.quads.contains(q) && !after.quads.contains(q)
                        ==> !#[trigger] change.left.quads.contains(q)
                &&& forall|q: QuadModel|
                    after.quads.contains(q) && !before.quads.contains(q) && after.graphs.contains(
                        GraphModel::Iri(graph),
                    ) ==> #[trigger] change.left.quads.contains(q)
                &&& forall|q: QuadModel|
                    before.quads.contains(q) == after.quads.contains(q) && (q.graph
                        != GraphModel::Iri(graph) || after.graphs.contains(GraphModel::Iri(graph)))
                        ==> #[trigger] change.left.quads.contains(q)
                        == change.found.quads.contains(q)
            },
{
    let one = old_store.spec_dataset();
    let two = new_store.spec_dataset();
    let name = GraphModel::Iri(graph);
    let (added, removed) = choose|added: nat, removed: nat| #[trigger]
        scoped_success(graph, update, one, two, added, removed) && rep
            == plain_model(
            graph_updated_text(graph, added, removed),
        );
    let (before, after) = choose|before: DatasetModel, after: DatasetModel|
        {
            &&& #[trigger] scoped_effect(graph, update, one, before, after)
            &&& written(graph, before, after, one, two)
            &&& added == after.quads.difference(before.quads).len()
            &&& removed == before.quads.difference(after.quads).len()
        };
    let out = before.quads.difference(after.quads);
    let come = after.quads.difference(before.quads);
    let known = choose|known: bool|
        two.edited_since(
            one,
            out,
            come,
            name,
            #[trigger] settled(known, after.graphs.contains(name)),
        );
    let change = choose|change: Change| #[trigger]
        two.changed_since(one, change) && change.left == change.found.edited(
            out,
            come,
            name,
            settled(known, after.graphs.contains(name)),
        );
    assert(two.changed_since(one, change));
    assert(new_store.changes().drop_last() =~= old_store.changes());
    assert(new_store.changes().last() == change);
    let (known_part, held_part) = choose|known_part: DatasetModel, held_part: DatasetModel|
        {
            &&& #[trigger] may_find(one, name, known_part)
            &&& #[trigger] may_find(one, name, held_part)
            &&& before.quads == held_part.quads
            &&& before.graphs == held_part.graphs || before.graphs == known_part.graphs
        };
    let held = choose|held: DatasetModel| #[trigger]
        one.may_hold(held) && held_part == held.only(name);
    assert(old_store.may_hold(held));
    assert(update_may_give(update, before, after));
}

/// A quad that is put into a dataset is there, beside what was there, and its graph is known where
/// it has a name.
pub proof fn a_quad_is_put_in(contents: DatasetModel, quad: QuadModel)
    ensures
        forall|q: QuadModel| #[trigger]
            contents.with_quad(quad).quads.contains(q) <==> contents.quads.contains(q) || q == quad,
        forall|g: GraphModel| #[trigger]
            contents.with_quad(quad).graphs.contains(g) <==> contents.graphs.contains(g) || g
                == quad.graph && g != GraphModel::Default,
{
}

/// A registration follows the update: settling it on a dataset that knew the graph or not leaves
/// the graph known if and only if the update left it known.
pub proof fn a_registration_follows_the_update(
    found: DatasetModel,
    graph: GraphModel,
    removed: Set<QuadModel>,
    added: Set<QuadModel>,
    left_known: bool,
)
    requires
        !left_known ==> added.is_empty(),
    ensures
        found.edited(
            removed,
            added,
            graph,
            settled(found.graphs.contains(graph), left_known),
        ).graphs.contains(graph) == left_known,
{
}

/// What `urn:iki:store:info` answers: where the bytes live, how many quads a reader finds, and
/// whether every write is seen; and it may be kept if and only if every write is.
pub proof fn a_store_is_told_of(inv: InvocationModel, store: DurableStore, rep: ReprModel)
    requires
        InfoEndpoint.served(inv, store, Ok(rep)),
    ensures
        inv.verb == Verb::Source,
        rep.media_type == "text/plain"@,
        rep.charset == "utf-8"@,
        rep.cacheable == store.covered(),
        exists|contents: DatasetModel| #[trigger]
            store.may_hold(contents) && rep.bytes == encode_utf8(
                "backing: "@ + match store.spec_backing() {
                    BackingModel::Memory => "memory"@,
                    BackingModel::Durable(path) => "durable "@ + path,
                } + "\nquads: "@ + nat_text(contents.quads.len()) + "\ncovered: "@ + (
                if store.covered() {
                    "true"@
                } else {
                    "false"@
                }) + "\n"@,
            ),
{
    let contents = choose|contents: DatasetModel| #[trigger]
        store.may_hold(contents) && crate::write::is_info(
            rep,
            store.spec_backing(),
            contents.quads.len(),
            store.covered(),
        );
    assert(store.may_hold(contents));
}

// ------------------------------------------------------------------- what is refused

/// The name of a verb, as a refusal has it.
pub open spec fn verb_word(verb: Verb) -> Seq<char> {
    match verb {
        Verb::Source => "Source"@,
        Verb::Sink => "Sink"@,
        Verb::Exists => "Exists"@,
        Verb::Delete => "Delete"@,
        Verb::Meta => "Meta"@,
    }
}

/// A resource that is read answers `Source` and one that is written to `Sink`. Any other verb is
/// refused under the resource's id and the verb's name, and leaves the store as it is.
pub proof fn a_verb_that_is_not_offered_is_refused(
    endpoint: Endpoint,
    inv: InvocationModel,
    old_store: DurableStore,
    new_store: DurableStore,
    r: Result<ReprModel, ErrorModel>,
)
    requires
        endpoint.served(inv, old_store, new_store, r),
        inv.verb != if endpoint is Query || endpoint is Info {
            Verb::Source
        } else {
            Verb::Sink
        },
    ensures
        r == Err::<ReprModel, ErrorModel>(
            ErrorModel::Endpoint(
                endpoint.description().id + " does not support the "@ + verb_word(inv.verb)
                    + " verb"@,
            ),
        ),
        new_store == old_store,
{
}

/// A request without one of the arguments that a resource says must be given is refused, and leaves
/// the store as it is.
pub proof fn a_required_argument_is_required(
    endpoint: Endpoint,
    inv: InvocationModel,
    old_store: DurableStore,
    new_store: DurableStore,
    r: Result<ReprModel, ErrorModel>,
    i: int,
)
    requires
        endpoint.served(inv, old_store, new_store, r),
        0 <= i < endpoint.description().inputs.len(),
        endpoint.description().inputs[i].required,
        !inv.has(endpoint.description().inputs[i].name),
    ensures
        r is Err,
        new_store == old_store,
{
    let inputs = endpoint.description().inputs;
    if let Endpoint::Query(query) = endpoint {
        if query.scoped {
            assert(inputs[0].name == "graph"@);
            assert(inputs[1].name == "query"@);
            assert(i == 0 || i == 1);
        } else {
            assert(inputs[0].name == "query"@);
            assert(i == 0);
        }
    }
}

/// An argument that cannot be read, because it is missing, not given by value or no text, is refused
/// as such: the first in the order in which a resource reads them.
pub proof fn an_argument_that_cannot_be_read_is_refused(
    query: QueryEndpoint,
    inv: InvocationModel,
    e: ErrorModel,
)
    ensures
        inv.verb == Verb::Source && inv.text("query"@) == Err::<Seq<char>, ErrorModel>(e)
            ==> query.planned(inv) == Err::<
            (QueryPlan, Seq<(Seq<char>, TermModel)>),
            ErrorModel,
        >(e),
        inv.verb == Verb::Source && inv.text("query"@) is Ok && query.scoped && inv.text("graph"@)
            == Err::<Seq<char>, ErrorModel>(e) ==> query.planned(inv) == Err::<
            (QueryPlan, Seq<(Seq<char>, TermModel)>),
            ErrorModel,
        >(e),
        inv.verb == Verb::Sink && inv.text("content"@) == Err::<Seq<char>, ErrorModel>(e) ==> {
            &&& UpdateEndpoint.requested(inv) == Err::<Seq<char>, ErrorModel>(e)
            &&& GraphUpdateEndpoint.requested(inv) == Err::<(Seq<char>, Seq<char>), ErrorModel>(e)
        },
        inv.verb == Verb::Sink && inv.text("content"@) is Ok && !inv.has("bindings"@) && inv.text(
            "graph"@,
        ) == Err::<Seq<char>, ErrorModel>(e) ==> GraphUpdateEndpoint.requested(inv) == Err::<
            (Seq<char>, Seq<char>),
            ErrorModel,
        >(e),
        inv.verb == Verb::Sink && inv.bytes("content"@) == Err::<Seq<u8>, ErrorModel>(e)
            ==> LoadEndpoint.requested(inv) == Err::<LoadPlan, ErrorModel>(e),
        inv.verb == Verb::Sink && inv.bytes("content"@) is Ok && inv.optional_text("format"@)
            == Err::<Option<Seq<char>>, ErrorModel>(e) ==> LoadEndpoint.requested(inv) == Err::<
            LoadPlan,
            ErrorModel,
        >(e),
        inv.verb == Verb::Sink && inv.bytes("content"@) is Ok && inv.optional_text("format"@)
            == Ok::<Option<Seq<char>>, ErrorModel>(None) && inv.optional_text("graph"@) == Err::<
            Option<Seq<char>>,
            ErrorModel,
        >(e) ==> LoadEndpoint.requested(inv) == Err::<LoadPlan, ErrorModel>(e),
{
    assert(crate::text::texts(crate::write::LOAD_FORMATS@)[0] == "text/turtle"@);
}

/// A resource answers as its kind does, on the store it is asked of, and one that is read leaves the
/// store as it is.
pub proof fn a_resource_answers_as_its_kind(
    endpoint: Endpoint,
    inv: InvocationModel,
    old_store: DurableStore,
    new_store: DurableStore,
    r: Result<ReprModel, ErrorModel>,
)
    requires
        endpoint.served(inv, old_store, new_store, r),
    ensures
        match endpoint {
            Endpoint::Query(query) => query.served(inv, old_store, r) && new_store == old_store,
            Endpoint::Info(_) => InfoEndpoint.served(inv, old_store, r) && new_store == old_store,
            Endpoint::Update(_) => UpdateEndpoint.served(inv, old_store, new_store, r),
            Endpoint::GraphUpdate(_) => GraphUpdateEndpoint.served(inv, old_store, new_store, r),
            Endpoint::Load(_) => LoadEndpoint.served(inv, old_store, new_store, r),
        },
        r is Err && old_store.covered() && old_store.kept_in_memory() ==> new_store.contents()
            == old_store.contents(),
{
}

/// A write that carries `bindings` is refused for them, whatever they are, and leaves the store as
/// it is.
pub proof fn a_write_takes_no_bindings(inv: InvocationModel)
    requires
        inv.verb == Verb::Sink,
        inv.text("content"@) is Ok,
        inv.has("bindings"@),
    ensures
        UpdateEndpoint.requested(inv) matches Err(ErrorModel::InvalidArgument { name, detail })
            && name == "bindings"@ && occurs_in("urn:iki:store:update"@, detail),
        GraphUpdateEndpoint.requested(inv) matches Err(ErrorModel::InvalidArgument { name, detail })
            && name == "bindings"@ && occurs_in("urn:iki:store:graph-update"@, detail),
{
    let first = "`"@.len() as int;
    let open = UpdateEndpoint.requested(inv)->Err_0->detail;
    let scoped = GraphUpdateEndpoint.requested(inv)->Err_0->detail;
    let one = "urn:iki:store:update"@;
    let two = "urn:iki:store:graph-update"@;
    assert(open.subrange(first, first + one.len()) =~= one);
    assert(scoped.subrange(first, first + two.len()) =~= two);
}

/// A scoped write to a graph that the capability may not write is denied in words that name the
/// graph and the grant that is missing, and one to a graph that is no IRI is refused in words that
/// repeat it.
pub proof fn a_scoped_write_is_refused_for_its_graph(inv: InvocationModel, graph: Seq<char>)
    requires
        inv.verb == Verb::Sink,
        inv.text("content"@) is Ok,
        !inv.has("bindings"@),
        inv.text("graph"@) == Ok::<Seq<char>, ErrorModel>(graph),
    ensures
        iri_refusal(graph) matches Some(reason) ==> GraphUpdateEndpoint.requested(inv) == Err::<
            (Seq<char>, Seq<char>),
            ErrorModel,
        >(
            ErrorModel::InvalidArgument {
                name: "graph"@,
                detail: "`"@ + graph + "` is not an IRI: "@ + reason,
            },
        ),
        iri_refusal(graph) is None && !grants(
            inv.capability,
            "urn:cap:store:write:graph:"@ + graph,
        ) ==> {
            &&& GraphUpdateEndpoint.requested(inv) matches Err(ErrorModel::Denied(text))
            &&& occurs_in("<"@ + graph + ">"@, text)
            &&& occurs_in("`urn:cap:store:write:graph:"@ + graph + "`"@, text)
        },
{
    if iri_refusal(graph) is None && !grants(
        inv.capability,
        "urn:cap:store:write:graph:"@ + graph,
    ) {
        let text = GraphUpdateEndpoint.requested(inv)->Err_0->Denied_0;
        reveal_strlit("writing graph <");
        reveal_strlit("<");
        reveal_strlit(">");
        reveal_strlit("`");
        reveal_strlit("> through `urn:iki:store:graph-update` needs the grant `");
        reveal_strlit("`urn:cap:store:write:graph:");
        reveal_strlit("urn:cap:store:write:graph:");
        reveal_strlit(
            "`, which this capability does not hold. A grant names exactly one graph; holding `urn:cap:store:write` does not imply it, and is instead the authority for `urn:iki:store:update` over the whole dataset",
        );
        let named = "<"@ + graph + ">"@;
        assert(text.subrange(14, 14int + named.len()) =~= named);
        let grant = "`urn:cap:store:write:graph:"@ + graph + "`"@;
        let at = 15 + graph.len()
            + "> through `urn:iki:store:graph-update` needs the grant `"@.len() - 1;
        assert(text.subrange(at, at + grant.len()) =~= grant);
    }
}

/// An update that is refused in memory is refused in the evaluator's own words: as no update at
/// all where its text is none, and else for what happened on what the store held. Nothing was
/// done.
pub proof fn a_failed_update_is_told_in_its_own_words(
    inv: InvocationModel,
    old_store: DurableStore,
    new_store: DurableStore,
    e: ErrorModel,
    update: Seq<char>,
)
    requires
        UpdateEndpoint.served(inv, old_store, new_store, Err(e)),
        old_store.kept_in_memory(),
        inv.verb == Verb::Sink,
        !inv.has("bindings"@),
        inv.text("content"@) == Ok::<Seq<char>, ErrorModel>(update),
    ensures
        new_store.untouched_since(old_store),
        update_refused(update) ==> exists|reason: Seq<char>| #[trigger]
            update_may_be_refused(update, reason) && e == (ErrorModel::InvalidArgument {
                name: "content"@,
                detail: "not a SPARQL update: "@ + reason,
            }),
        !update_refused(update) ==> exists|found: DatasetModel, reason: Seq<char>| #[trigger]
            update_may_fail(update, found, reason) && old_store.may_hold(found) && e
                == ErrorModel::Endpoint("update: "@ + reason),
{
    if update_refused(update) {
        let reason = choose|reason: Seq<char>| #[trigger]
            update_may_be_refused(update, reason) && e == crate::confine::not_an_update(reason);
        assert(update_may_be_refused(update, reason));
    } else {
        let (found, reason) = choose|found: DatasetModel, reason: Seq<char>|
            {
                &&& #[trigger] update_may_fail(update, found, reason)
                &&& e == crate::confine::update_failed(reason)
                &&& old_store.may_hold(found)
            };
        assert(update_may_fail(update, found, reason));
    }
}

/// A document that is refused in memory is refused in the reader's own words, behind the media type
/// it was read in. Nothing was done.
pub proof fn a_failed_load_is_told_in_its_own_words(
    inv: InvocationModel,
    old_store: DurableStore,
    new_store: DurableStore,
    e: ErrorModel,
)
    requires
        LoadEndpoint.served(inv, old_store, new_store, Err(e)),
        old_store.kept_in_memory(),
    ensures
        new_store.untouched_since(old_store),
        LoadEndpoint.requested(inv) matches Ok(plan) ==> exists|reason: Seq<char>| #[trigger]
            document_may_be_refused(plan.format, plan.graph, plan.bytes, reason) && e == (
            ErrorModel::InvalidArgument {
                name: "content"@,
                detail: "parsing "@ + plan.media + ": "@ + reason,
            }),
{
    if let Ok(plan) = LoadEndpoint.requested(inv) {
        let reason = choose|reason: Seq<char>| #[trigger]
            document_may_be_refused(plan.format, plan.graph, plan.bytes, reason) && e
                == crate::write::load_failed(plan.media, reason);
        assert(document_may_be_refused(plan.format, plan.graph, plan.bytes, reason));
    }
}

/// A scoped update that fails in memory did nothing, and the refusal is the evaluator's own or
/// names what would have landed outside the graph: a quad by its three terms and its place, or a
/// graph by its name.
pub proof fn a_failed_scoped_update_is_told_in_its_own_words(
    inv: InvocationModel,
    old_store: DurableStore,
    new_store: DurableStore,
    e: ErrorModel,
    graph: Seq<char>,
    update: Seq<char>,
)
    requires
        GraphUpdateEndpoint.served(inv, old_store, new_store, Err(e)),
        old_store.kept_in_memory(),
        GraphUpdateEndpoint.requested(inv) == Ok::<(Seq<char>, Seq<char>), ErrorModel>(
            (graph, update),
        ),
    ensures
        new_store.untouched_since(old_store),
        update_refused(update) ==> exists|reason: Seq<char>| #[trigger]
            update_may_be_refused(update, reason) && e == (ErrorModel::InvalidArgument {
                name: "content"@,
                detail: "not a SPARQL update: "@ + reason,
            }),
        !update_refused(update) ==> {
            ||| exists|before: DatasetModel, reason: Seq<char>| #[trigger]
                update_may_fail(update, before, reason) && e == ErrorModel::Endpoint(
                    "update: "@ + reason,
                )
            ||| exists|before: DatasetModel, after: DatasetModel| #[trigger]
                update_may_give(update, before, after) && {
                    ||| exists|q: QuadModel| #[trigger]
                        after.quads.contains(q) && q.graph != GraphModel::Iri(graph) && e
                            == escaped_quad_error(graph, q)
                    ||| {
                        &&& forall|q: QuadModel| #[trigger]
                            after.quads.contains(q) ==> q.graph == GraphModel::Iri(graph)
                        &&& exists|g: GraphModel| #[trigger]
                            after.graphs.contains(g) && g != GraphModel::Iri(graph) && e
                                == escaped_graph_error(graph, g)
                    }
                }
        },
{
    let name = GraphModel::Iri(graph);
    let before = choose|before: DatasetModel|
        {
            &&& #[trigger] before.within(name)
            &&& crate::confine::may_show(old_store.spec_dataset(), name, before)
            &&& crate::confine::scoped_refusal(graph, update, before, e)
        };
    assert(crate::confine::scoped_refusal(graph, update, before, e));
    if update_refused(update) {
        let reason = choose|reason: Seq<char>| #[trigger]
            update_may_be_refused(update, reason) && e == crate::confine::not_an_update(reason);
        assert(update_may_be_refused(update, reason));
    } else if exists|reason: Seq<char>| #[trigger]
        update_may_fail(update, before, reason) && e == crate::confine::update_failed(reason) {
        let reason = choose|reason: Seq<char>| #[trigger]
            update_may_fail(update, before, reason) && e == crate::confine::update_failed(reason);
        assert(update_may_fail(update, before, reason));
    } else {
        let after = choose|after: DatasetModel| #[trigger]
            update_may_give(update, before, after) && crate::confine::escape_refused(
                graph,
                after,
                e,
            );
        assert(update_may_give(update, before, after));
    }
}

/// What landed outside its graph is told by name: the graph that was granted, where the quad would
/// have gone, and the quad term by term.
pub proof fn an_escape_is_told_by_name(graph: Seq<char>, quad: QuadModel, created: GraphModel)
    ensures
        escaped_quad_error(graph, quad) matches ErrorModel::Denied(text) && {
            &&& occurs_in(graph, text)
            &&& occurs_in(quad.subject + " "@ + quad.predicate + " "@ + quad.object, text)
            &&& match quad.graph {
                GraphModel::Default => occurs_in("DEFAULT graph"@, text),
                GraphModel::Iri(iri) => occurs_in("<"@ + iri + ">"@, text),
                GraphModel::Blank(label) => occurs_in("_:"@ + label, text),
            }
        },
        escaped_graph_error(graph, created) matches ErrorModel::Denied(text) && {
            &&& occurs_in(graph, text)
            &&& match created {
                GraphModel::Default => occurs_in("DEFAULT"@, text),
                GraphModel::Iri(iri) => occurs_in("<"@ + iri + ">"@, text),
                GraphModel::Blank(label) => occurs_in("_:"@ + label, text),
            }
        },
{
    let text = escaped_quad_error(graph, quad)->Denied_0;
    let first = "this write is scoped to graph <"@;
    let second = "> and the update would have written "@;
    let place = crate::confine::place_text(quad.graph);
    let terms = quad.subject + " "@ + quad.predicate + " "@ + quad.object;
    let f = first.len() as int;
    assert(text.subrange(f, f + graph.len()) =~= graph);
    let p = f + graph.len() + second.len();
    assert(text.subrange(p, p + place.len()) =~= place);
    let t = p + place.len() + " (`"@.len();
    assert(text.subrange(t, t + terms.len()) =~= terms);
    reveal_strlit("the DEFAULT graph");
    reveal_strlit("DEFAULT graph");
    reveal_strlit("graph _:");
    reveal_strlit("_:");
    match quad.graph {
        GraphModel::Default => {
            let word = "DEFAULT graph"@;
            assert(text.subrange(p + 4, p + 4 + word.len()) =~= word) by {
                assert(text.subrange(p + 4, p + 4 + word.len()) =~= place.subrange(
                    4,
                    4int + word.len(),
                ));
            }
        },
        GraphModel::Iri(iri) => {
            reveal_strlit("graph <");
            reveal_strlit("<");
            let word = "<"@ + iri + ">"@;
            assert(text.subrange(p + 6, p + 6 + word.len()) =~= word);
        },
        GraphModel::Blank(label) => {
            let word = "_:"@ + label;
            assert(text.subrange(p + 6, p + 6 + word.len()) =~= word);
        },
    }
    let other = escaped_graph_error(graph, created)->Denied_0;
    let name = crate::confine::graph_syntax(created);
    assert(other.subrange(f, f + graph.len()) =~= graph);
    let n = f + graph.len() + "> and the update created graph "@.len();
    assert(other.subrange(n, n + name.len()) =~= name);
}

// ------------------------------------------------------------------- what is done to a store

/// An answer depends on the resources that write, and on no other thread.
pub proof fn an_answer_depends_on_the_writers_alone(
    endpoint: Endpoint,
    inv: InvocationModel,
    old_store: DurableStore,
    new_store: DurableStore,
    rep: ReprModel,
)
    requires
        endpoint.served(inv, old_store, new_store, Ok(rep)),
    ensures
        forall|i: int|
            0 <= i < rep.threads.len() ==> #[trigger] rep.threads[i] == "urn:iki:store:update"@
                || rep.threads[i] == "urn:iki:store:load"@ || rep.threads[i]
                == "urn:iki:store:graph-update"@,
        rep.threads.len() == if old_store.covered() && (endpoint is Query || endpoint is Info) {
            3nat
        } else {
            0
        },
{
}

/// A store that nothing was done through has seen no further transaction, and where every write is
/// seen it holds what it held. What becomes of a store lies where it lay and is covered as it was.
pub proof fn nothing_done_is_nothing_changed(new_store: DurableStore, old_store: DurableStore)
    ensures
        new_store.untouched_since(old_store) ==> {
            &&& new_store.changes() == old_store.changes()
            &&& old_store.covered() ==> new_store.contents() == old_store.contents()
        },
        new_store.continues(old_store) ==> {
            &&& new_store.covered() == old_store.covered()
            &&& new_store.kept_in_memory() == old_store.kept_in_memory()
            &&& new_store.spec_backing() == old_store.spec_backing()
            &&& !old_store.covered() ==> forall|contents: DatasetModel| #[trigger]
                new_store.may_hold(contents) <==> old_store.may_hold(contents)
        },
        old_store.covered() ==> forall|contents: DatasetModel| #[trigger]
            old_store.may_hold(contents) <==> contents == old_store.contents(),
{
}

/// Whether one more transaction was committed through a store, and this is the one: what it found
/// was there, where that can be told, and what it left is there now, where every write is seen.
pub open spec fn committed(
    new_store: DurableStore,
    old_store: DurableStore,
    found: DatasetModel,
    left: DatasetModel,
) -> bool {
    &&& new_store.changes() == old_store.changes().push(Change { found, left })
    &&& old_store.covered() ==> found == old_store.contents() && left == new_store.contents()
    &&& old_store.kept_in_memory() ==> old_store.may_hold(found)
}

/// On every store, one that others write to among them, an update that succeeded is one transaction
/// that makes of what it found what the update makes of it.
pub proof fn an_update_is_one_transaction(
    inv: InvocationModel,
    old_store: DurableStore,
    new_store: DurableStore,
    rep: ReprModel,
    update: Seq<char>,
)
    requires
        UpdateEndpoint.served(inv, old_store, new_store, Ok(rep)),
        inv.text("content"@) == Ok::<Seq<char>, ErrorModel>(update),
    ensures
        !update_refused(update),
        exists|found: DatasetModel, left: DatasetModel| #[trigger]
            update_may_give(update, found, left) && committed(new_store, old_store, found, left),
{
    let two = new_store.spec_dataset();
    let one = old_store.spec_dataset();
    let change = choose|change: Change| #[trigger]
        two.changed_since(one, change) && update_may_give(update, change.found, change.left);
    assert(update_may_give(update, change.found, change.left));
    assert(committed(new_store, old_store, change.found, change.left));
}

/// Whether reading the document that was sent may give these quads.
pub open spec fn sent(plan: LoadPlan, added: Set<QuadModel>) -> bool {
    document_may_say(plan.format, plan.graph, plan.bytes, added)
}

/// On every store, one that others write to among them, a load that succeeded is one transaction
/// that leaves what it found and puts in what the document says, and nothing else. In a syntax for
/// triples all of it goes into the graph that the `graph` argument names, character by character,
/// and into the default graph where there is none.
pub proof fn a_load_is_one_transaction(
    inv: InvocationModel,
    old_store: DurableStore,
    new_store: DurableStore,
    rep: ReprModel,
    plan: LoadPlan,
)
    requires
        LoadEndpoint.served(inv, old_store, new_store, Ok(rep)),
        LoadEndpoint.requested(inv) == Ok::<LoadPlan, ErrorModel>(plan),
    ensures
        exists|found: DatasetModel, left: DatasetModel, added: Set<QuadModel>|
            #![trigger committed(new_store, old_store, found, left), sent(plan, added)]
            {
                &&& committed(new_store, old_store, found, left)
                &&& sent(plan, added)
                &&& forall|q: QuadModel| #[trigger]
                    left.quads.contains(q) <==> found.quads.contains(q) || added.contains(q)
                &&& plan.media == "text/turtle"@ || plan.media == "application/n-triples"@
                    || plan.media == "application/rdf+xml"@ ==> forall|q: QuadModel|
                    #[trigger] left.quads.contains(q) && !found.quads.contains(q) ==> inv.optional_text(
                        "graph"@,
                    ) == Ok::<Option<Seq<char>>, ErrorModel>(
                        match q.graph {
                            GraphModel::Iri(graph) => Some(graph),
                            _ => None,
                        },
                    ) && !(q.graph is Blank)
            },
{
    let two = new_store.spec_dataset();
    let one = old_store.spec_dataset();
    let change = choose|change: Change| #[trigger]
        two.changed_since(one, change) && crate::dataset::loaded(
            plan.format,
            plan.graph,
            plan.bytes,
            change.found,
            change.left,
        );
    assert(two.changed_since(one, change));
    let added = choose|added: Set<QuadModel>| #[trigger]
        document_may_say(plan.format, plan.graph, plan.bytes, added) && crate::dataset::adds(
            plan.format,
            plan.graph,
            added,
            change.found,
            change.left,
        );
    assert(committed(new_store, old_store, change.found, change.left));
    assert(sent(plan, added));
    if plan.media == "text/turtle"@ || plan.media == "application/n-triples"@ || plan.media
        == "application/rdf+xml"@ {
        a_document_lands_in_the_graph_that_was_named(inv, plan, change.found, change.left);
    }
}

/// A storage that fails is told of in its own words, behind what was being done.
pub proof fn a_failing_storage_is_told_in_its_own_words(reason: Seq<char>)
    ensures
        crate::confine::storage_error(reason) == ErrorModel::Endpoint("store: "@ + reason),
        crate::write::counting_failed(reason) == ErrorModel::Endpoint(
            "counting quads: "@ + reason,
        ),
{
}

} // verus!
