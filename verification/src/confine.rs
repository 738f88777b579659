//! Running an arbitrary SPARQL update with an exact per-graph write scope.
//!
//! The graphs an update touches cannot be read off its text: `DELETE WHERE { GRAPH ?g { … } }`
//! names its graph with a variable, and `INSERT DATA { <s> <p> <o> }` names none at all and
//! writes the default graph. So the scope is enforced on effects:
//!
//! 1. Copy the graph, and nothing else, into a private dataset in memory.
//! 2. Run the update against that.
//! 3. Refuse it if anything landed outside the graph: a quad in another graph or in the
//!    default graph, or a named graph that the update made known.
//! 4. Otherwise apply the difference to the real dataset, in one transaction.
//!
//! The private dataset holds one graph, so the update cannot read another one either.

use crate::dataset::{
    in_stored_form, models, parse_update, picked, statement, stored_form, update_may_be_refused,
    update_may_fail, update_may_give, update_refused, Dataset, DatasetModel, Failure, GraphModel, GraphPlace,
    QuadModel, Registration, Statement,
};
use crate::error::{outcome, Error, ErrorModel};
use crate::term::NamedNode;
use crate::text::same_text;
use oxigraph::model::Quad;
use vstd::prelude::*;

verus! {

/// What a scoped update did to its graph.
pub struct Applied {
    /// How many quads came.
    pub added: usize,
    /// How many quads went.
    pub removed: usize,
}

/// A failure of the store underneath.
pub open spec fn storage_error(reason: Seq<char>) -> ErrorModel {
    ErrorModel::Endpoint("store: "@ + reason)
}

/// Whether an error reports a failure of the store underneath.
pub open spec fn is_storage_error(error: ErrorModel) -> bool {
    exists|reason: Seq<char>| error == #[trigger] storage_error(reason)
}

/// A text that is not a SPARQL update.
pub open spec fn not_an_update(reason: Seq<char>) -> ErrorModel {
    ErrorModel::InvalidArgument {
        name: "content"@,
        detail: "not a SPARQL update: "@ + reason,
    }
}

/// An update that could not be carried out.
pub open spec fn update_failed(reason: Seq<char>) -> ErrorModel {
    ErrorModel::Endpoint("update: "@ + reason)
}

/// Where a quad went, in words.
pub open spec fn place_text(graph: GraphModel) -> Seq<char> {
    match graph {
        GraphModel::Default => "the DEFAULT graph"@,
        GraphModel::Iri(iri) => "graph <"@ + iri + ">"@,
        GraphModel::Blank(label) => "graph _:"@ + label,
    }
}

/// The refusal of an update that wrote a quad outside its graph.
pub open spec fn escaped_quad_error(graph: Seq<char>, quad: QuadModel) -> ErrorModel {
    ErrorModel::Denied(
        "this write is scoped to graph <"@ + graph + "> and the update would have written "@
            + place_text(quad.graph) + " (`"@ + quad.subject + " "@ + quad.predicate + " "@
            + quad.object
            + "`). Nothing was applied. A statement with no `GRAPH` block goes to the default graph, which is not the scoped graph — wrap it in `GRAPH <"@
            + graph
            + "> { … }`, or hold `urn:cap:store:write` and use `urn:iki:store:update`"@,
    )
}

/// The name of a graph as it is written in SPARQL. The default graph has none.
pub open spec fn graph_syntax(graph: GraphModel) -> Seq<char> {
    match graph {
        GraphModel::Default => "DEFAULT"@,
        GraphModel::Iri(iri) => "<"@ + iri + ">"@,
        GraphModel::Blank(label) => "_:"@ + label,
    }
}

/// The refusal of an update that made another graph known.
pub open spec fn escaped_graph_error(graph: Seq<char>, created: GraphModel) -> ErrorModel {
    ErrorModel::Denied(
        "this write is scoped to graph <"@ + graph + "> and the update created graph "@
            + graph_syntax(created)
            + ". Nothing was applied. Creating or dropping another graph needs `urn:cap:store:write`"@,
    )
}

/// Whether a graph is the one named by this IRI.
fn is_graph(place: &GraphPlace, graph: &NamedNode) -> (r: bool)
    ensures
        r == (place@ == GraphModel::Iri(graph@)),
{
    match place {
        GraphPlace::Iri(iri) => same_text(iri.as_str(), graph.as_str()),
        _ => false,
    }
}

/// `Denied` rather than `InvalidArgument`: the update is well-formed, and the caller lacks
/// authority over the graph it reached for.
pub fn escaped_quad(graph: &NamedNode, quad: &Statement) -> (r: Error)
    ensures
        r@ == escaped_quad_error(graph@, quad@),
{
    let mut text = "this write is scoped to graph <".to_owned();
    text.append(graph.as_str());
    text.append("> and the update would have written ");
    let mut place = String::new();
    match &quad.graph {
        GraphPlace::Default => {
            place.append("the DEFAULT graph");
        },
        GraphPlace::Iri(iri) => {
            place.append("graph <");
            place.append(iri.as_str());
            place.append(">");
        },
        GraphPlace::Blank(label) => {
            place.append("graph _:");
            place.append(label.as_str());
        },
    }
    assert(place@ == place_text(quad.graph@));
    text.append(place.as_str());
    text.append(" (`");
    text.append(quad.subject.as_str());
    text.append(" ");
    text.append(quad.predicate.as_str());
    text.append(" ");
    text.append(quad.object.as_str());
    text.append(
        "`). Nothing was applied. A statement with no `GRAPH` block goes to the default graph, which is not the scoped graph — wrap it in `GRAPH <",
    );
    text.append(graph.as_str());
    text.append("> { … }`, or hold `urn:cap:store:write` and use `urn:iki:store:update`");
    Error::Denied(text)
}

/// The refusal of an update that made another graph known.
pub fn escaped_graph(graph: &NamedNode, created: &GraphPlace) -> (r: Error)
    ensures
        r@ == escaped_graph_error(graph@, created@),
{
    let mut text = "this write is scoped to graph <".to_owned();
    text.append(graph.as_str());
    text.append("> and the update created graph ");
    let mut name = String::new();
    match created {
        GraphPlace::Default => {
            name.append("DEFAULT");
        },
        GraphPlace::Iri(iri) => {
            name.append("<");
            name.append(iri.as_str());
            name.append(">");
        },
        GraphPlace::Blank(label) => {
            name.append("_:");
            name.append(label.as_str());
        },
    }
    assert(name@ == graph_syntax(created@));
    text.append(name.as_str());
    text.append(
        ". Nothing was applied. Creating or dropping another graph needs `urn:cap:store:write`",
    );
    Error::Denied(text)
}

fn storage(reason: String) -> (r: Error)
    ensures
        r@ == storage_error(reason@),
        is_storage_error(r@),
{
    let mut text = "store: ".to_owned();
    text.append(reason.as_str());
    Error::Endpoint(text)
}

/// Whether every quad an update left behind stands in its graph. The refusal names the first
/// that does not.
pub fn check_quads(graph: &NamedNode, quads: &Vec<Statement>) -> (r: Result<(), Error>)
    ensures
        match r {
            Ok(()) => forall|i: int|
                0 <= i < quads@.len() ==> #[trigger] quads@[i]@.graph == GraphModel::Iri(graph@),
            Err(e) => exists|i: int|
                {
                    &&& 0 <= i < quads@.len()
                    &&& #[trigger] quads@[i]@.graph != GraphModel::Iri(graph@)
                    &&& forall|j: int|
                        0 <= j < i ==> #[trigger] quads@[j]@.graph == GraphModel::Iri(graph@)
                    &&& e@ == escaped_quad_error(graph@, quads@[i]@)
                },
        },
{
    let mut i: usize = 0;
    while i < quads.len()
        invariant
            i <= quads@.len(),
            forall|j: int|
                0 <= j < i ==> #[trigger] quads@[j]@.graph == GraphModel::Iri(graph@),
        decreases quads@.len() - i,
    {
        if !is_graph(&quads[i].graph, graph) {
            return Err(escaped_quad(graph, &quads[i]));
        }
        i += 1;
    }
    Ok(())
}

/// Whether an update left no graph known but its own. The refusal names the first other one.
pub fn check_graphs(graph: &NamedNode, names: &Vec<GraphPlace>) -> (r: Result<(), Error>)
    ensures
        match r {
            Ok(()) => forall|i: int|
                0 <= i < names@.len() ==> #[trigger] names@[i]@ == GraphModel::Iri(graph@),
            Err(e) => exists|i: int|
                {
                    &&& 0 <= i < names@.len()
                    &&& #[trigger] names@[i]@ != GraphModel::Iri(graph@)
                    &&& forall|j: int|
                        0 <= j < i ==> #[trigger] names@[j]@ == GraphModel::Iri(graph@)
                    &&& e@ == escaped_graph_error(graph@, names@[i]@)
                },
        },
{
    let mut i: usize = 0;
    while i < names.len()
        invariant
            i <= names@.len(),
            forall|j: int| 0 <= j < i ==> #[trigger] names@[j]@ == GraphModel::Iri(graph@),
        decreases names@.len() - i,
    {
        if !is_graph(&names[i], graph) {
            return Err(escaped_graph(graph, &names[i]));
        }
        i += 1;
    }
    Ok(())
}

/// The quads of a list that a dataset does not hold. Where the dataset is in memory, or nothing
/// has to be looked up, they are found.
fn missing_from<'a>(quads: &'a Vec<Quad>, other: &Dataset) -> (r: Result<Vec<&'a Quad>, String>)
    requires
        other.owned(),
        in_stored_form(models(quads@)),
        models(quads@).no_duplicates(),
    ensures
        other.in_memory() || quads@.len() == 0 ==> r is Ok,
        r matches Ok(list) ==> {
            &&& in_stored_form(picked(list@))
            &&& picked(list@).no_duplicates()
            &&& picked(list@).to_set() == models(quads@).to_set().difference(other.contents().quads)
        },
{
    let mut list: Vec<&'a Quad> = Vec::new();
    let mut i: usize = 0;
    while i < quads.len()
        invariant
            i <= quads@.len(),
            other.owned(),
            in_stored_form(models(quads@)),
            models(quads@).no_duplicates(),
            in_stored_form(picked(list@)),
            picked(list@).no_duplicates(),
            picked(list@).to_set() == models(quads@).take(i as int).to_set().difference(
                other.contents().quads,
            ),
        decreases quads@.len() - i,
    {
        let ghost q = models(quads@)[i as int];
        let ghost before = picked(list@);
        let ghost seen = models(quads@).take(i as int);
        match other.contains(&quads[i]) {
            Ok(held) => {
                if !held {
                    list.push(&quads[i]);
                }
                proof {
                    assert(stored_form(q) == q);
                    assert(held == other.contents().quads.contains(q));
                    assert(models(quads@).take(i + 1) == seen.push(q));
                    assert(!seen.contains(q)) by {
                        if seen.contains(q) {
                            let k = choose|k: int| 0 <= k < seen.len() && seen[k] == q;
                            assert(models(quads@)[k] == models(quads@)[i as int]);
                        }
                    }
                    assert forall|x: QuadModel|
                        seen.push(q).contains(x) <==> seen.contains(x) || x == q by {
                        if seen.contains(x) {
                            let k = choose|k: int| 0 <= k < seen.len() && seen[k] == x;
                            assert(seen.push(q)[k] == x);
                        }
                        assert(seen.push(q)[seen.len() as int] == q);
                    }
                    if !held {
                        assert(picked(list@) == before.push(q));
                        assert(!before.contains(q)) by {
                            if before.contains(q) {
                                assert(before.to_set().contains(q));
                            }
                        }
                        assert forall|x: QuadModel|
                            before.push(q).contains(x) <==> before.contains(x) || x == q by {
                            if before.contains(x) {
                                let k = choose|k: int| 0 <= k < before.len() && before[k] == x;
                                assert(before.push(q)[k] == x);
                            }
                            assert(before.push(q)[before.len() as int] == q);
                        }
                        assert(picked(list@).no_duplicates());
                    }
                    assert(picked(list@).to_set() =~= models(quads@).take(
                        i + 1,
                    ).to_set().difference(other.contents().quads)) by {
                        assert forall|x: QuadModel|
                            picked(list@).to_set().contains(x) == models(quads@).take(
                                i + 1,
                            ).to_set().difference(other.contents().quads).contains(x) by {
                            assert(before.to_set().contains(x) == seen.to_set().difference(
                                other.contents().quads,
                            ).contains(x));
                        }
                    }
                }
            },
            Err(reason) => {
                return Err(reason);
            },
        }
        i += 1;
    }
    assert(models(quads@).take(quads@.len() as int) == models(quads@));
    Ok(list)
}

/// A private dataset in memory that holds these quads of one graph and nothing else. There is
/// always one.
fn private_copy(quads: &Vec<Quad>, graph: &NamedNode, registered: bool) -> (r: Result<
    Dataset,
    String,
>)
    requires
        in_stored_form(models(quads@)),
        forall|i: int|
            0 <= i < quads@.len() ==> #[trigger] models(quads@)[i].graph == GraphModel::Iri(graph@),
    ensures
        r matches Ok(copy) && {
            &&& copy.owned()
            &&& copy.in_memory()
            &&& copy.contents().quads == models(quads@).to_set()
            &&& copy.contents().graphs == if registered || quads@.len() > 0 {
                set![GraphModel::Iri(graph@)]
            } else {
                Set::empty()
            }
        },
{
    let mut copy = match Dataset::new() {
        Ok(copy) => copy,
        Err(reason) => {
            return Err(reason);
        },
    };
    if registered {
        match copy.insert_named_graph(graph) {
            Ok(()) => {},
            Err(reason) => {
                return Err(reason);
            },
        }
    }
    let ghost name = GraphModel::Iri(graph@);
    let mut i: usize = 0;
    proof {
        assert(models(quads@).take(0).to_set() =~= Set::<QuadModel>::empty());
        assert(set![name] =~= Set::<GraphModel>::empty().insert(name));
    }
    while i < quads.len()
        invariant
            i <= quads@.len(),
            copy.owned(),
            copy.in_memory(),
            name == GraphModel::Iri(graph@),
            in_stored_form(models(quads@)),
            forall|k: int| 0 <= k < quads@.len() ==> #[trigger] models(quads@)[k].graph == name,
            copy.contents().quads == models(quads@).take(i as int).to_set(),
            copy.contents().graphs == if registered || i > 0 {
                set![name]
            } else {
                Set::empty()
            },
        decreases quads@.len() - i,
    {
        let ghost held = copy.contents();
        match copy.insert(&quads[i]) {
            Ok(()) => {},
            Err(reason) => {
                return Err(reason);
            },
        }
        proof {
            let q = models(quads@)[i as int];
            assert(stored_form(q) == q);
            let seen = models(quads@).take(i as int);
            let more = models(quads@).take(i + 1);
            assert(more == seen.push(q));
            assert forall|x: QuadModel| more.to_set().contains(x) == seen.to_set().insert(
                q,
            ).contains(x) by {
                if seen.contains(x) {
                    let k = choose|k: int| 0 <= k < seen.len() && seen[k] == x;
                    assert(more[k] == x);
                }
                assert(more[i as int] == q);
            }
            assert(copy.contents().quads =~= more.to_set());
            assert(held.graphs.insert(name) =~= set![name]);
        }
        i += 1;
    }
    assert(models(quads@).take(quads@.len() as int) == models(quads@));
    Ok(copy)
}

/// What the quads of a list state, term by term.
fn statements(quads: &Vec<Quad>) -> (r: Vec<Statement>)
    ensures
        r@.len() == quads@.len(),
        forall|i: int| 0 <= i < quads@.len() ==> #[trigger] r@[i]@ == models(quads@)[i],
{
    let mut list: Vec<Statement> = Vec::new();
    let mut i: usize = 0;
    while i < quads.len()
        invariant
            i <= quads@.len(),
            list@.len() == i,
            forall|k: int| 0 <= k < i ==> #[trigger] list@[k]@ == models(quads@)[k],
        decreases quads@.len() - i,
    {
        list.push(statement(&quads[i]));
        i += 1;
    }
    list
}

/// Whether `error` is the refusal of an update that left `after` behind, something of it
/// outside its graph.
pub open spec fn escape_refused(graph: Seq<char>, after: DatasetModel, error: ErrorModel) -> bool {
    let name = GraphModel::Iri(graph);
    ||| exists|q: QuadModel|
        #![trigger after.quads.contains(q)]
        after.quads.contains(q) && q.graph != name && error == escaped_quad_error(graph, q)
    ||| {
        &&& forall|q: QuadModel| #[trigger] after.quads.contains(q) ==> q.graph == name
        &&& exists|g: GraphModel|
            #![trigger after.graphs.contains(g)]
            after.graphs.contains(g) && g != name && error == escaped_graph_error(graph, g)
    }
}

/// Whether `error` is how a scoped update may end that changes nothing.
pub open spec fn scoped_refusal(
    graph: Seq<char>,
    update: Seq<char>,
    before: DatasetModel,
    error: ErrorModel,
) -> bool {
    if update_refused(update) {
        exists|reason: Seq<char>| #[trigger]
            update_may_be_refused(update, reason) && error == not_an_update(reason)
    } else {
        ||| exists|reason: Seq<char>| #[trigger]
            update_may_fail(update, before, reason) && error == update_failed(reason)
        ||| exists|after: DatasetModel| #[trigger]
            update_may_give(update, before, after) && escape_refused(graph, after, error)
    }
}

/// Whether a reader may find this of one graph in a dataset.
pub open spec fn may_find(store: Dataset, graph: GraphModel, part: DatasetModel) -> bool {
    exists|contents: DatasetModel| #[trigger]
        store.may_hold(contents) && part == contents.only(graph)
}

/// Whether a copy of one graph of a dataset may be this. Whether the graph is known and what it
/// holds are read one after the other, which makes no difference on an owned dataset.
pub open spec fn may_show(store: Dataset, graph: GraphModel, before: DatasetModel) -> bool {
    exists|known: DatasetModel, held: DatasetModel|
        {
            &&& #[trigger] may_find(store, graph, known)
            &&& #[trigger] may_find(store, graph, held)
            &&& before.quads == held.quads
            &&& before.graphs == held.graphs || before.graphs == known.graphs
        }
}

/// Whether a scoped update may do this to its graph: it turns what a reader may find of the
/// graph into something that lies in the graph too.
pub open spec fn scoped_effect(
    graph: Seq<char>,
    update: Seq<char>,
    store: Dataset,
    before: DatasetModel,
    after: DatasetModel,
) -> bool {
    let name = GraphModel::Iri(graph);
    &&& update_may_give(update, before, after)
    &&& before.within(name)
    &&& after.within(name)
    &&& may_show(store, name, before)
}

/// Whether exactly what an update did to its graph was written to a dataset, in one transaction:
/// the quads that went were taken out, those that came were put in, and the registration was
/// settled. On an owned dataset the graph is then what the update left, and the others are as
/// they were.
pub open spec fn written(
    graph: Seq<char>,
    before: DatasetModel,
    after: DatasetModel,
    old_store: Dataset,
    new_store: Dataset,
) -> bool {
    let name = GraphModel::Iri(graph);
    &&& exists|known: bool|
        new_store.edited_since(
            old_store,
            before.quads.difference(after.quads),
            after.quads.difference(before.quads),
            name,
            #[trigger] settled(known, after.graphs.contains(name)),
        )
    &&& old_store.owned() ==> new_store.contents() == old_store.contents().with_graph(name, after)
}

/// Whether a scoped update was written in full or not at all.
pub open spec fn all_or_nothing(
    graph: Seq<char>,
    update: Seq<char>,
    old_store: Dataset,
    new_store: Dataset,
) -> bool {
    ||| new_store.untouched_since(old_store)
    ||| exists|before: DatasetModel, after: DatasetModel| #[trigger]
        scoped_effect(graph, update, old_store, before, after) && written(
            graph,
            before,
            after,
            old_store,
            new_store,
        )
}

/// Taking out what went, putting in what came and settling the registration replaces one
/// graph of a dataset and leaves the others alone.
proof fn lemma_applied(
    whole: DatasetModel,
    after: DatasetModel,
    graph: GraphModel,
    registration: Registration,
)
    requires
        after.within(graph),
        !after.quads.is_empty() ==> after.graphs.contains(graph),
        !whole.only(graph).quads.is_empty() ==> whole.graphs.contains(graph),
        registration == settled(whole.graphs.contains(graph), after.graphs.contains(graph)),
    ensures
        whole.edited(
            whole.only(graph).quads.difference(after.quads),
            after.quads.difference(whole.only(graph).quads),
            graph,
            registration,
        ) == whole.with_graph(graph, after),
{
    let before = whole.only(graph).quads;
    let edited = whole.edited(
        before.difference(after.quads),
        after.quads.difference(before),
        graph,
        registration,
    );
    let expected = whole.with_graph(graph, after);
    assert forall|q: QuadModel| edited.quads.contains(q) == expected.quads.contains(q) by {
        assert(before.contains(q) == (whole.quads.contains(q) && q.graph == graph));
        if after.quads.contains(q) {
            assert(!after.quads.is_empty());
        }
    }
    assert(edited.quads =~= expected.quads);
    assert forall|g: GraphModel| edited.graphs.contains(g) == expected.graphs.contains(g) by {
        if !after.quads.difference(before).is_empty() {
            assert(!after.quads.is_empty()) by {
                if after.quads.is_empty() {
                    assert(after.quads.difference(before) =~= Set::empty());
                }
            }
        }
    }
    assert(edited.graphs =~= expected.graphs);
}

/// How a scoped update may succeed: run against its graph alone it left nothing outside it, and
/// what it did there was written. So many quads came and so many went.
pub open spec fn scoped_success(
    graph: Seq<char>,
    update: Seq<char>,
    old_store: Dataset,
    new_store: Dataset,
    added: nat,
    removed: nat,
) -> bool {
    &&& !update_refused(update)
    &&& exists|before: DatasetModel, after: DatasetModel|
        {
            &&& #[trigger] scoped_effect(graph, update, old_store, before, after)
            &&& written(graph, before, after, old_store, new_store)
            &&& added == after.quads.difference(before.quads).len()
            &&& removed == before.quads.difference(after.quads).len()
        }
}

/// Why a scoped update may be refused before the dataset is touched: the storage failed, which
/// it does not in memory; or it is refused for what it did to a copy of its graph.
pub open spec fn scoped_stop(
    graph: Seq<char>,
    update: Seq<char>,
    store: Dataset,
    e: ErrorModel,
) -> bool {
    ||| is_storage_error(e) && !store.in_memory()
    ||| exists|before: DatasetModel|
        {
            &&& #[trigger] before.within(GraphModel::Iri(graph))
            &&& may_show(store, GraphModel::Iri(graph), before)
            &&& scoped_refusal(graph, update, before, e)
        }
}

/// How a scoped update may fail: it is refused before the dataset is touched, or the storage
/// failed while the changes were written, and then they were written in full or not at all.
pub open spec fn scoped_failure(
    graph: Seq<char>,
    update: Seq<char>,
    old_store: Dataset,
    new_store: Dataset,
    e: ErrorModel,
) -> bool {
    ||| scoped_stop(graph, update, old_store, e) && new_store.untouched_since(old_store)
    ||| {
        &&& is_storage_error(e)
        &&& !old_store.in_memory()
        &&& all_or_nothing(graph, update, old_store, new_store)
    }
}

/// Where what an update did to its graph is one transaction on a dataset, it is written.
proof fn lemma_written(
    graph: Seq<char>,
    before: DatasetModel,
    after: DatasetModel,
    old_store: Dataset,
    new_store: Dataset,
    known: DatasetModel,
)
    requires
        may_show(old_store, GraphModel::Iri(graph), before),
        old_store.may_hold(known),
        after.within(GraphModel::Iri(graph)),
        !before.quads.is_empty() ==> before.graphs.contains(GraphModel::Iri(graph)),
        !after.quads.is_empty() ==> after.graphs.contains(GraphModel::Iri(graph)),
        new_store.edited_since(
            old_store,
            before.quads.difference(after.quads),
            after.quads.difference(before.quads),
            GraphModel::Iri(graph),
            settled(
                known.graphs.contains(GraphModel::Iri(graph)),
                after.graphs.contains(GraphModel::Iri(graph)),
            ),
        ),
    ensures
        written(graph, before, after, old_store, new_store),
{
    let name = GraphModel::Iri(graph);
    if old_store.owned() {
        let whole = old_store.contents();
        assert(before.quads == whole.only(name).quads);
        assert(before.graphs == whole.only(name).graphs);
        lemma_applied(
            whole,
            after,
            name,
            settled(whole.graphs.contains(name), after.graphs.contains(name)),
        );
    }
}

/// How a scoped update may end.
pub open spec fn scoped_outcome(
    graph: Seq<char>,
    update: Seq<char>,
    old_store: Dataset,
    new_store: Dataset,
    r: Result<(nat, nat), ErrorModel>,
) -> bool {
    match r {
        Ok((added, removed)) => scoped_success(
            graph,
            update,
            old_store,
            new_store,
            added,
            removed,
        ),
        Err(e) => scoped_failure(graph, update, old_store, new_store, e),
    }
}

impl View for Applied {
    type V = (nat, nat);

    open spec fn view(&self) -> (nat, nat) {
        (self.added as nat, self.removed as nat)
    }
}

/// What a scoped update did to a copy of its graph: the quads before it and after it, each in a
/// dataset in memory that holds them and nothing else, and what became of the registration.
struct Edit {
    own: Vec<Quad>,
    left: Vec<Quad>,
    pristine: Dataset,
    scratch: Dataset,
    registration: Registration,
}

impl Edit {
    /// Whether this is what an update may do to a copy of a graph, with nothing outside it.
    spec fn of(self, graph: Seq<char>, update: Seq<char>) -> bool {
        let name = GraphModel::Iri(graph);
        let before = self.pristine.contents();
        let after = self.scratch.contents();
        &&& !update_refused(update)
        &&& update_may_give(update, before, after)
        &&& before.within(name)
        &&& after.within(name)
        &&& !before.quads.is_empty() ==> before.graphs.contains(name)
        &&& !after.quads.is_empty() ==> after.graphs.contains(name)
        &&& self.pristine.owned() && self.pristine.in_memory()
        &&& self.scratch.owned() && self.scratch.in_memory()
        &&& in_stored_form(models(self.own@)) && models(self.own@).no_duplicates()
        &&& in_stored_form(models(self.left@)) && models(self.left@).no_duplicates()
        &&& models(self.own@).to_set() == before.quads
        &&& models(self.left@).to_set() == after.quads
    }
}

/// What to do about the registration of a graph that was known or not and is known or not.
pub open spec fn settled(before: bool, after: bool) -> Registration {
    if before && !after {
        Registration::Remove
    } else if !before && after {
        Registration::Enter
    } else {
        Registration::Keep
    }
}

/// What became of the evaluation of an update: a failure is reported in the store's own words.
pub fn evaluated(ran: Result<(), Failure>) -> (r: Result<(), Error>)
    ensures
        match ran {
            Ok(()) => r is Ok,
            Err(failure) => r matches Err(e) && e@ == update_failed(failure.spec_text()),
        },
{
    match ran {
        Ok(()) => Ok(()),
        Err(failure) => {
            let mut detail = "update: ".to_owned();
            detail.append(failure.text());
            Err(Error::Endpoint(detail))
        },
    }
}

/// Evaluate `update` on a copy of `graph` and look at what it left. The dataset is read and not
/// touched.
fn scoped_edit(store: &Dataset, graph: &NamedNode, update: &str) -> (r: Result<Edit, Error>)
    ensures
        match r {
            Ok(edit) => {
                let name = GraphModel::Iri(graph@);
                &&& edit.of(graph@, update@)
                &&& may_show(*store, name, edit.pristine.contents())
                &&& exists|known: DatasetModel| #[trigger]
                    store.may_hold(known) && edit.registration == settled(
                        known.graphs.contains(name),
                        edit.scratch.contents().graphs.contains(name),
                    )
            },
            Err(e) => scoped_stop(graph@, update@, *store, e@),
        },
{
    let ghost name = GraphModel::Iri(graph@);
    let registered = match store.contains_named_graph(graph) {
        Ok(registered) => registered,
        Err(reason) => {
            return Err(storage(reason));
        },
    };
    let own = match store.graph_quads(graph) {
        Ok(own) => own,
        Err(reason) => {
            return Err(storage(reason));
        },
    };
    let pristine = match private_copy(&own, graph, registered) {
        Ok(pristine) => pristine,
        Err(reason) => {
            return Err(storage(reason));
        },
    };
    let mut scratch = match private_copy(&own, graph, registered) {
        Ok(scratch) => scratch,
        Err(reason) => {
            return Err(storage(reason));
        },
    };
    let ghost before = scratch.contents();
    proof {
        assert(pristine.contents() =~= before);
        assert(before.within(name)) by {
            assert forall|q: QuadModel| #[trigger] before.quads.contains(q) implies q.graph
                == name by {
                let i = choose|i: int| 0 <= i < own@.len() && models(own@)[i] == q;
                assert(models(own@)[i].graph == name);
            }
        }
        let known = choose|known: DatasetModel| #[trigger]
            store.may_hold(known) && registered == known.graphs.contains(name);
        let held = choose|held: DatasetModel|
            {
                &&& #[trigger] store.may_hold(held)
                &&& models(own@).to_set() == held.only(name).quads
                &&& own@.len() > 0 ==> held.graphs.contains(name)
            };
        assert(may_show(*store, name, before)) by {
            assert(may_find(*store, name, known.only(name)));
            assert(may_find(*store, name, held.only(name)));
            if own@.len() > 0 {
                assert(before.graphs =~= held.only(name).graphs);
            } else {
                assert(before.graphs =~= known.only(name).graphs);
            }
        }
        if !before.quads.is_empty() {
            assert(own@.len() > 0) by {
                if own@.len() == 0 {
                    assert(models(own@).to_set() =~= Set::empty());
                }
            }
        }
    }
    let prepared = match parse_update(update) {
        Ok(prepared) => prepared,
        Err(reason) => {
            let mut detail = "not a SPARQL update: ".to_owned();
            detail.append(reason.as_str());
            let refusal = Error::InvalidArgument { name: "content".to_owned(), detail };
            assert(scoped_refusal(graph@, update@, before, refusal@));
            return Err(refusal);
        },
    };
    let ran = scratch.run(prepared);
    let ghost failure = ran->Err_0;
    match evaluated(ran) {
        Ok(()) => {},
        Err(refusal) => {
            proof {
                assert(update_may_fail(update@, before, failure.spec_text()));
                assert(scoped_refusal(graph@, update@, before, refusal@));
            }
            return Err(refusal);
        },
    }
    let ghost after = scratch.contents();
    let left = match scratch.quads() {
        Ok(left) => left,
        Err(reason) => {
            return Err(storage(reason));
        },
    };
    let listing = statements(&left);
    match check_quads(graph, &listing) {
        Ok(()) => {},
        Err(refusal) => {
            proof {
                let i = choose|i: int|
                    0 <= i < listing@.len() && #[trigger] listing@[i]@.graph != name && refusal@
                        == escaped_quad_error(graph@, listing@[i]@);
                assert(models(left@).to_set().contains(models(left@)[i]));
                assert(escape_refused(graph@, after, refusal@));
                assert(scoped_refusal(graph@, update@, before, refusal@));
            }
            return Err(refusal);
        },
    }
    proof {
        assert forall|q: QuadModel| #[trigger] after.quads.contains(q) implies q.graph == name
            && after.graphs.contains(name) by {
            let i = choose|i: int| 0 <= i < left@.len() && models(left@)[i] == q;
            assert(listing@[i]@.graph == name);
        }
    }
    let names = match scratch.named_graphs() {
        Ok(names) => names,
        Err(reason) => {
            return Err(storage(reason));
        },
    };
    match check_graphs(graph, &names) {
        Ok(()) => {},
        Err(refusal) => {
            proof {
                let i = choose|i: int|
                    0 <= i < names@.len() && #[trigger] names@[i]@ != name && refusal@
                        == escaped_graph_error(graph@, names@[i]@);
                assert(after.graphs.contains(names@[i]@));
                assert(escape_refused(graph@, after, refusal@));
                assert(scoped_refusal(graph@, update@, before, refusal@));
            }
            return Err(refusal);
        },
    }
    assert(after.within(name));
    let now_registered = match scratch.contains_named_graph(graph) {
        Ok(now_registered) => now_registered,
        Err(reason) => {
            return Err(storage(reason));
        },
    };
    let registration = if registered && !now_registered {
        Registration::Remove
    } else if !registered && now_registered {
        Registration::Enter
    } else {
        Registration::Keep
    };
    Ok(Edit { own, left, pristine, scratch, registration })
}

/// Evaluate `update` confined to `graph`, applying it only if nothing escaped.
///
/// The caller must already hold the authority over the graph: this is the mechanism, not the
/// gate. A refusal comes before the dataset is touched; only a failure of the storage itself,
/// which there is none of in memory, may come later, and then too the update was applied in
/// full or not at all.
pub fn scoped_update(store: &mut Dataset, graph: &NamedNode, update: &str) -> (r: Result<
    Applied,
    Error,
>)
    ensures
        final(store).continues(*old(store)),
        scoped_outcome(graph@, update@, *old(store), *final(store), outcome(r)),
{
    let ghost name = GraphModel::Iri(graph@);
    let edit = match scoped_edit(store, graph, update) {
        Ok(edit) => edit,
        Err(e) => {
            return Err(e);
        },
    };
    let ghost before = edit.pristine.contents();
    let ghost after = edit.scratch.contents();
    let added = match missing_from(&edit.left, &edit.pristine) {
        Ok(added) => added,
        Err(reason) => {
            return Err(storage(reason));
        },
    };
    let removed = match missing_from(&edit.own, &edit.scratch) {
        Ok(removed) => removed,
        Err(reason) => {
            return Err(storage(reason));
        },
    };
    proof {
        picked(added@).unique_seq_to_set();
        picked(removed@).unique_seq_to_set();
        assert forall|i: int| 0 <= i < added@.len() implies #[trigger] picked(added@)[i].graph
            == name by {
            assert(picked(added@).to_set().contains(picked(added@)[i]));
            assert(after.quads.contains(picked(added@)[i]));
        }
        assert(picked(added@).to_set() == after.quads.difference(before.quads));
        assert(picked(removed@).to_set() == before.quads.difference(after.quads));
    }
    let ghost registration = edit.registration;
    let ghost known = choose|known: DatasetModel| #[trigger]
        store.may_hold(known) && registration == settled(
            known.graphs.contains(name),
            after.graphs.contains(name),
        );
    let counts = Applied { added: added.len(), removed: removed.len() };
    match store.apply(&removed, &added, graph, edit.registration) {
        Ok(()) => {},
        Err(reason) => {
            proof {
                if !store.untouched_since(*old(store)) {
                    lemma_written(graph@, before, after, *old(store), *store, known);
                    assert(scoped_effect(graph@, update@, *old(store), before, after));
                }
            }
            return Err(storage(reason));
        },
    }
    proof {
        lemma_written(graph@, before, after, *old(store), *store, known);
        assert(scoped_effect(graph@, update@, *old(store), before, after));
    }
    Ok(counts)
}

} // verus!
