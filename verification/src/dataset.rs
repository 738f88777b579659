//! An RDF dataset as a mathematical object, and the `oxigraph` store that holds one.
//!
//! A dataset is a set of quads and the set of named graphs it knows of. [`Dataset`] holds an
//! `oxigraph` store and says, method by method, what `oxigraph` does to those two sets.
//!
//! An `oxigraph` store can be written through any handle on it. What a dataset holds is
//! therefore said only of one that is [`owned`](Dataset::owned): one whose handle never left,
//! so that every change to it goes through a method here. Of any other it is said what may be
//! found in it ([`may_hold`](Dataset::may_hold)), and of every dataset which transactions were
//! committed through it ([`changes`](Dataset::changes)).

use crate::results::{is_plain_syntax, is_triple_syntax};
use crate::term::NamedNode;
use oxigraph::io::{RdfFormat, RdfParser};
use oxigraph::model::{GraphName, NamedNodeRef, NamedOrBlankNode, Quad};
use oxigraph::sparql::{PreparedSparqlUpdate, SparqlEvaluator, UpdateEvaluationError};
use oxigraph::store::{LoaderError, Store, Transaction};
use std::sync::Arc;
use vstd::prelude::*;

verus! {

#[verifier::external_type_specification]
#[verifier::external_body]
pub struct ExStore(Store);

#[verifier::external_type_specification]
#[verifier::external_body]
pub struct ExQuad(Quad);

#[verifier::external_type_specification]
#[verifier::external_body]
pub struct ExPreparedSparqlUpdate(PreparedSparqlUpdate);

#[verifier::external_type_specification]
#[verifier::external_body]
pub struct ExTransaction<'a>(Transaction<'a>);

/// The name of a graph.
pub enum GraphModel {
    Default,
    Iri(Seq<char>),
    Blank(Seq<char>),
}

/// One statement: three terms, each as it is written in SPARQL, in a graph.
pub struct QuadModel {
    pub subject: Seq<char>,
    pub predicate: Seq<char>,
    pub object: Seq<char>,
    pub graph: GraphModel,
}

/// A dataset: its quads, and the named graphs it knows of.
#[verifier::ext_equal]
pub struct DatasetModel {
    pub quads: Set<QuadModel>,
    pub graphs: Set<GraphModel>,
}

impl DatasetModel {
    /// Whether another dataset holds everything this one does.
    pub open spec fn part_of(self, other: DatasetModel) -> bool {
        self.quads.subset_of(other.quads) && self.graphs.subset_of(other.graphs)
    }

    /// The dataset with nothing in it.
    pub open spec fn empty() -> DatasetModel {
        DatasetModel { quads: Set::empty(), graphs: Set::empty() }
    }

    /// The dataset with one more quad. A dataset knows of the graph of every quad it holds.
    pub open spec fn with_quad(self, quad: QuadModel) -> DatasetModel {
        DatasetModel {
            quads: self.quads.insert(quad),
            graphs: if quad.graph == GraphModel::Default {
                self.graphs
            } else {
                self.graphs.insert(quad.graph)
            },
        }
    }

    /// The dataset with more quads, and their graphs known.
    pub open spec fn with_quads(self, added: Set<QuadModel>) -> DatasetModel {
        DatasetModel {
            quads: self.quads.union(added),
            graphs: self.graphs.union(
                added.map(|q: QuadModel| q.graph).filter(|g: GraphModel| g != GraphModel::Default),
            ),
        }
    }

    /// One graph of the dataset, and nothing else.
    pub open spec fn only(self, graph: GraphModel) -> DatasetModel {
        DatasetModel {
            quads: self.quads.filter(|q: QuadModel| q.graph == graph),
            graphs: self.graphs.filter(|g: GraphModel| g == graph),
        }
    }

    /// Whether the dataset holds nothing outside one graph.
    pub open spec fn within(self, graph: GraphModel) -> bool {
        &&& forall|q: QuadModel| #[trigger] self.quads.contains(q) ==> q.graph == graph
        &&& forall|g: GraphModel| #[trigger] self.graphs.contains(g) ==> g == graph
    }

    /// The dataset with one graph taken from `other` and every other graph left as it is.
    pub open spec fn with_graph(self, graph: GraphModel, other: DatasetModel) -> DatasetModel {
        DatasetModel {
            quads: self.quads.filter(|q: QuadModel| q.graph != graph).union(
                other.quads.filter(|q: QuadModel| q.graph == graph),
            ),
            graphs: self.graphs.filter(|g: GraphModel| g != graph).union(
                other.graphs.filter(|g: GraphModel| g == graph),
            ),
        }
    }
}

/// A committed transaction: what it found, and what it made of that.
pub struct Change {
    pub found: DatasetModel,
    pub left: DatasetModel,
}

impl Change {
    /// Whether the transaction left every graph but one as it found it.
    pub open spec fn confined_to(self, graph: GraphModel) -> bool {
        &&& forall|q: QuadModel|
            q.graph != graph ==> #[trigger] self.left.quads.contains(q)
                == self.found.quads.contains(q)
        &&& forall|g: GraphModel|
            g != graph ==> #[trigger] self.left.graphs.contains(g)
                == self.found.graphs.contains(g)
    }
}

/// Where a statement stands.
#[derive(Debug, PartialEq, Eq)]
pub enum GraphPlace {
    /// The graph without a name.
    Default,
    /// The graph named by this IRI.
    Iri(String),
    /// The graph named by the blank node with this label.
    Blank(String),
}

impl View for GraphPlace {
    type V = GraphModel;

    open spec fn view(&self) -> GraphModel {
        match self {
            GraphPlace::Default => GraphModel::Default,
            GraphPlace::Iri(iri) => GraphModel::Iri(iri@),
            GraphPlace::Blank(label) => GraphModel::Blank(label@),
        }
    }
}

/// A statement, term by term.
#[derive(Debug, PartialEq, Eq)]
pub struct Statement {
    pub subject: String,
    pub predicate: String,
    pub object: String,
    pub graph: GraphPlace,
}

impl View for Statement {
    type V = QuadModel;

    open spec fn view(&self) -> QuadModel {
        QuadModel {
            subject: self.subject@,
            predicate: self.predicate@,
            object: self.object@,
            graph: self.graph@,
        }
    }
}

/// What an `oxigraph` quad states.
pub uninterp spec fn quad_model(quad: Quad) -> QuadModel;

/// The quads that an `oxigraph` store holds.
pub uninterp spec fn store_quads(store: Store) -> Set<QuadModel>;

/// The named graphs that an `oxigraph` store knows of.
pub uninterp spec fn store_graphs(store: Store) -> Set<GraphModel>;

/// The datasets that the storage of an `oxigraph` store may be found to hold at one time or
/// another, whoever wrote to it.
pub uninterp spec fn store_states(store: Store) -> Set<DatasetModel>;

/// The transactions committed so far through the dataset that an `oxigraph` store stands in, in
/// their order.
pub uninterp spec fn store_changes(store: Store) -> Seq<Change>;

/// Whether an `oxigraph` store keeps its quads in memory, and not in a directory. It stays so
/// for as long as there is the store.
pub uninterp spec fn store_in_memory(store: Store) -> bool;

/// What an `oxigraph` store makes of a quad it is given. It keeps a number, a date or a
/// boolean by its value, so that a literal may come back spelled another way.
pub uninterp spec fn stored_form(quad: QuadModel) -> QuadModel;

/// The store that an `oxigraph` transaction was started on.
pub uninterp spec fn transaction_store(transaction: Transaction<'_>) -> Store;

/// What an `oxigraph` transaction found in its store when it was started.
pub uninterp spec fn transaction_found(transaction: Transaction<'_>) -> DatasetModel;

/// What an `oxigraph` transaction has made of what it found.
pub uninterp spec fn transaction_contents(transaction: Transaction<'_>) -> DatasetModel;

/// The update an `oxigraph` prepared update was parsed from.
pub uninterp spec fn update_source(update: PreparedSparqlUpdate) -> Seq<char>;

/// Whether `oxigraph` does not take a text for a SPARQL update.
pub uninterp spec fn update_refused(text: Seq<char>) -> bool;

/// Whether this may be the reason why `oxigraph` does not take a text for a SPARQL update. Of
/// several reasons any may be given.
pub uninterp spec fn update_may_be_refused(text: Seq<char>, reason: Seq<char>) -> bool;

/// Whether a SPARQL update may turn the dataset `before` into the dataset `after`. An update
/// that asks for the time, a random number or a fresh blank node has more than one outcome.
pub uninterp spec fn update_may_give(
    text: Seq<char>,
    before: DatasetModel,
    after: DatasetModel,
) -> bool;

/// Whether the evaluation of a SPARQL update on the dataset `before` may be refused for this
/// reason.
pub uninterp spec fn update_may_fail(
    text: Seq<char>,
    before: DatasetModel,
    reason: Seq<char>,
) -> bool;

/// Whether `oxigraph` cannot read a text as an RDF document in one of the syntaxes for triples
/// or quads.
pub uninterp spec fn document_refused(
    format: RdfFormat,
    graph: Option<Seq<char>>,
    bytes: Seq<u8>,
) -> bool;

/// Whether this may be the reason why `oxigraph` cannot read a text as an RDF document. Of
/// several reasons any may be given.
pub uninterp spec fn document_may_be_refused(
    format: RdfFormat,
    graph: Option<Seq<char>>,
    bytes: Seq<u8>,
    reason: Seq<char>,
) -> bool;

/// Whether reading an RDF document may give these quads, in the form a store keeps them in.
/// What the document puts in no graph goes into `graph`, or into the default graph where there
/// is none. Blank nodes are given fresh labels, so there is more than one outcome.
pub uninterp spec fn document_may_say(
    format: RdfFormat,
    graph: Option<Seq<char>>,
    bytes: Seq<u8>,
    added: Set<QuadModel>,
) -> bool;

/// Whether `after` is `before` with these quads of a document. A syntax for triples names no
/// graphs, so that all of them stand in the one graph.
pub open spec fn adds(
    format: RdfFormat,
    graph: Option<Seq<char>>,
    added: Set<QuadModel>,
    before: DatasetModel,
    after: DatasetModel,
) -> bool {
    &&& after == before.with_quads(added)
    &&& is_triple_syntax(format) ==> forall|q: QuadModel| #[trigger]
        added.contains(q) ==> q.graph == graph_place(graph)
}

/// Whether loading an RDF document may turn the dataset `before` into the dataset `after`.
pub open spec fn loaded(
    format: RdfFormat,
    graph: Option<Seq<char>>,
    bytes: Seq<u8>,
    before: DatasetModel,
    after: DatasetModel,
) -> bool {
    exists|added: Set<QuadModel>| #[trigger]
        document_may_say(format, graph, bytes, added) && adds(format, graph, added, before, after)
}

/// Where a document without graph names goes.
pub open spec fn graph_place(graph: Option<Seq<char>>) -> GraphModel {
    match graph {
        Some(iri) => GraphModel::Iri(iri),
        None => GraphModel::Default,
    }
}

/// A failure of the store, told apart by whether it may have happened while a change was
/// being written.
#[derive(Debug, PartialEq, Eq)]
pub enum Failure {
    /// The storage failed.
    Storage(String),
    /// The request could not be carried out, and nothing was changed.
    Refused(String),
}

impl Failure {
    /// The sentence the store reported.
    pub open spec fn spec_text(self) -> Seq<char> {
        match self {
            Failure::Storage(text) => text@,
            Failure::Refused(text) => text@,
        }
    }

    /// The sentence the store reported.
    pub fn text(&self) -> (r: &str)
        ensures
            r@ == self.spec_text(),
    {
        match self {
            Failure::Storage(text) => text.as_str(),
            Failure::Refused(text) => text.as_str(),
        }
    }
}

/// What to do about a graph's registration.
pub enum Registration {
    /// Leave it as it is.
    Keep,
    /// Make the graph known.
    Enter,
    /// Forget the graph and everything in it.
    Remove,
}

impl DatasetModel {
    /// The dataset after one transaction on a graph.
    pub open spec fn edited(
        self,
        removed: Set<QuadModel>,
        added: Set<QuadModel>,
        graph: GraphModel,
        registration: Registration,
    ) -> DatasetModel {
        let quads = self.quads.difference(removed).union(added);
        match registration {
            Registration::Remove => DatasetModel {
                quads: quads.filter(|q: QuadModel| q.graph != graph),
                graphs: self.graphs.remove(graph),
            },
            Registration::Enter => DatasetModel { quads, graphs: self.graphs.insert(graph) },
            Registration::Keep => DatasetModel {
                quads,
                graphs: if added.is_empty() {
                    self.graphs
                } else {
                    self.graphs.insert(graph)
                },
            },
        }
    }
}

/// What the quads of a list state.
pub open spec fn models(quads: Seq<Quad>) -> Seq<QuadModel> {
    quads.map_values(|quad: Quad| quad_model(quad))
}

/// What the quads of a list of references state.
pub open spec fn picked(quads: Seq<&Quad>) -> Seq<QuadModel> {
    quads.map_values(|quad: &Quad| quad_model(*quad))
}

/// Whether each of these quads is in the form a store keeps it in.
pub open spec fn in_stored_form(quads: Seq<QuadModel>) -> bool {
    forall|i: int| 0 <= i < quads.len() ==> #[trigger] stored_form(quads[i]) == quads[i]
}

/// An RDF dataset held in an `oxigraph` store.
pub struct Dataset {
    store: Arc<Store>,
    owned: bool,
}

impl Dataset {
    /// Whether every change to this dataset goes through it.
    pub closed spec fn owned(&self) -> bool {
        self.owned
    }

    /// What the dataset holds.
    pub closed spec fn contents(&self) -> DatasetModel {
        DatasetModel { quads: store_quads(*self.store), graphs: store_graphs(*self.store) }
    }

    /// The store that holds the dataset.
    pub closed spec fn spec_store(&self) -> Store {
        *self.store
    }

    /// Whether the dataset is kept in memory.
    pub open spec fn in_memory(&self) -> bool {
        store_in_memory(self.spec_store())
    }

    /// Whether this is the store that holds the dataset, as it is now.
    pub open spec fn holds(&self, store: Store) -> bool {
        self.spec_store() == store
    }

    /// Whether a reader may find this in the dataset: in one that is owned what it holds, and in
    /// any other what its storage held at some time.
    pub open spec fn may_hold(&self, contents: DatasetModel) -> bool {
        if self.owned() {
            contents == self.contents()
        } else {
            store_states(self.spec_store()).contains(contents)
        }
    }

    /// The transactions committed so far through the dataset, in their order.
    pub open spec fn changes(&self) -> Seq<Change> {
        store_changes(self.spec_store())
    }

    /// Whether this is what became of another dataset: it lies in the same storage and is owned
    /// or not as that was.
    pub open spec fn continues(&self, before: Dataset) -> bool {
        &&& self.owned() == before.owned()
        &&& self.in_memory() == before.in_memory()
        &&& store_states(self.spec_store()) == store_states(before.spec_store())
    }

    /// Whether nothing was done through the dataset since.
    pub open spec fn untouched_since(&self, before: Dataset) -> bool {
        &&& self.changes() == before.changes()
        &&& before.owned() ==> self.contents() == before.contents()
    }

    /// Whether exactly one transaction was committed through the dataset since. On an owned
    /// dataset it found and left what the dataset held, and in memory it found what was there.
    pub open spec fn changed_since(&self, before: Dataset, change: Change) -> bool {
        &&& self.changes() == before.changes().push(change)
        &&& before.owned() ==> self.contents() == change.left
        &&& before.owned() || before.in_memory() ==> before.may_hold(change.found)
    }

    /// Whether exactly one SPARQL update was carried out through the dataset since.
    pub open spec fn updated_since(&self, before: Dataset, text: Seq<char>) -> bool {
        exists|change: Change| #[trigger]
            self.changed_since(before, change) && update_may_give(text, change.found, change.left)
    }

    /// Whether exactly one RDF document was read and added through the dataset since.
    pub open spec fn loaded_since(
        &self,
        before: Dataset,
        format: RdfFormat,
        graph: Option<Seq<char>>,
        bytes: Seq<u8>,
    ) -> bool {
        exists|change: Change| #[trigger]
            self.changed_since(before, change) && loaded(
                format,
                graph,
                bytes,
                change.found,
                change.left,
            )
    }

    /// Whether exactly one transaction on a graph was committed through the dataset since.
    pub open spec fn edited_since(
        &self,
        before: Dataset,
        removed: Set<QuadModel>,
        added: Set<QuadModel>,
        graph: GraphModel,
        registration: Registration,
    ) -> bool {
        exists|change: Change| #[trigger]
            self.changed_since(before, change) && change.left == change.found.edited(
                removed,
                added,
                graph,
                registration,
            )
    }

    /// A dataset in memory that holds nothing. There is always one.
    pub fn new() -> (r: Result<Dataset, String>)
        ensures
            r matches Ok(dataset) && dataset.owned() && dataset.in_memory() && dataset.contents()
                == DatasetModel::empty(),
    {
        match new_store() {
            Ok(store) => Ok(Dataset { store: Arc::new(store), owned: true }),
            Err(reason) => Err(reason),
        }
    }

    /// Whether every change to this dataset goes through it.
    pub fn is_owned(&self) -> (r: bool)
        ensures
            r == self.owned(),
    {
        self.owned
    }

    /// A dataset over a store that nothing else holds.
    pub(crate) fn of_store(store: Store) -> (r: Dataset)
        ensures
            r.owned(),
            r.holds(store),
            r.contents().quads == store_quads(store),
            r.contents().graphs == store_graphs(store),
    {
        Dataset { store: Arc::new(store), owned: true }
    }

    /// The dataset and a handle on its store. The store is the same one and the dataset is owned
    /// no longer.
    pub fn share(self) -> (r: (Dataset, Arc<Store>))
        ensures
            !r.0.owned(),
            r.0.holds(*r.1),
            self.holds(*r.1),
    {
        let handle = Arc::clone(&self.store);
        (Dataset { store: self.store, owned: false }, handle)
    }

    /// The store, for an evaluator that reads it.
    pub(crate) fn handle(&self) -> (r: &Store)
        ensures
            self.holds(*r),
    {
        &self.store
    }

    /// `Store::contains_named_graph`: whether the store knows of a graph. On a store in memory it
    /// does not fail.
    #[verifier::external_body]
    pub(crate) fn contains_named_graph(&self, graph: &NamedNode) -> (r: Result<bool, String>)
        ensures
            self.in_memory() ==> r is Ok,
            r matches Ok(known) ==> exists|contents: DatasetModel| #[trigger]
                self.may_hold(contents) && known == contents.graphs.contains(
                    GraphModel::Iri(graph@),
                ),
    {
        let name = NamedNodeRef::new_unchecked(graph.as_str());
        self.store.contains_named_graph(name).map_err(|e| e.to_string())
    }

    /// `Store::insert_named_graph`: makes a graph known to the store. On a store in memory it
    /// does not fail.
    #[verifier::external_body]
    pub(crate) fn insert_named_graph(&mut self, graph: &NamedNode) -> (r: Result<(), String>)
        ensures
            final(self).continues(*old(self)),
            old(self).in_memory() ==> r is Ok,
            r is Ok && old(self).owned() ==> final(self).contents() == (DatasetModel {
                quads: old(self).contents().quads,
                graphs: old(self).contents().graphs.insert(GraphModel::Iri(graph@)),
            }),
    {
        let name = NamedNodeRef::new_unchecked(graph.as_str());
        self.store.insert_named_graph(name).map_err(|e| e.to_string())
    }

    /// `Store::quads_for_pattern` with only the graph given: the quads of one graph, each
    /// once, in the form the store keeps them in. A store knows of the graph of every quad it
    /// holds. On a store in memory it does not fail.
    #[verifier::external_body]
    pub(crate) fn graph_quads(&self, graph: &NamedNode) -> (r: Result<Vec<Quad>, String>)
        ensures
            self.in_memory() ==> r is Ok,
            r matches Ok(quads) ==> {
                &&& in_stored_form(models(quads@))
                &&& models(quads@).no_duplicates()
                &&& forall|i: int|
                    0 <= i < quads@.len() ==> #[trigger] models(quads@)[i].graph
                        == GraphModel::Iri(graph@)
                &&& exists|contents: DatasetModel|
                    {
                        &&& #[trigger] self.may_hold(contents)
                        &&& models(quads@).to_set() == contents.only(GraphModel::Iri(graph@)).quads
                        &&& quads@.len() > 0 ==> contents.graphs.contains(GraphModel::Iri(graph@))
                    }
            },
    {
        let name = NamedNodeRef::new_unchecked(graph.as_str());
        let quads = self.store.quads_for_pattern(None, None, None, Some(name.into()));
        quads.collect::<Result<Vec<Quad>, _>>().map_err(|e| e.to_string())
    }

    /// `Store::iter`: every quad of the store, each once, in the form the store keeps it in.
    /// A store knows of the graph of every quad it holds. On a store in memory it does not fail.
    #[verifier::external_body]
    pub(crate) fn quads(&self) -> (r: Result<Vec<Quad>, String>)
        ensures
            self.in_memory() ==> r is Ok,
            r matches Ok(quads) ==> {
                &&& in_stored_form(models(quads@))
                &&& models(quads@).no_duplicates()
                &&& self.owned() ==> models(quads@).to_set() == self.contents().quads
                &&& self.owned() ==> forall|i: int|
                    0 <= i < quads@.len() && #[trigger] models(quads@)[i].graph
                        != GraphModel::Default ==> self.contents().graphs.contains(
                        models(quads@)[i].graph,
                    )
            },
    {
        self.store.iter().collect::<Result<Vec<Quad>, _>>().map_err(|e| e.to_string())
    }

    /// `Store::insert`: adds a quad, and makes its graph known. On a store in memory it does not
    /// fail.
    #[verifier::external_body]
    pub(crate) fn insert(&mut self, quad: &Quad) -> (r: Result<(), String>)
        ensures
            final(self).continues(*old(self)),
            old(self).in_memory() ==> r is Ok,
            r is Ok && old(self).owned() ==> final(self).contents()
                == old(self).contents().with_quad(stored_form(quad_model(*quad))),
    {
        self.store.insert(quad).map_err(|e| e.to_string())
    }

    /// `Store::contains`: whether the store holds a quad. On a store in memory it does not fail.
    #[verifier::external_body]
    pub(crate) fn contains(&self, quad: &Quad) -> (r: Result<bool, String>)
        ensures
            self.in_memory() ==> r is Ok,
            r matches Ok(held) ==> self.owned() ==> held == self.contents().quads.contains(
                stored_form(quad_model(*quad)),
            ),
    {
        self.store.contains(quad).map_err(|e| e.to_string())
    }

    /// `Store::named_graphs`: the named graphs the store knows of. On a store in memory it does
    /// not fail.
    #[verifier::external_body]
    pub(crate) fn named_graphs(&self) -> (r: Result<Vec<GraphPlace>, String>)
        ensures
            self.in_memory() ==> r is Ok,
            r matches Ok(names) ==> self.owned() ==> {
                &&& forall|i: int|
                    0 <= i < names@.len() ==> self.contents().graphs.contains(
                        #[trigger] names@[i]@,
                    )
                &&& forall|g: GraphModel| #[trigger]
                    self.contents().graphs.contains(g) ==> exists|i: int|
                        0 <= i < names@.len() && #[trigger] names@[i]@ == g
            },
    {
        let place = |name: NamedOrBlankNode| match name {
            NamedOrBlankNode::NamedNode(n) => GraphPlace::Iri(n.into_string()),
            NamedOrBlankNode::BlankNode(b) => GraphPlace::Blank(b.into_string()),
        };
        let names = self.store.named_graphs().map(|name| name.map(place));
        names.collect::<Result<Vec<GraphPlace>, _>>().map_err(|e| e.to_string())
    }

    /// `Store::len`: how many quads the store holds. On a store in memory it does not fail.
    #[verifier::external_body]
    pub(crate) fn len(&self) -> (r: Result<usize, String>)
        ensures
            self.in_memory() ==> r is Ok,
            r matches Ok(count) ==> exists|contents: DatasetModel| #[trigger]
                self.may_hold(contents) && contents.quads.finite() && count
                    == contents.quads.len(),
    {
        self.store.len().map_err(|e| e.to_string())
    }

    /// `Store::start_transaction`: a transaction that changes nothing yet. It starts from what was
    /// last committed, which is what an owned dataset holds, and what any other in memory holds
    /// until the transaction is over. On a store in memory it does not fail.
    #[verifier::external_body]
    fn start_transaction<'a>(&self, store: &'a Store) -> (r: Result<Transaction<'a>, String>)
        requires
            self.holds(*store),
        ensures
            self.in_memory() ==> r is Ok,
            r matches Ok(transaction) ==> transaction_store(transaction) == *store,
            r matches Ok(transaction) ==> transaction_found(transaction) == transaction_contents(
                transaction,
            ),
            r matches Ok(transaction) ==> self.owned() ==> transaction_contents(transaction)
                == self.contents(),
            r matches Ok(transaction) ==> !self.owned() && self.in_memory() ==> store_states(
                *store,
            ).contains(transaction_contents(transaction)),
    {
        store.start_transaction().map_err(|e| e.to_string())
    }

    /// `Transaction::commit`: makes the changes of a transaction. A transaction is atomic: one
    /// that failed did all of that or nothing. On a store in memory it does not fail.
    #[verifier::external_body]
    fn commit(&mut self, transaction: Transaction<'_>) -> (r: Result<(), String>)
        requires
            old(self).holds(transaction_store(transaction)),
        ensures
            final(self).continues(*old(self)),
            old(self).in_memory() ==> r is Ok,
            r is Err && final(self).untouched_since(*old(self)) || store_changes(
                final(self).spec_store(),
            ) == store_changes(old(self).spec_store()).push(
                Change {
                    found: transaction_found(transaction),
                    left: transaction_contents(transaction),
                },
            ) && (old(self).owned() ==> final(self).contents() == transaction_contents(transaction)),
    {
        transaction.commit().map_err(|e| e.to_string())
    }

    /// Take quads out, put quads into one graph and change the registration of that graph, in
    /// this order and in one transaction. It is done in full or not at all, and on a dataset in
    /// memory it is done.
    pub(crate) fn apply(
        &mut self,
        removed: &Vec<&Quad>,
        added: &Vec<&Quad>,
        graph: &NamedNode,
        registration: Registration,
    ) -> (r: Result<(), String>)
        requires
            in_stored_form(picked(removed@)),
            in_stored_form(picked(added@)),
            forall|i: int|
                0 <= i < added@.len() ==> #[trigger] picked(added@)[i].graph == GraphModel::Iri(
                    graph@,
                ),
        ensures
            final(self).continues(*old(self)),
            old(self).in_memory() ==> r is Ok,
            r is Err && final(self).untouched_since(*old(self)) || final(self).edited_since(
                *old(self),
                picked(removed@).to_set(),
                picked(added@).to_set(),
                GraphModel::Iri(graph@),
                registration,
            ),
    {
        let ghost name = GraphModel::Iri(graph@);
        let ghost out = picked(removed@);
        let ghost come = picked(added@);
        let handle = Arc::clone(&self.store);
        let mut transaction = match self.start_transaction(&handle) {
            Ok(transaction) => transaction,
            Err(reason) => {
                return Err(reason);
            },
        };
        let ghost whole = transaction_contents(transaction);
        let mut i: usize = 0;
        assert(transaction_contents(transaction).quads =~= whole.quads.difference(
            out.take(0).to_set(),
        ));
        while i < removed.len()
            invariant
                i <= removed@.len(),
                out == picked(removed@),
                in_stored_form(out),
                transaction_store(transaction) == *handle,
                transaction_found(transaction) == whole,
                transaction_contents(transaction).quads == whole.quads.difference(
                    out.take(i as int).to_set(),
                ),
                transaction_contents(transaction).graphs == whole.graphs,
            decreases removed@.len() - i,
        {
            remove(&mut transaction, removed[i]);
            proof {
                assert(quad_model(*removed@[i as int]) == out[i as int]);
                lemma_one_more(out, i as int);
                assert(transaction_contents(transaction).quads =~= whole.quads.difference(
                    out.take(i + 1).to_set(),
                ));
            }
            i += 1;
        }
        assert(out.take(removed@.len() as int) == out);
        let ghost less = whole.quads.difference(out.to_set());
        let mut j: usize = 0;
        assert(transaction_contents(transaction).quads =~= less.union(come.take(0).to_set()));
        while j < added.len()
            invariant
                j <= added@.len(),
                come == picked(added@),
                in_stored_form(come),
                name == GraphModel::Iri(graph@),
                forall|k: int| 0 <= k < come.len() ==> #[trigger] come[k].graph == name,
                transaction_store(transaction) == *handle,
                transaction_found(transaction) == whole,
                transaction_contents(transaction).quads == less.union(
                    come.take(j as int).to_set(),
                ),
                transaction_contents(transaction).graphs == if j == 0 {
                    whole.graphs
                } else {
                    whole.graphs.insert(name)
                },
            decreases added@.len() - j,
        {
            insert(&mut transaction, added[j]);
            proof {
                assert(quad_model(*added@[j as int]) == come[j as int]);
                lemma_one_more(come, j as int);
                assert(transaction_contents(transaction).quads =~= less.union(
                    come.take(j + 1).to_set(),
                ));
                assert(transaction_contents(transaction).graphs =~= whole.graphs.insert(name));
            }
            j += 1;
        }
        proof {
            assert(come.take(added@.len() as int) == come);
            if added@.len() > 0 {
                assert(come.to_set().contains(come[0]));
            } else {
                assert(come.to_set() =~= Set::empty());
            }
        }
        match registration {
            Registration::Keep => {},
            Registration::Enter => {
                insert_named_graph(&mut transaction, graph);
            },
            Registration::Remove => match remove_named_graph(&mut transaction, graph) {
                Ok(()) => {},
                Err(reason) => {
                    return Err(reason);
                },
            },
        }
        proof {
            let edited = whole.edited(out.to_set(), come.to_set(), name, registration);
            assert(transaction_contents(transaction).quads =~= edited.quads);
            assert(transaction_contents(transaction).graphs =~= edited.graphs);
        }
        let ghost change = Change { found: whole, left: transaction_contents(transaction) };
        let r = self.commit(transaction);
        proof {
            if !(r is Err && self.untouched_since(*old(self))) {
                assert(self.changed_since(*old(self), change));
            }
        }
        r
    }

    /// `PreparedSparqlUpdate::on_store` and `execute`: runs a SPARQL update in one
    /// transaction. A refusal is the evaluator's own, of this update on what it found; it comes
    /// before the commit, and the transaction is dropped. A transaction is atomic: where the
    /// storage failed, all was done or nothing. A storage in memory does not fail, and has one
    /// transaction at a time.
    #[verifier::external_body]
    pub(crate) fn run(&mut self, update: PreparedSparqlUpdate) -> (r: Result<(), Failure>)
        ensures
            final(self).continues(*old(self)),
            old(self).in_memory() ==> !(r matches Err(Failure::Storage(_))),
            r matches Err(Failure::Storage(_)) ==> final(self).untouched_since(*old(self))
                || final(self).updated_since(*old(self), update_source(update)),
            r is Ok ==> exists|change: Change| #[trigger]
                final(self).changed_since(*old(self), change) && update_may_give(
                    update_source(update),
                    change.found,
                    change.left,
                ),
            r matches Err(Failure::Refused(reason)) ==> exists|found: DatasetModel| #[trigger]
                update_may_fail(update_source(update), found, reason@) && (old(self).owned()
                    || old(self).in_memory() ==> old(self).may_hold(found)),
            r matches Err(Failure::Refused(_)) ==> final(self).untouched_since(*old(self)),
    {
        match update.on_store(&self.store).execute() {
            Ok(()) => Ok(()),
            Err(UpdateEvaluationError::Storage(e)) => Err(Failure::Storage(e.to_string())),
            Err(e) => Err(Failure::Refused(e.to_string())),
        }
    }
}

impl Dataset {
    /// `Store::load_from_reader`: adds the statements of an RDF document in one transaction,
    /// and nothing else. A document that cannot be read is refused before the commit, and the
    /// transaction is dropped; in a syntax for triples or quads, its bytes decide whether it can
    /// be read. A load is atomic: where the storage failed, all was done or nothing. A storage in
    /// memory does not fail, and has one transaction at a time. A syntax for triples puts every
    /// statement into the one graph.
    #[verifier::external_body]
    pub(crate) fn load(
        &mut self,
        format: &RdfFormat,
        graph: Option<&NamedNode>,
        bytes: &[u8],
    ) -> (r: Result<(), Failure>)
        ensures
            final(self).continues(*old(self)),
            old(self).in_memory() ==> !(r matches Err(Failure::Storage(_))),
            is_plain_syntax(*format) && !(r matches Err(Failure::Storage(_))) ==> r is Err
                == document_refused(*format, graph_view(graph), bytes@),
            r matches Err(Failure::Refused(reason)) ==> document_may_be_refused(
                *format,
                graph_view(graph),
                bytes@,
                reason@,
            ) && final(self).untouched_since(*old(self)),
            r is Ok ==> exists|change: Change| #[trigger]
                final(self).changed_since(*old(self), change) && exists|added: Set<QuadModel>|
                    #[trigger] document_may_say(*format, graph_view(graph), bytes@, added) && adds(
                        *format,
                        graph_view(graph),
                        added,
                        change.found,
                        change.left,
                    ),
            r matches Err(Failure::Storage(_)) ==> final(self).untouched_since(*old(self))
                || final(self).loaded_since(*old(self), *format, graph_view(graph), bytes@) && (
            is_plain_syntax(*format) ==> !document_refused(*format, graph_view(graph), bytes@)),
    {
        let parser = RdfParser::from_format(*format);
        let parser = match graph {
            Some(graph) => parser.with_default_graph(NamedNodeRef::new_unchecked(graph.as_str())),
            None => parser,
        };
        match self.store.load_from_reader(parser, bytes) {
            Ok(()) => Ok(()),
            Err(LoaderError::Storage(e)) => Err(Failure::Storage(e.to_string())),
            Err(e) => Err(Failure::Refused(e.to_string())),
        }
    }
}

/// The IRI of a graph, where one is given.
pub open spec fn graph_view(graph: Option<&NamedNode>) -> Option<Seq<char>> {
    match graph {
        Some(graph) => Some(graph@),
        None => None,
    }
}

/// The first elements of a list, and one more.
proof fn lemma_one_more(list: Seq<QuadModel>, i: int)
    requires
        0 <= i < list.len(),
    ensures
        list.take(i + 1).to_set() == list.take(i).to_set().insert(list[i]),
{
    let first = list.take(i);
    let next = list.take(i + 1);
    assert forall|q: QuadModel| next.contains(q) == (first.contains(q) || q == list[i]) by {
        if next.contains(q) {
            let k = choose|k: int| 0 <= k < next.len() && next[k] == q;
            if k < i {
                assert(first[k] == q);
            }
        }
        if first.contains(q) {
            let k = choose|k: int| 0 <= k < first.len() && first[k] == q;
            assert(next[k] == q);
        }
        assert(next[i] == list[i]);
    }
    assert(next.to_set() =~= first.to_set().insert(list[i]));
}

/// `Transaction::remove`: takes a quad out. Its graph stays known.
#[verifier::external_body]
fn remove(transaction: &mut Transaction<'_>, quad: &Quad)
    ensures
        transaction_store(*final(transaction)) == transaction_store(*old(transaction)),
        transaction_found(*final(transaction)) == transaction_found(*old(transaction)),
        transaction_contents(*final(transaction)) == (DatasetModel {
            quads: transaction_contents(*old(transaction)).quads.remove(
                stored_form(quad_model(*quad)),
            ),
            graphs: transaction_contents(*old(transaction)).graphs,
        }),
{
    transaction.remove(quad)
}

/// `Transaction::insert`: puts a quad in, and makes its graph known.
#[verifier::external_body]
fn insert(transaction: &mut Transaction<'_>, quad: &Quad)
    ensures
        transaction_store(*final(transaction)) == transaction_store(*old(transaction)),
        transaction_found(*final(transaction)) == transaction_found(*old(transaction)),
        transaction_contents(*final(transaction)) == transaction_contents(
            *old(transaction),
        ).with_quad(stored_form(quad_model(*quad))),
{
    transaction.insert(quad)
}

/// `Transaction::insert_named_graph`: makes a graph known.
#[verifier::external_body]
fn insert_named_graph(transaction: &mut Transaction<'_>, graph: &NamedNode)
    ensures
        transaction_store(*final(transaction)) == transaction_store(*old(transaction)),
        transaction_found(*final(transaction)) == transaction_found(*old(transaction)),
        transaction_contents(*final(transaction)) == (DatasetModel {
            quads: transaction_contents(*old(transaction)).quads,
            graphs: transaction_contents(*old(transaction)).graphs.insert(
                GraphModel::Iri(graph@),
            ),
        }),
{
    transaction.insert_named_graph(NamedNodeRef::new_unchecked(graph.as_str()))
}

/// `Transaction::remove_named_graph`: takes a graph out with all its quads, and forgets it. On a
/// store in memory it does not fail.
#[verifier::external_body]
fn remove_named_graph(transaction: &mut Transaction<'_>, graph: &NamedNode) -> (r: Result<
    (),
    String,
>)
    ensures
        store_in_memory(transaction_store(*old(transaction))) ==> r is Ok,
        r is Ok ==> transaction_store(*final(transaction)) == transaction_store(*old(transaction)),
        r is Ok ==> transaction_found(*final(transaction)) == transaction_found(*old(transaction)),
        r is Ok ==> transaction_contents(*final(transaction)) == (DatasetModel {
            quads: transaction_contents(*old(transaction)).quads.filter(
                |q: QuadModel| q.graph != GraphModel::Iri(graph@),
            ),
            graphs: transaction_contents(*old(transaction)).graphs.remove(
                GraphModel::Iri(graph@),
            ),
        }),
{
    let name = NamedNodeRef::new_unchecked(graph.as_str());
    transaction.remove_named_graph(name).map_err(|e| e.to_string())
}

/// `Store::new`: a store in memory that holds nothing. It does not fail.
#[verifier::external_body]
fn new_store() -> (r: Result<Store, String>)
    ensures
        r is Ok,
        r matches Ok(store) ==> store_in_memory(store),
        r matches Ok(store) ==> store_quads(store) == Set::<QuadModel>::empty() && store_graphs(
            store,
        ) == Set::<GraphModel>::empty(),
{
    Store::new().map_err(|e| e.to_string())
}

/// `SparqlEvaluator::parse_update`: reads a SPARQL update, or says why the text is not one.
#[verifier::external_body]
pub(crate) fn parse_update(text: &str) -> (r: Result<PreparedSparqlUpdate, String>)
    ensures
        match r {
            Ok(update) => update_source(update) == text@ && !update_refused(text@),
            Err(reason) => update_refused(text@) && update_may_be_refused(text@, reason@),
        },
{
    SparqlEvaluator::new().parse_update(text).map_err(|e| e.to_string())
}

/// The parts of an `oxigraph` `Quad`: its terms as their `Display` writes them, and the name
/// of its graph.
#[verifier::external_body]
pub(crate) fn statement(quad: &Quad) -> (r: Statement)
    ensures
        r@ == quad_model(*quad),
{
    Statement {
        subject: quad.subject.to_string(),
        predicate: quad.predicate.to_string(),
        object: quad.object.to_string(),
        graph: match &quad.graph_name {
            GraphName::DefaultGraph => GraphPlace::Default,
            GraphName::NamedNode(n) => GraphPlace::Iri(n.as_str().to_owned()),
            GraphName::BlankNode(b) => GraphPlace::Blank(b.as_str().to_owned()),
        },
    }
}

} // verus!
