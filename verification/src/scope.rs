//! Running an arbitrary SPARQL query with an exact per-graph read scope.
//!
//! SPARQL has a notion of which dataset a query sees, and `oxigraph` exposes it: a prepared
//! query carries a dataset specification, and setting it before evaluation confines the query
//! by construction. Nothing is copied and nothing is compared. [`confine`] sets both halves
//! of the specification to one graph:
//!
//! - the default graph becomes the graph, so a bare `{ ?s ?p ?o }` reads it;
//! - the available named graphs become exactly that graph, so `GRAPH <other>` matches nothing
//!   and `GRAPH ?g` can only bind it.
//!
//! That is `FROM <G> FROM NAMED <G>`. It is deliberately not the store's own default graph,
//! which has no IRI and so no grant that could name it.

use crate::dataset::{Dataset, DatasetModel, GraphModel, QuadModel};
use crate::term::{Annotation, NamedNode, Term, TermModel};
use oxigraph::model::{GraphName, NamedOrBlankNode, Triple, Variable};
use oxigraph::sparql::{PreparedSparqlQuery, QueryResults, QuerySolution, SparqlEvaluator};
use vstd::prelude::*;

verus! {

#[verifier::external_type_specification]
#[verifier::external_body]
pub struct ExPreparedSparqlQuery(PreparedSparqlQuery);

#[verifier::external_type_specification]
#[verifier::external_body]
pub struct ExQuerySolution(QuerySolution);

#[verifier::external_type_specification]
#[verifier::external_body]
pub struct ExTriple(Triple);

/// Which graphs a query sees: those that make up its default graph, and those it can name.
/// `None` stands for all of them.
pub struct DatasetSpec {
    pub default: Option<Seq<GraphModel>>,
    pub named: Option<Seq<GraphModel>>,
}

impl DatasetSpec {
    /// What a query without dataset clauses sees.
    pub open spec fn is_default(self) -> bool {
        self.default == Some(seq![GraphModel::Default]) && self.named == None::<Seq<GraphModel>>
    }

    /// One graph, as the default graph and as the only named one.
    pub open spec fn confined(graph: GraphModel) -> DatasetSpec {
        DatasetSpec { default: Some(seq![graph]), named: Some(seq![graph]) }
    }
}

/// A query that is ready to run: its text, the graphs it sees and the values bound into it.
#[verifier::ext_equal]
pub struct QueryPlan {
    pub text: Seq<char>,
    pub dataset: DatasetSpec,
    pub bindings: Map<Seq<char>, TermModel>,
}

impl QueryPlan {
    /// A query with nothing bound into it.
    pub open spec fn new(text: Seq<char>, dataset: DatasetSpec) -> QueryPlan {
        QueryPlan { text, dataset, bindings: Map::empty() }
    }

    /// The same query, seeing one graph and nothing else.
    pub open spec fn confined(self, graph: GraphModel) -> QueryPlan {
        QueryPlan { dataset: DatasetSpec::confined(graph), ..self }
    }
}

impl DatasetModel {
    /// The part of a dataset that a query sees.
    pub open spec fn visible(self, spec: DatasetSpec) -> DatasetModel {
        DatasetModel {
            quads: self.quads.filter(
                |q: QuadModel|
                    {
                        ||| spec.default is None
                        ||| spec.default->Some_0.contains(q.graph)
                        ||| spec.named is None && q.graph != GraphModel::Default
                        ||| spec.named is Some && spec.named->Some_0.contains(q.graph)
                    },
            ),
            graphs: self.graphs.filter(
                |g: GraphModel| spec.named is None || spec.named->Some_0.contains(g),
            ),
        }
    }
}

/// What a query gave back.
pub enum Answer {
    /// A SELECT: the variables, and the rows up to the first failure and beyond.
    Solutions { variables: Vec<String>, rows: Vec<Result<QuerySolution, String>> },
    /// An ASK.
    Boolean(bool),
    /// A CONSTRUCT or a DESCRIBE.
    Graph(Vec<Result<Triple, String>>),
}

/// [`Answer`] over mathematical sequences.
pub enum AnswerModel {
    Solutions { variables: Seq<Seq<char>>, rows: Seq<Result<QuerySolution, Seq<char>>> },
    Boolean(bool),
    Graph(Seq<Result<Triple, Seq<char>>>),
}

/// The rows of an answer with their errors taken by their texts.
pub open spec fn fallible<T>(items: Seq<Result<T, String>>) -> Seq<Result<T, Seq<char>>> {
    items.map_values(
        |item: Result<T, String>|
            match item {
                Ok(value) => Ok::<T, Seq<char>>(value),
                Err(reason) => Err::<T, Seq<char>>(reason@),
            },
    )
}

impl View for Answer {
    type V = AnswerModel;

    open spec fn view(&self) -> AnswerModel {
        match self {
            Answer::Solutions { variables, rows } => AnswerModel::Solutions {
                variables: crate::text::strings(variables@),
                rows: fallible(rows@),
            },
            Answer::Boolean(value) => AnswerModel::Boolean(*value),
            Answer::Graph(triples) => AnswerModel::Graph(fallible(triples@)),
        }
    }
}

/// The result of running a query, with its error taken by its text.
pub open spec fn answer_model(r: Result<Answer, String>) -> Result<AnswerModel, Seq<char>> {
    match r {
        Ok(answer) => Ok(answer@),
        Err(reason) => Err(reason@),
    }
}

/// What an `oxigraph` prepared query will do.
pub uninterp spec fn query_plan(query: PreparedSparqlQuery) -> QueryPlan;

/// Which graphs a SPARQL query sees by its own dataset clauses, or why `oxigraph` does not
/// take the text for a query.
pub uninterp spec fn parsed_query(text: Seq<char>) -> Result<DatasetSpec, Seq<char>>;

/// Whether a query over the part of a dataset that it sees may end like this. Rows come in
/// any order, and a query may ask for the time or a random number.
pub uninterp spec fn query_may_answer(
    plan: QueryPlan,
    visible: DatasetModel,
    answer: Result<AnswerModel, Seq<char>>,
) -> bool;

/// Why `oxigraph` does not take a text for the name of a variable; `None` where it does.
pub uninterp spec fn variable_refusal(name: Seq<char>) -> Option<Seq<char>>;

/// `SparqlEvaluator::parse_query`: reads a SPARQL query, or says why the text is not one.
/// Nothing is bound into it yet.
#[verifier::external_body]
pub(crate) fn parse_query(text: &str) -> (r: Result<PreparedSparqlQuery, String>)
    ensures
        match r {
            Ok(query) => {
                &&& parsed_query(text@) == Ok::<DatasetSpec, Seq<char>>(query_plan(query).dataset)
                &&& query_plan(query) == QueryPlan::new(text@, query_plan(query).dataset)
            },
            Err(reason) => parsed_query(text@) == Err::<DatasetSpec, Seq<char>>(reason@),
        },
{
    SparqlEvaluator::new().parse_query(text).map_err(|e| e.to_string())
}

/// `QueryDatasetSpecification::is_default_dataset`: whether a query sees what a query without
/// dataset clauses sees.
#[verifier::external_body]
fn has_default_dataset(prepared: &PreparedSparqlQuery) -> (r: bool)
    ensures
        r == query_plan(*prepared).dataset.is_default(),
{
    prepared.dataset().is_default_dataset()
}

/// `QueryDatasetSpecification::set_default_graph` with one graph.
#[verifier::external_body]
fn set_default_graph(prepared: &mut PreparedSparqlQuery, graph: &NamedNode)
    ensures
        query_plan(*final(prepared)) == (QueryPlan {
            dataset: DatasetSpec {
                default: Some(seq![GraphModel::Iri(graph@)]),
                named: query_plan(*old(prepared)).dataset.named,
            },
            ..query_plan(*old(prepared))
        }),
{
    let name = oxigraph::model::NamedNode::new_unchecked(graph.as_str());
    prepared.dataset_mut().set_default_graph(vec![GraphName::from(name)]);
}

/// `QueryDatasetSpecification::set_available_named_graphs` with one graph.
#[verifier::external_body]
fn set_available_named_graphs(prepared: &mut PreparedSparqlQuery, graph: &NamedNode)
    ensures
        query_plan(*final(prepared)) == (QueryPlan {
            dataset: DatasetSpec {
                default: query_plan(*old(prepared)).dataset.default,
                named: Some(seq![GraphModel::Iri(graph@)]),
            },
            ..query_plan(*old(prepared))
        }),
{
    let name = oxigraph::model::NamedNode::new_unchecked(graph.as_str());
    prepared.dataset_mut().set_available_named_graphs(vec![NamedOrBlankNode::from(name)]);
}

/// `Variable::new`: whether a text can name a variable.
#[verifier::external_body]
pub(crate) fn check_variable(name: &str) -> (r: Option<String>)
    ensures
        match r {
            None => variable_refusal(name@) == None::<Seq<char>>,
            Some(reason) => variable_refusal(name@) == Some(reason@),
        },
{
    Variable::new(name).err().map(|e| e.to_string())
}

/// `PreparedSparqlQuery::substitute_variable`: binds a value to a variable. A later value
/// for the same variable takes the place of an earlier one.
#[verifier::external_body]
pub(crate) fn substitute(prepared: PreparedSparqlQuery, name: &str, term: &Term) -> (r:
    PreparedSparqlQuery)
    ensures
        query_plan(r) == (QueryPlan {
            bindings: query_plan(prepared).bindings.insert(name@, term@),
            ..query_plan(prepared)
        }),
{
    let term: oxigraph::model::Term = match term {
        Term::NamedNode(node) => oxigraph::model::NamedNode::new_unchecked(node.as_str()).into(),
        Term::BlankNode(label) => oxigraph::model::BlankNode::new_unchecked(label.as_str()).into(),
        Term::Literal(literal) => match literal.annotation() {
            Annotation::Plain => oxigraph::model::Literal::new_simple_literal(literal.value()).into(),
            Annotation::Language(tag) => oxigraph::model::Literal::new_language_tagged_literal_unchecked(literal.value(), tag.as_str()).into(),
            Annotation::Datatype(datatype) => oxigraph::model::Literal::new_typed_literal(literal.value(), oxigraph::model::NamedNode::new_unchecked(datatype.as_str())).into(),
        },
    };
    prepared.substitute_variable(Variable::new_unchecked(name), term)
}

impl Dataset {
    /// Whether a query may end like this over something that a reader may find in the dataset.
    pub open spec fn may_answer(
        &self,
        plan: QueryPlan,
        answer: Result<AnswerModel, Seq<char>>,
    ) -> bool {
        exists|contents: DatasetModel| #[trigger]
            self.may_hold(contents) && query_may_answer(
                plan,
                contents.visible(plan.dataset),
                answer,
            )
    }

    /// `PreparedSparqlQuery::on_store` and `execute`, with the rows or triples read to the
    /// end. The evaluator reads one snapshot of the store, and only through the query's dataset
    /// specification.
    #[verifier::external_body]
    pub(crate) fn evaluate(&self, query: PreparedSparqlQuery) -> (r: Result<Answer, String>)
        ensures
            self.may_answer(query_plan(query), answer_model(r)),
            self.owned() ==> query_may_answer(
                query_plan(query),
                self.contents().visible(query_plan(query).dataset),
                answer_model(r),
            ),
    {
        match query.on_store(self.handle()).execute() {
            Ok(QueryResults::Solutions(solutions)) => Ok(Answer::Solutions {
                variables: solutions.variables().iter().map(|v| v.as_str().to_owned()).collect(),
                rows: solutions.map(|row| row.map_err(|e| e.to_string())).collect(),
            }),
            Ok(QueryResults::Boolean(value)) => Ok(Answer::Boolean(value)),
            Ok(QueryResults::Graph(triples)) => Ok(
                Answer::Graph(triples.map(|triple| triple.map_err(|e| e.to_string())).collect()),
            ),
            Err(e) => Err(e.to_string()),
        }
    }
}

/// Confine a prepared query to `graph`: it becomes the default graph and the only available
/// named graph.
///
/// The caller must already hold the authority over the graph: this is the mechanism, not the
/// gate. It comes after parsing and before evaluation.
pub fn confine(prepared: &mut PreparedSparqlQuery, graph: &NamedNode)
    ensures
        query_plan(*final(prepared)) == query_plan(*old(prepared)).confined(
            GraphModel::Iri(graph@),
        ),
{
    set_default_graph(prepared, graph);
    set_available_named_graphs(prepared, graph);
}

/// Whether the query text carried its own `FROM` or `FROM NAMED` clauses.
///
/// [`confine`] overwrites whatever the query asked for, so a `FROM <other>` cannot widen the
/// scope. But answering it with another graph's rows would be a wrong answer that looked
/// right, so the scoped endpoints refuse it.
pub fn names_its_own_dataset(prepared: &PreparedSparqlQuery) -> (r: bool)
    ensures
        r == !query_plan(*prepared).dataset.is_default(),
{
    !has_default_dataset(prepared)
}

/// A query confined to a graph sees that graph of a dataset and nothing else.
pub proof fn a_confined_query_sees_one_graph(contents: DatasetModel, graph: GraphModel)
    ensures
        contents.visible(DatasetSpec::confined(graph)) == contents.only(graph),
{
    let seen = contents.visible(DatasetSpec::confined(graph));
    assert(seq![graph].contains(graph)) by {
        assert(seq![graph][0] == graph);
    }
    assert(seen.quads =~= contents.only(graph).quads);
    assert(seen.graphs =~= contents.only(graph).graphs);
}

/// Two datasets that agree on a graph are the same to a query confined to it. So nothing in
/// another graph, nor in the store's default graph, can change what it answers.
pub proof fn a_confined_query_depends_on_one_graph(
    one: DatasetModel,
    two: DatasetModel,
    graph: GraphModel,
)
    requires
        forall|q: QuadModel| q.graph == graph ==> one.quads.contains(q) == two.quads.contains(q),
        one.graphs.contains(graph) == two.graphs.contains(graph),
    ensures
        one.visible(DatasetSpec::confined(graph)) == two.visible(DatasetSpec::confined(graph)),
{
    a_confined_query_sees_one_graph(one, graph);
    a_confined_query_sees_one_graph(two, graph);
    assert(one.only(graph).quads =~= two.only(graph).quads);
    assert(one.only(graph).graphs =~= two.only(graph).graphs);
}

/// The dataset clauses of a query have no effect once it is confined: two queries with the
/// same text and the same values bound become the same query.
pub proof fn a_dataset_clause_cannot_widen_the_confinement(
    one: QueryPlan,
    two: QueryPlan,
    graph: GraphModel,
)
    requires
        one.text == two.text,
        one.bindings == two.bindings,
    ensures
        one.confined(graph) == two.confined(graph),
{
}

} // verus!
