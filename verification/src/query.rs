//! The query resources: four SPARQL forms, each over the whole dataset and over one graph.
//!
//! One resource per form: the form fixes the kind of answer, so it fixes the declared outputs
//! too, and a query of another form is refused rather than served.

use crate::caps::{
    cap_read_graph, read_scope, CAP_READ, GRAPH_UPDATE_THREAD, LOAD_THREAD, UPDATE_THREAD,
};
use crate::dataset::GraphModel;
use crate::error::{outcome, Error, ErrorModel};
use crate::json::json_of_text;
use crate::request::{
    allows, grants, Invocation, InvocationModel, ReprModel, Representation, Verb,
};
use crate::results::{graph_document, serialize_graph, serialize_solutions, solutions_document};
use crate::scope::{
    answer_model, check_variable, confine, names_its_own_dataset, parse_query, parsed_query,
    query_plan, substitute, variable_refusal, Answer, AnswerModel, QueryPlan,
};
use crate::sparql::{bindings_view, bound_by, optional, parse_bindings};
use crate::store::DurableStore;
use crate::term::{iri_refusal, NamedNode, Term, TermModel};
use crate::text::{contains_text, decimal, joined, nat_text, occurs_in, strings};
use oxigraph::sparql::PreparedSparqlQuery;
use vstd::prelude::*;

verus! {

/// A SPARQL query form.
#[derive(Debug, Clone, Copy, PartialEq, Eq, Structural)]
pub enum Form {
    Select,
    Ask,
    Construct,
    Describe,
}

impl Form {
    /// The form's name in a resource's IRI.
    pub open spec fn spec_suffix(self) -> Seq<char> {
        match self {
            Form::Select => "select"@,
            Form::Ask => "ask"@,
            Form::Construct => "construct"@,
            Form::Describe => "describe"@,
        }
    }

    /// The form's keyword.
    pub open spec fn spec_keyword(self) -> Seq<char> {
        match self {
            Form::Select => "SELECT"@,
            Form::Ask => "ASK"@,
            Form::Construct => "CONSTRUCT"@,
            Form::Describe => "DESCRIBE"@,
        }
    }

    /// Whether the form answers with a graph rather than a result set.
    pub open spec fn spec_graph_shaped(self) -> bool {
        self is Construct || self is Describe
    }

    /// The form's name in a resource's IRI.
    pub fn suffix(self) -> (r: &'static str)
        ensures
            r@ == self.spec_suffix(),
    {
        match self {
            Form::Select => "select",
            Form::Ask => "ask",
            Form::Construct => "construct",
            Form::Describe => "describe",
        }
    }

    /// The form's keyword.
    pub fn keyword(self) -> (r: &'static str)
        ensures
            r@ == self.spec_keyword(),
    {
        match self {
            Form::Select => "SELECT",
            Form::Ask => "ASK",
            Form::Construct => "CONSTRUCT",
            Form::Describe => "DESCRIBE",
        }
    }

    /// Whether the form answers with a graph rather than a result set.
    pub fn graph_shaped(self) -> (r: bool)
        ensures
            r == self.spec_graph_shaped(),
    {
        match self {
            Form::Select => false,
            Form::Ask => false,
            Form::Construct => true,
            Form::Describe => true,
        }
    }
}

/// A query resource.
#[derive(Debug, Clone, Copy, PartialEq, Eq, Structural)]
pub struct QueryEndpoint {
    /// The SPARQL form this resource answers.
    pub form: Form,
    /// Whether this is the graph-scoped twin: it takes `graph=`, requires a grant for that
    /// graph, and sees nothing else.
    pub scoped: bool,
}

/// A verb that an endpoint does not support.
pub open spec fn unsupported_error(id: Seq<char>, verb: Verb) -> ErrorModel {
    ErrorModel::Endpoint(id + " does not support the "@ + verb.spec_name() + " verb"@)
}

/// A verb that an endpoint does not support.
pub(crate) fn unsupported(id: &str, verb: Verb) -> (r: Error)
    ensures
        r@ == unsupported_error(id@, verb),
{
    let mut text = id.to_owned();
    text.append(" does not support the ");
    text.append(verb.name());
    text.append(" verb");
    Error::Endpoint(text)
}

/// A `graph` argument that is not an IRI.
pub open spec fn graph_not_iri(graph: Seq<char>, reason: Seq<char>) -> ErrorModel {
    ErrorModel::InvalidArgument {
        name: "graph"@,
        detail: "`"@ + graph + "` is not an IRI: "@ + reason,
    }
}

/// A `graph` argument that is not an IRI.
pub(crate) fn bad_graph(graph: &str, reason: &str) -> (r: Error)
    ensures
        r@ == graph_not_iri(graph@, reason@),
{
    let mut detail = "`".to_owned();
    detail.append(graph);
    detail.append("` is not an IRI: ");
    detail.append(reason);
    Error::InvalidArgument { name: "graph".to_owned(), detail }
}

/// What a form answers with, in words.
pub open spec fn shape_text(graph: bool) -> Seq<char> {
    if graph {
        "a graph"@
    } else {
        "a result set"@
    }
}

/// What a form answers with, in words.
pub fn shape(graph: bool) -> (r: &'static str)
    ensures
        r@ == shape_text(graph),
{
    if graph {
        "a graph"
    } else {
        "a result set"
    }
}

/// A text that is not a SPARQL query.
pub open spec fn not_a_query(reason: Seq<char>) -> ErrorModel {
    ErrorModel::InvalidArgument { name: "query"@, detail: "not a SPARQL query: "@ + reason }
}

/// A bound name that is not the name of a variable.
pub open spec fn not_a_variable(name: Seq<char>, reason: Seq<char>) -> ErrorModel {
    ErrorModel::InvalidArgument {
        name: "bindings"@,
        detail: "`"@ + name + "` is not a variable name: "@ + reason,
    }
}

/// The refusal of a scoped query that carries its own dataset clauses.
pub open spec fn own_dataset_error(form: Form, graph: Seq<char>) -> ErrorModel {
    ErrorModel::InvalidArgument {
        name: "query"@,
        detail: "this query carries its own `FROM` / `FROM NAMED` clauses, and `urn:iki:store:graph-"@
            + form.spec_suffix()
            + "` already fixes the dataset: `graph=` IS the dataset, exactly `FROM <"@ + graph
            + "> FROM NAMED <"@ + graph
            + ">`. The clauses are refused rather than overridden, because answering a `FROM` naming another graph with this graph's rows would be a wrong answer that looked right. Drop them"@,
    }
}

/// The plan with the values of a list bound into it, or the first refusal.
pub open spec fn substituted(plan: QueryPlan, bound: Seq<(Seq<char>, TermModel)>) -> Result<
    QueryPlan,
    ErrorModel,
>
    decreases bound.len(),
{
    if bound.len() == 0 {
        Ok(plan)
    } else {
        match substituted(plan, bound.drop_last()) {
            Err(e) => Err(e),
            Ok(so_far) => match variable_refusal(bound.last().0) {
                Some(reason) => Err(not_a_variable(bound.last().0, reason)),
                None => Ok(
                    QueryPlan {
                        bindings: so_far.bindings.insert(bound.last().0, bound.last().1),
                        ..so_far
                    },
                ),
            },
        }
    }
}

/// The values a request binds. A `bindings` argument that is not a text is refused.
pub open spec fn bound_of(inv: InvocationModel) -> Result<Seq<(Seq<char>, TermModel)>, ErrorModel> {
    match inv.optional_text("bindings"@) {
        Ok(Some(json)) => bound_by(json_of_text(json)),
        Ok(None) => Ok(Seq::empty()),
        Err(e) => Err(e),
    }
}

/// Names with the question mark of a variable, separated by commas.
pub open spec fn variables_text(bound: Seq<(Seq<char>, TermModel)>) -> Seq<char> {
    joined(bound.map_values(|entry: (Seq<char>, TermModel)| "?"@ + entry.0), ", "@)
}

/// A query that could not be answered. The evaluator's refusal of a binding for a variable
/// that the query does not project is told apart by its wording.
pub open spec fn query_refused(reason: Seq<char>, bound: Seq<(Seq<char>, TermModel)>) -> ErrorModel {
    if bound.len() == 0 || !occurs_in("projection"@, reason) {
        ErrorModel::Endpoint("query: "@ + reason)
    } else {
        ErrorModel::InvalidArgument {
            name: "bindings"@,
            detail: reason
                + ". Every bound variable must appear in the query's projection, and this query projects fewer than the "@
                + nat_text(bound.len()) + " bound here ("@ + variables_text(bound)
                + "). Either name it in the SELECT clause or write `SELECT *`; ASK, CONSTRUCT and DESCRIBE have no projection to widen and accept any variable in the pattern. A binding the query does not mention is refused rather than ignored, so that a filter you thought was applied can never silently not be"@,
        }
    }
}

/// An answer that is fresh for as long as nothing is written, where every write is seen; and
/// never kept otherwise.
pub open spec fn fresh(media: Seq<char>, bytes: Seq<u8>, covered: bool) -> ReprModel {
    ReprModel {
        media_type: media,
        charset: "utf-8"@,
        bytes,
        cacheable: covered,
        threads: if covered {
            seq![UPDATE_THREAD@, LOAD_THREAD@, GRAPH_UPDATE_THREAD@]
        } else {
            Seq::empty()
        },
    }
}

/// An answer that is fresh for as long as nothing is written, where every write is seen; and
/// never kept otherwise.
pub fn with_freshness(media: String, bytes: Vec<u8>, covered: bool) -> (r: Representation)
    ensures
        r@ == fresh(media@, bytes@, covered),
{
    let mut threads: Vec<String> = Vec::new();
    if covered {
        threads.push(UPDATE_THREAD.to_owned());
        threads.push(LOAD_THREAD.to_owned());
        threads.push(GRAPH_UPDATE_THREAD.to_owned());
    }
    assert(strings(threads@) =~= fresh(media@, bytes@, covered).threads);
    Representation { media_type: media, charset: "utf-8".to_owned(), bytes, cacheable: covered, threads }
}

impl QueryEndpoint {
    /// This resource's IRI.
    pub open spec fn spec_iri(self) -> Seq<char> {
        if self.scoped {
            "urn:iki:store:graph-"@ + self.form.spec_suffix()
        } else {
            "urn:iki:store:"@ + self.form.spec_suffix()
        }
    }

    /// This resource's description id.
    pub open spec fn spec_name(self) -> Seq<char> {
        if self.scoped {
            "store-graph-"@ + self.form.spec_suffix()
        } else {
            "store-"@ + self.form.spec_suffix()
        }
    }

    /// The refusal of a caller without a grant for the graph.
    pub open spec fn read_denied(self, graph: Seq<char>) -> ErrorModel {
        ErrorModel::Denied(
            "reading graph <"@ + graph + "> through `"@ + self.spec_iri() + "` needs the grant `"@
                + read_scope(graph)
                + "`, which this capability does not hold. A grant names exactly one graph; holding `"@
                + CAP_READ@
                + "` does not imply it, and is instead the authority for `urn:iki:store:"@
                + self.form.spec_suffix() + "` over the whole dataset"@,
        )
    }

    /// The graph a request may read: none in particular where the resource is not scoped.
    pub open spec fn scope_of(self, inv: InvocationModel) -> Result<Option<Seq<char>>, ErrorModel> {
        if !self.scoped {
            Ok(None)
        } else {
            match inv.text("graph"@) {
                Err(e) => Err(e),
                Ok(graph) => match iri_refusal(graph) {
                    Some(reason) => Err(graph_not_iri(graph, reason)),
                    None => if grants(inv.capability, read_scope(graph)) {
                        Ok(Some(graph))
                    } else {
                        Err(self.read_denied(graph))
                    },
                },
            }
        }
    }

    /// The plan for a query within a scope.
    pub open spec fn plan_within(
        self,
        query: Seq<char>,
        target: Option<Seq<char>>,
        bound: Seq<(Seq<char>, TermModel)>,
    ) -> Result<QueryPlan, ErrorModel> {
        match parsed_query(query) {
            Err(reason) => Err(not_a_query(reason)),
            Ok(dataset) => match target {
                Some(graph) => if !dataset.is_default() {
                    Err(own_dataset_error(self.form, graph))
                } else {
                    substituted(
                        QueryPlan::new(query, dataset).confined(GraphModel::Iri(graph)),
                        bound,
                    )
                },
                None => substituted(QueryPlan::new(query, dataset), bound),
            },
        }
    }

    /// What a request will have evaluated: the plan, and the values bound into it. Or why it
    /// is refused before anything is evaluated.
    pub open spec fn planned(self, inv: InvocationModel) -> Result<
        (QueryPlan, Seq<(Seq<char>, TermModel)>),
        ErrorModel,
    > {
        if inv.verb != Verb::Source {
            Err(unsupported_error(self.spec_name(), inv.verb))
        } else {
            match inv.text("query"@) {
                Err(e) => Err(e),
                Ok(query) => match self.scope_of(inv) {
                    Err(e) => Err(e),
                    Ok(target) => match bound_of(inv) {
                        Err(e) => Err(e),
                        Ok(bound) => match self.plan_within(query, target, bound) {
                            Err(e) => Err(e),
                            Ok(plan) => Ok((plan, bound)),
                        },
                    },
                },
            }
        }
    }

    /// The refusal of a query of another shape.
    pub open spec fn wrong_shape(self, is_graph: bool) -> ErrorModel {
        ErrorModel::InvalidArgument {
            name: "query"@,
            detail: "this is `"@ + self.spec_iri() + "`, which answers with "@ + shape_text(
                self.form.spec_graph_shaped(),
            ) + "; that query answers with "@ + shape_text(is_graph)
                + ". Resolve the IRI for its form instead"@,
        }
    }

    /// What is answered when the evaluation ended like this.
    pub open spec fn answered(
        self,
        answer: Result<AnswerModel, Seq<char>>,
        bound: Seq<(Seq<char>, TermModel)>,
        as_type: Option<Seq<char>>,
        covered: bool,
    ) -> Result<ReprModel, ErrorModel> {
        match answer {
            Err(reason) => Err(query_refused(reason, bound)),
            Ok(answer) => if (answer is Graph) != self.form.spec_graph_shaped() {
                Err(self.wrong_shape(answer is Graph))
            } else {
                match if self.form.spec_graph_shaped() {
                    graph_document(answer, as_type)
                } else {
                    solutions_document(answer, as_type)
                } {
                    Err(e) => Err(e),
                    Ok((media, bytes)) => Ok(fresh(media, bytes, covered)),
                }
            },
        }
    }

    /// How a request may be answered. One that is refused is refused before anything is
    /// evaluated; what is evaluated sees the store through its plan alone.
    pub open spec fn served(
        self,
        inv: InvocationModel,
        store: DurableStore,
        r: Result<ReprModel, ErrorModel>,
    ) -> bool {
        match self.planned(inv) {
            Err(e) => r == Err::<ReprModel, ErrorModel>(e),
            Ok((plan, bound)) => match inv.optional_text("as"@) {
                Err(e) => r == Err::<ReprModel, ErrorModel>(e),
                Ok(as_type) => exists|answer: Result<AnswerModel, Seq<char>>| #[trigger]
                    store.spec_dataset().may_answer(plan, answer) && r == self.answered(
                        answer,
                        bound,
                        as_type,
                        store.covered(),
                    ),
            },
        }
    }

    /// This resource's IRI.
    pub fn iri(&self) -> (r: String)
        ensures
            r@ == self.spec_iri(),
    {
        let mut iri = if self.scoped {
            "urn:iki:store:graph-".to_owned()
        } else {
            "urn:iki:store:".to_owned()
        };
        iri.append(self.form.suffix());
        iri
    }

    /// This resource's description id.
    pub fn name(&self) -> (r: String)
        ensures
            r@ == self.spec_name(),
    {
        let mut name = if self.scoped {
            "store-graph-".to_owned()
        } else {
            "store-".to_owned()
        };
        name.append(self.form.suffix());
        name
    }

    /// The graph this request may read, or `None` on the broad form.
    ///
    /// The declared wildcard says that the caller holds some grant; this checks that the
    /// grant names the graph asked for. The broad read scope does not satisfy it.
    pub fn scope(&self, inv: &Invocation<'_>) -> (r: Result<Option<NamedNode>, Error>)
        ensures
            match r {
                Ok(Some(graph)) => self.scope_of(inv@) == Ok::<Option<Seq<char>>, ErrorModel>(
                    Some(graph@),
                ),
                Ok(None) => self.scope_of(inv@) == Ok::<Option<Seq<char>>, ErrorModel>(None),
                Err(e) => self.scope_of(inv@) == Err::<Option<Seq<char>>, ErrorModel>(e@),
            },
    {
        if !self.scoped {
            return Ok(None);
        }
        let graph = match inv.inline_str("graph") {
            Ok(graph) => graph,
            Err(e) => {
                return Err(e);
            },
        };
        let target = match NamedNode::new(graph) {
            Ok(target) => target,
            Err(reason) => {
                return Err(bad_graph(graph, reason.as_str()));
            },
        };
        let scope = cap_read_graph(target.as_str());
        assert(scope@ == read_scope(target@));
        if !allows(inv.capability, scope.as_str()) {
            let mut text = "reading graph <".to_owned();
            text.append(target.as_str());
            text.append("> through `");
            text.append(self.iri().as_str());
            text.append("` needs the grant `");
            text.append(scope.as_str());
            text.append(
                "`, which this capability does not hold. A grant names exactly one graph; holding `",
            );
            text.append(CAP_READ);
            text.append(
                "` does not imply it, and is instead the authority for `urn:iki:store:",
            );
            text.append(self.form.suffix());
            text.append("` over the whole dataset");
            return Err(Error::Denied(text));
        }
        Ok(Some(target))
    }

    /// The values a request binds.
    fn bound(&self, inv: &Invocation<'_>) -> (r: Result<Vec<(String, Term)>, Error>)
        ensures
            match r {
                Ok(list) => bound_of(inv@) == Ok::<Seq<(Seq<char>, TermModel)>, ErrorModel>(
                    bindings_view(list@),
                ),
                Err(e) => bound_of(inv@) == Err::<Seq<(Seq<char>, TermModel)>, ErrorModel>(e@),
            },
    {
        match inv.optional_str("bindings") {
            Ok(Some(json)) => parse_bindings(json),
            Err(e) => Err(e),
            Ok(None) => {
                let none: Vec<(String, Term)> = Vec::new();
                assert(bindings_view(none@) =~= Seq::empty());
                Ok(none)
            },
        }
    }

    /// The refusal of a scoped query that carries its own dataset clauses.
    fn own_dataset(&self, graph: &NamedNode) -> (r: Error)
        ensures
            r@ == own_dataset_error(self.form, graph@),
    {
        let mut detail =
            "this query carries its own `FROM` / `FROM NAMED` clauses, and `urn:iki:store:graph-".to_owned();
        detail.append(self.form.suffix());
        detail.append(
            "` already fixes the dataset: `graph=` IS the dataset, exactly `FROM <",
        );
        detail.append(graph.as_str());
        detail.append("> FROM NAMED <");
        detail.append(graph.as_str());
        detail.append(
            ">`. The clauses are refused rather than overridden, because answering a `FROM` naming another graph with this graph's rows would be a wrong answer that looked right. Drop them",
        );
        Error::InvalidArgument { name: "query".to_owned(), detail }
    }

    /// The query within its scope, with the values of a list bound into it.
    fn plan(&self, query: &str, target: &Option<NamedNode>, bound: &Vec<(String, Term)>) -> (r:
        Result<PreparedSparqlQuery, Error>)
        ensures
            match r {
                Ok(prepared) => self.plan_within(
                    query@,
                    match *target {
                        Some(graph) => Some(graph@),
                        None => None,
                    },
                    bindings_view(bound@),
                ) == Ok::<QueryPlan, ErrorModel>(query_plan(prepared)),
                Err(e) => self.plan_within(
                    query@,
                    match *target {
                        Some(graph) => Some(graph@),
                        None => None,
                    },
                    bindings_view(bound@),
                ) == Err::<QueryPlan, ErrorModel>(e@),
            },
    {
        let mut prepared = match parse_query(query) {
            Ok(prepared) => prepared,
            Err(reason) => {
                let mut detail = "not a SPARQL query: ".to_owned();
                detail.append(reason.as_str());
                return Err(Error::InvalidArgument { name: "query".to_owned(), detail });
            },
        };
        match target {
            Some(graph) => {
                if names_its_own_dataset(&prepared) {
                    return Err(self.own_dataset(graph));
                }
                confine(&mut prepared, graph);
            },
            None => {},
        }
        substitute_all(prepared, bound)
    }

    /// The refusal of a query of another shape.
    fn other_shape(&self, is_graph: bool) -> (r: Error)
        ensures
            r@ == self.wrong_shape(is_graph),
    {
        let mut detail = "this is `".to_owned();
        detail.append(self.iri().as_str());
        detail.append("`, which answers with ");
        detail.append(shape(self.form.graph_shaped()));
        detail.append("; that query answers with ");
        detail.append(shape(is_graph));
        detail.append(". Resolve the IRI for its form instead");
        Error::InvalidArgument { name: "query".to_owned(), detail }
    }

    /// What is answered when the evaluation ended like this.
    ///
    /// A query of the wrong shape is refused, and so is an `as` the form cannot answer in.
    pub fn answer(
        &self,
        answer: Result<Answer, String>,
        bound: &Vec<(String, Term)>,
        as_type: Option<&str>,
        covered: bool,
    ) -> (r: Result<Representation, Error>)
        ensures
            outcome(r) == self.answered(
                answer_model(answer),
                bindings_view(bound@),
                optional(as_type),
                covered,
            ),
    {
        let answer = match answer {
            Ok(answer) => answer,
            Err(reason) => {
                return Err(query_error(reason.as_str(), bound));
            },
        };
        let is_graph = match &answer {
            Answer::Graph(_) => true,
            _ => false,
        };
        if is_graph != self.form.graph_shaped() {
            return Err(self.other_shape(is_graph));
        }
        let written = if self.form.graph_shaped() {
            serialize_graph(&answer, as_type)
        } else {
            serialize_solutions(&answer, as_type)
        };
        match written {
            Ok((media, bytes)) => Ok(with_freshness(media, bytes, covered)),
            Err(e) => Err(e),
        }
    }

    /// Answer a request.
    ///
    /// The grant is checked before anything is parsed or evaluated. What is evaluated sees
    /// the store through the plan alone: on a scoped resource, one graph of it.
    pub fn invoke(&self, store: &DurableStore, inv: &Invocation<'_>) -> (r: Result<
        Representation,
        Error,
    >)
        ensures
            self.served(inv@, *store, outcome(r)),
    {
        if inv.verb != Verb::Source {
            return Err(unsupported(self.name().as_str(), inv.verb));
        }
        let query = match inv.inline_str("query") {
            Ok(query) => query,
            Err(e) => {
                return Err(e);
            },
        };
        let target = match self.scope(inv) {
            Ok(target) => target,
            Err(e) => {
                return Err(e);
            },
        };
        let bound = match self.bound(inv) {
            Ok(bound) => bound,
            Err(e) => {
                return Err(e);
            },
        };
        let prepared = match self.plan(query, &target, &bound) {
            Ok(prepared) => prepared,
            Err(e) => {
                return Err(e);
            },
        };
        let as_type = match inv.optional_str("as") {
            Ok(as_type) => as_type,
            Err(e) => {
                return Err(e);
            },
        };
        let ghost plan = query_plan(prepared);
        let answer = store.dataset().evaluate(prepared);
        let ghost ended = answer_model(answer);
        assert(store.spec_dataset().may_answer(plan, ended));
        self.answer(answer, &bound, as_type, store.is_covered())
    }
}

/// A refusal in a first part of a list is the refusal of the whole.
proof fn lemma_substitution_fails(
    plan: QueryPlan,
    bound: Seq<(Seq<char>, TermModel)>,
    n: int,
    e: ErrorModel,
)
    requires
        0 <= n <= bound.len(),
        substituted(plan, bound.take(n)) == Err::<QueryPlan, ErrorModel>(e),
    ensures
        substituted(plan, bound) == Err::<QueryPlan, ErrorModel>(e),
    decreases bound.len(),
{
    if n == bound.len() {
        assert(bound.take(n) == bound);
    } else {
        assert(bound.drop_last().take(n) == bound.take(n));
        lemma_substitution_fails(plan, bound.drop_last(), n, e);
    }
}

/// Bind the values of a list into a query.
fn substitute_all(begun: PreparedSparqlQuery, bound: &Vec<(String, Term)>) -> (r: Result<
    PreparedSparqlQuery,
    Error,
>)
    ensures
        match r {
            Ok(prepared) => substituted(query_plan(begun), bindings_view(bound@)) == Ok::<
                QueryPlan,
                ErrorModel,
            >(query_plan(prepared)),
            Err(e) => substituted(query_plan(begun), bindings_view(bound@)) == Err::<
                QueryPlan,
                ErrorModel,
            >(e@),
        },
{
    let ghost plan = query_plan(begun);
    let ghost view = bindings_view(bound@);
    let mut prepared = begun;
    let mut i: usize = 0;
    while i < bound.len()
        invariant
            i <= bound@.len(),
            plan == query_plan(begun),
            view == bindings_view(bound@),
            substituted(plan, view.take(i as int)) == Ok::<QueryPlan, ErrorModel>(
                query_plan(prepared),
            ),
        decreases bound@.len() - i,
    {
        let name = bound[i].0.as_str();
        proof {
            assert(view.take(i + 1).drop_last() == view.take(i as int));
            assert(view.take(i + 1).last() == view[i as int]);
        }
        match check_variable(name) {
            None => {},
            Some(reason) => {
                let mut detail = "`".to_owned();
                detail.append(name);
                detail.append("` is not a variable name: ");
                detail.append(reason.as_str());
                let e = Error::InvalidArgument { name: "bindings".to_owned(), detail };
                proof {
                    lemma_substitution_fails(plan, view, i + 1, e@);
                }
                return Err(e);
            },
        }
        prepared = substitute(prepared, name, &bound[i].1);
        i += 1;
    }
    assert(view.take(bound@.len() as int) == view);
    Ok(prepared)
}

/// The bound names with the question mark of a variable, separated by commas.
fn variables(bound: &Vec<(String, Term)>) -> (r: String)
    ensures
        r@ == variables_text(bindings_view(bound@)),
{
    let ghost names = bindings_view(bound@).map_values(
        |entry: (Seq<char>, TermModel)| "?"@ + entry.0,
    );
    let mut out = String::new();
    let mut i: usize = 0;
    while i < bound.len()
        invariant
            i <= bound@.len(),
            names == bindings_view(bound@).map_values(
                |entry: (Seq<char>, TermModel)| "?"@ + entry.0,
            ),
            out@ == joined(names.take(i as int), ", "@),
        decreases bound@.len() - i,
    {
        if i > 0 {
            out.append(", ");
        }
        let mut name = "?".to_owned();
        name.append(bound[i].0.as_str());
        out.append(name.as_str());
        proof {
            assert(names.take(i + 1).drop_last() == names.take(i as int));
            assert(names.take(i + 1).last() == name@);
        }
        i += 1;
    }
    assert(names.take(names.len() as int) == names);
    out
}

/// Make the evaluator's refusal of an unusable binding say what to do about it.
pub fn query_error(reason: &str, bound: &Vec<(String, Term)>) -> (r: Error)
    ensures
        r@ == query_refused(reason@, bindings_view(bound@)),
{
    if bound.len() == 0 || !contains_text(reason, "projection") {
        let mut text = "query: ".to_owned();
        text.append(reason);
        return Error::Endpoint(text);
    }
    let mut detail = reason.to_owned();
    detail.append(
        ". Every bound variable must appear in the query's projection, and this query projects fewer than the ",
    );
    detail.append(decimal(bound.len() as u64).as_str());
    detail.append(" bound here (");
    detail.append(variables(bound).as_str());
    detail.append(
        "). Either name it in the SELECT clause or write `SELECT *`; ASK, CONSTRUCT and DESCRIBE have no projection to widen and accept any variable in the pattern. A binding the query does not mention is refused rather than ignored, so that a filter you thought was applied can never silently not be",
    );
    Error::InvalidArgument { name: "bindings".to_owned(), detail }
}

} // verus!
