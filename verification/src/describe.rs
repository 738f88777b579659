//! How the resources describe themselves.

use crate::caps::{CAP_READ, CAP_READ_GRAPH, CAP_WRITE, CAP_WRITE_GRAPH};
use crate::query::QueryEndpoint;
use crate::request::{ArgSpec, ArgSpecModel, Description, DescriptionModel, Verb};
use crate::results::{GRAPH_OUTPUTS, RESULT_OUTPUTS};
use crate::term::XSD_STRING;
use crate::text::{join, joined, strings, texts};
use crate::write::{
    GraphUpdateEndpoint, InfoEndpoint, LoadEndpoint, UpdateEndpoint, LOAD_FORMATS,
};
use vstd::prelude::*;

verus! {

pub const XSD_ANY_URI: &'static str = "http://www.w3.org/2001/XMLSchema#anyURI";

pub const SCOPED_QUERY_SUMMARY: &'static str = " against the named graph given by `graph` and nothing else, under a grant for that graph alone. The confinement is the evaluator's own dataset specification, not a check over the query text: `graph=G` means exactly `FROM <G> FROM NAMED <G>`, so a `GRAPH <other>` block matches nothing, a `GRAPH ?g` can only bind G, and the store's own default graph is unreachable. A query of another form is refused, not served here, and so is one carrying its own `FROM` clauses.";

pub const BROAD_QUERY_SUMMARY: &'static str = " against the store this host owns. A query of another form is refused, not served here.";

pub const READ_GRAPH_SUMMARY: &'static str = "The one named graph this query may read. The caller must hold `urn:cap:store:read:graph:<this IRI>`.";

pub const BINDINGS_SUMMARY: &'static str = "Values for variables in the query, as a JSON object of name → value, so a value never passes through the SPARQL parser as syntax. A bare JSON string is a plain literal; a number, an `xsd:integer` or `xsd:double`; `true`/`false`, an `xsd:boolean`; and the SPARQL-results term shape (`{\"type\":\"uri\",\"value\":…}`) names an IRI or a typed or language-tagged literal. Every bound variable must appear in the query's projection — `SELECT *` if in doubt — and a binding the query does not mention is refused, not ignored.";

pub const INFO_SUMMARY: &'static str = "Where this store's bytes live, how many quads it holds, and whether its golden-thread coverage is intact (`covered: false` means the raw handle was handed out at construction and no read here can be cached).";

pub const UPDATE_SUMMARY: &'static str = "Apply a SPARQL 1.1 UPDATE to the store. Cuts the golden thread `urn:iki:store:update`, so every cacheable read of this store recomputes.";

pub const UPDATE_CONTENT_SUMMARY: &'static str = "A SPARQL 1.1 UPDATE request (INSERT DATA, DELETE WHERE, …).";

pub const GRAPH_UPDATE_SUMMARY: &'static str = "Apply a SPARQL 1.1 UPDATE that can only affect the named graph given by `graph`, under a grant for that graph alone. The update is evaluated against a dataset containing that graph and nothing else, and is refused in full — with the offending statement named — if anything would land in another graph or in the default graph. It therefore cannot READ another graph either, which is the point: this is a boundary, not a filter. Cuts the golden thread `urn:iki:store:graph-update`.";

pub const GRAPH_UPDATE_CONTENT_SUMMARY: &'static str = "A SPARQL 1.1 UPDATE. Statements must be inside a `GRAPH <…>` block naming the scoped graph: a bare `INSERT DATA { … }` writes the default graph and is refused.";

pub const WRITE_GRAPH_SUMMARY: &'static str = "The one named graph this update may affect. The caller must hold `urn:cap:store:write:graph:<this IRI>`.";

pub const LOAD_SUMMARY: &'static str = "Parse an RDF document and add its statements to the store. The kernel door that replaces the old `load_turtle` side entrance: this one is capability-gated and cuts the golden thread `urn:iki:store:load`.";

pub const LOAD_CONTENT_SUMMARY: &'static str = "The RDF document, in the syntax named by `format`.";

pub const LOAD_FORMAT_SUMMARY: &'static str = "The document's syntax.";

pub const LOAD_GRAPH_SUMMARY: &'static str = "Load into this named graph instead of the default graph. Ignored by quad syntaxes, which name their own graphs.";

/// An argument that must be given.
pub open spec fn required_arg(name: Seq<char>, summary: Seq<char>, class: Seq<char>) -> ArgSpecModel {
    ArgSpecModel {
        name,
        summary,
        class,
        one_of: Seq::empty(),
        default_value: None,
        required: true,
    }
}

/// An argument that may be left out.
pub open spec fn optional_arg(name: Seq<char>, summary: Seq<char>, class: Seq<char>) -> ArgSpecModel {
    ArgSpecModel { required: false, ..required_arg(name, summary, class) }
}

/// An argument that may be left out, with the values it takes. The first is the default.
pub open spec fn choice_arg(name: Seq<char>, summary: Seq<char>, values: Seq<Seq<char>>) -> ArgSpecModel {
    ArgSpecModel {
        one_of: values,
        default_value: Some(values[0]),
        ..optional_arg(name, summary, XSD_STRING@)
    }
}

fn argument(name: &str, summary: &str, class: &str, required: bool) -> (r: ArgSpec)
    ensures
        r@ == if required {
            required_arg(name@, summary@, class@)
        } else {
            optional_arg(name@, summary@, class@)
        },
{
    let one_of: Vec<String> = Vec::new();
    assert(strings(one_of@) =~= Seq::empty());
    ArgSpec {
        name: name.to_owned(),
        summary: summary.to_owned(),
        class: class.to_owned(),
        one_of,
        default_value: None,
        required,
    }
}

fn choice(name: &str, summary: &str, values: &[&'static str]) -> (r: ArgSpec)
    requires
        values@.len() > 0,
    ensures
        r@ == choice_arg(name@, summary@, texts(values@)),
{
    ArgSpec {
        name: name.to_owned(),
        summary: summary.to_owned(),
        class: XSD_STRING.to_owned(),
        one_of: owned(values),
        default_value: Some(values[0].to_owned()),
        required: false,
    }
}

/// The texts of a list, each its own.
fn owned(list: &[&'static str]) -> (r: Vec<String>)
    ensures
        strings(r@) == texts(list@),
{
    let mut out: Vec<String> = Vec::new();
    let mut i: usize = 0;
    while i < list.len()
        invariant
            i <= list@.len(),
            strings(out@) == texts(list@).take(i as int),
        decreases list@.len() - i,
    {
        let ghost before = out@;
        out.push(list[i].to_owned());
        proof {
            assert(strings(out@) == strings(before).push(list@[i as int]@));
            assert(texts(list@).take(i + 1) == texts(list@).take(i as int).push(
                texts(list@)[i as int],
            ));
        }
        i += 1;
    }
    assert(texts(list@).take(list@.len() as int) == texts(list@));
    out
}

/// The two verbs of a resource that is read.
pub open spec fn reading() -> Seq<Verb> {
    seq![Verb::Source, Verb::Meta]
}

/// The two verbs of a resource that is written to.
pub open spec fn writing() -> Seq<Verb> {
    seq![Verb::Sink, Verb::Meta]
}

impl QueryEndpoint {
    /// The media types this resource answers in.
    pub open spec fn outputs(self) -> Seq<Seq<char>> {
        if self.form.spec_graph_shaped() {
            texts(GRAPH_OUTPUTS@)
        } else {
            texts(RESULT_OUTPUTS@)
        }
    }

    /// The arguments this resource takes besides the graph.
    pub open spec fn query_inputs(self) -> Seq<ArgSpecModel> {
        seq![
            required_arg(
                "query"@,
                "A SPARQL "@ + self.form.spec_keyword() + " query."@,
                XSD_STRING@,
            ),
            optional_arg("bindings"@, BINDINGS_SUMMARY@, XSD_STRING@),
            choice_arg(
                "as"@,
                "Result serialization; one of "@ + joined(self.outputs(), ", "@)
                    + ". An `as` this form cannot answer in is refused, never substituted."@,
                self.outputs(),
            ),
        ]
    }

    /// How this resource describes itself.
    pub open spec fn description(self) -> DescriptionModel {
        let form = self.form.spec_keyword();
        if self.scoped {
            DescriptionModel {
                id: self.spec_name(),
                title: "SPARQL "@ + form + " confined to one named graph"@,
                summary: "Evaluate a SPARQL "@ + form + SCOPED_QUERY_SUMMARY@,
                verbs: reading(),
                capability: CAP_READ_GRAPH@,
                inputs: seq![required_arg("graph"@, READ_GRAPH_SUMMARY@, XSD_ANY_URI@)]
                    + self.query_inputs(),
                outputs: self.outputs(),
            }
        } else {
            DescriptionModel {
                id: self.spec_name(),
                title: "SPARQL "@ + form + " over the durable store"@,
                summary: "Evaluate a SPARQL "@ + form + BROAD_QUERY_SUMMARY@,
                verbs: reading(),
                capability: CAP_READ@,
                inputs: self.query_inputs(),
                outputs: self.outputs(),
            }
        }
    }

    /// How this resource describes itself.
    pub fn describe(&self) -> (r: Description)
        ensures
            r@ == self.description(),
    {
        let keyword = self.form.keyword();
        let mut title = "SPARQL ".to_owned();
        title.append(keyword);
        let mut summary = "Evaluate a SPARQL ".to_owned();
        summary.append(keyword);
        let mut query_summary = "A SPARQL ".to_owned();
        query_summary.append(keyword);
        query_summary.append(" query.");
        let mut as_summary = "Result serialization; one of ".to_owned();
        as_summary.append(
            (if self.form.graph_shaped() {
                join(&GRAPH_OUTPUTS, ", ")
            } else {
                join(&RESULT_OUTPUTS, ", ")
            }).as_str(),
        );
        as_summary.append(
            ". An `as` this form cannot answer in is refused, never substituted.",
        );
        let (selector, outputs) = if self.form.graph_shaped() {
            (choice("as", as_summary.as_str(), &GRAPH_OUTPUTS), owned(&GRAPH_OUTPUTS))
        } else {
            (choice("as", as_summary.as_str(), &RESULT_OUTPUTS), owned(&RESULT_OUTPUTS))
        };
        let mut inputs: Vec<ArgSpec> = Vec::new();
        let capability = if self.scoped {
            title.append(" confined to one named graph");
            summary.append(SCOPED_QUERY_SUMMARY);
            inputs.push(argument("graph", READ_GRAPH_SUMMARY, XSD_ANY_URI, true));
            CAP_READ_GRAPH
        } else {
            title.append(" over the durable store");
            summary.append(BROAD_QUERY_SUMMARY);
            CAP_READ
        };
        inputs.push(argument("query", query_summary.as_str(), XSD_STRING, true));
        inputs.push(argument("bindings", BINDINGS_SUMMARY, XSD_STRING, false));
        inputs.push(selector);
        let verbs = vec![Verb::Source, Verb::Meta];
        assert(verbs@ =~= reading());
        assert(inputs@.map_values(|input: ArgSpec| input@) =~= self.description().inputs);
        Description {
            id: self.name(),
            title,
            summary,
            verbs,
            capability: capability.to_owned(),
            inputs,
            outputs,
        }
    }
}

impl InfoEndpoint {
    /// How this resource describes itself.
    pub open spec fn description(self) -> DescriptionModel {
        DescriptionModel {
            id: "store-info"@,
            title: "Store backing and size"@,
            summary: INFO_SUMMARY@,
            verbs: reading(),
            capability: CAP_READ@,
            inputs: Seq::empty(),
            outputs: seq!["text/plain"@],
        }
    }

    /// How this resource describes itself.
    pub fn describe(&self) -> (r: Description)
        ensures
            r@ == self.description(),
    {
        let verbs = vec![Verb::Source, Verb::Meta];
        let inputs: Vec<ArgSpec> = Vec::new();
        let outputs = vec!["text/plain".to_owned()];
        assert(verbs@ =~= reading());
        assert(inputs@.map_values(|input: ArgSpec| input@) =~= Seq::empty());
        assert(strings(outputs@) =~= seq!["text/plain"@]);
        Description {
            id: "store-info".to_owned(),
            title: "Store backing and size".to_owned(),
            summary: INFO_SUMMARY.to_owned(),
            verbs,
            capability: CAP_READ.to_owned(),
            inputs,
            outputs,
        }
    }
}

/// The description of a resource that is written to and answers with a text.
fn writer(id: &str, title: &str, summary: &str, capability: &str, inputs: Vec<ArgSpec>) -> (r:
    Description)
    ensures
        r@ == (DescriptionModel {
            id: id@,
            title: title@,
            summary: summary@,
            verbs: writing(),
            capability: capability@,
            inputs: inputs@.map_values(|input: ArgSpec| input@),
            outputs: seq!["text/plain"@],
        }),
{
    let verbs = vec![Verb::Sink, Verb::Meta];
    let outputs = vec!["text/plain".to_owned()];
    assert(verbs@ =~= writing());
    assert(strings(outputs@) =~= seq!["text/plain"@]);
    Description {
        id: id.to_owned(),
        title: title.to_owned(),
        summary: summary.to_owned(),
        verbs,
        capability: capability.to_owned(),
        inputs,
        outputs,
    }
}

impl UpdateEndpoint {
    /// How this resource describes itself.
    pub open spec fn description(self) -> DescriptionModel {
        DescriptionModel {
            id: "store-update"@,
            title: "SPARQL UPDATE against the durable store"@,
            summary: UPDATE_SUMMARY@,
            verbs: writing(),
            capability: CAP_WRITE@,
            inputs: seq![required_arg("content"@, UPDATE_CONTENT_SUMMARY@, XSD_STRING@)],
            outputs: seq!["text/plain"@],
        }
    }

    /// How this resource describes itself.
    pub fn describe(&self) -> (r: Description)
        ensures
            r@ == self.description(),
    {
        let inputs = vec![argument("content", UPDATE_CONTENT_SUMMARY, XSD_STRING, true)];
        assert(inputs@.map_values(|input: ArgSpec| input@) =~= self.description().inputs);
        writer(
            "store-update",
            "SPARQL UPDATE against the durable store",
            UPDATE_SUMMARY,
            CAP_WRITE,
            inputs,
        )
    }
}

impl GraphUpdateEndpoint {
    /// How this resource describes itself.
    pub open spec fn description(self) -> DescriptionModel {
        DescriptionModel {
            id: "store-graph-update"@,
            title: "SPARQL UPDATE confined to one named graph"@,
            summary: GRAPH_UPDATE_SUMMARY@,
            verbs: writing(),
            capability: CAP_WRITE_GRAPH@,
            inputs: seq![
                required_arg("content"@, GRAPH_UPDATE_CONTENT_SUMMARY@, XSD_STRING@),
                required_arg("graph"@, WRITE_GRAPH_SUMMARY@, XSD_ANY_URI@),
            ],
            outputs: seq!["text/plain"@],
        }
    }

    /// How this resource describes itself.
    pub fn describe(&self) -> (r: Description)
        ensures
            r@ == self.description(),
    {
        let inputs = vec![
            argument("content", GRAPH_UPDATE_CONTENT_SUMMARY, XSD_STRING, true),
            argument("graph", WRITE_GRAPH_SUMMARY, XSD_ANY_URI, true),
        ];
        assert(inputs@.map_values(|input: ArgSpec| input@) =~= self.description().inputs);
        writer(
            "store-graph-update",
            "SPARQL UPDATE confined to one named graph",
            GRAPH_UPDATE_SUMMARY,
            CAP_WRITE_GRAPH,
            inputs,
        )
    }
}

impl LoadEndpoint {
    /// How this resource describes itself.
    pub open spec fn description(self) -> DescriptionModel {
        DescriptionModel {
            id: "store-load"@,
            title: "Bulk-load an RDF document into the durable store"@,
            summary: LOAD_SUMMARY@,
            verbs: writing(),
            capability: CAP_WRITE@,
            inputs: seq![
                required_arg("content"@, LOAD_CONTENT_SUMMARY@, XSD_STRING@),
                choice_arg("format"@, LOAD_FORMAT_SUMMARY@, texts(LOAD_FORMATS@)),
                optional_arg("graph"@, LOAD_GRAPH_SUMMARY@, XSD_ANY_URI@),
            ],
            outputs: seq!["text/plain"@],
        }
    }

    /// How this resource describes itself.
    pub fn describe(&self) -> (r: Description)
        ensures
            r@ == self.description(),
    {
        let inputs = vec![
            argument("content", LOAD_CONTENT_SUMMARY, XSD_STRING, true),
            choice("format", LOAD_FORMAT_SUMMARY, &LOAD_FORMATS),
            argument("graph", LOAD_GRAPH_SUMMARY, XSD_ANY_URI, false),
        ];
        assert(inputs@.map_values(|input: ArgSpec| input@) =~= self.description().inputs);
        writer(
            "store-load",
            "Bulk-load an RDF document into the durable store",
            LOAD_SUMMARY,
            CAP_WRITE,
            inputs,
        )
    }
}

} // verus!
