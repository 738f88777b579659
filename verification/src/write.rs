//! The resources that write, and the one that tells how much there is.
//!
//! Two doors to write through, a wide one and a narrow one: `urn:iki:store:update` takes any
//! SPARQL update under a scope that is the keys to the store, and
//! `urn:iki:store:graph-update` takes any SPARQL update under a grant for one graph and lets
//! it affect that graph alone.

use crate::caps::{cap_write_graph, write_scope};
use crate::confine::{
    evaluated, not_an_update, scoped_failure, scoped_success, scoped_update, update_failed, Applied,
};
use crate::dataset::{
    document_may_be_refused, document_refused, graph_view, loaded, parse_update,
    update_may_be_refused, update_may_fail, update_refused, Change, Dataset, DatasetModel, Failure,
};
use crate::error::{outcome, Error, ErrorModel};
use crate::query::{bad_graph, fresh, graph_not_iri, unsupported, unsupported_error, with_freshness};
use crate::request::{
    allows, grants, Invocation, InvocationModel, ReprModel, Representation, Verb,
};
use crate::results::{
    format_of, is_plain_syntax, names_graphs, names_own_graphs, rdf_format, rdf_format_named,
};
use crate::store::{Backing, BackingModel, DurableStore};
use crate::term::{iri_refusal, NamedNode};
use crate::text::{decimal, join, joined, nat_text, strings, texts};
use oxigraph::io::RdfFormat;
use vstd::prelude::*;
use vstd::string::StrSliceExecFns;
use vstd::utf8::encode_utf8;

verus! {

/// Input syntaxes that `urn:iki:store:load` declares, the default first.
pub const LOAD_FORMATS: [&'static str; 5] = [
    "text/turtle",
    "application/n-triples",
    "application/n-quads",
    "application/trig",
    "application/rdf+xml",
];

/// A text as an answer.
pub open spec fn plain_model(text: Seq<char>) -> ReprModel {
    ReprModel {
        media_type: "text/plain"@,
        charset: "utf-8"@,
        bytes: encode_utf8(text),
        cacheable: false,
        threads: Seq::empty(),
    }
}

/// A text as an answer.
pub fn plain(text: &str) -> (r: Representation)
    ensures
        r@ == plain_model(text@),
{
    let threads: Vec<String> = Vec::new();
    assert(strings(threads@) =~= Seq::empty());
    Representation {
        media_type: "text/plain".to_owned(),
        charset: "utf-8".to_owned(),
        bytes: text.as_bytes_vec(),
        cacheable: false,
        threads,
    }
}

/// A failure to count the quads of the store.
pub open spec fn counting_failed(reason: Seq<char>) -> ErrorModel {
    ErrorModel::Endpoint("counting quads: "@ + reason)
}

/// Whether an error reports a failure to count the quads of the store.
pub open spec fn is_counting_error(error: ErrorModel) -> bool {
    exists|reason: Seq<char>| error == #[trigger] counting_failed(reason)
}

/// What became of counting the quads of the store.
pub fn counted(count: Result<usize, String>) -> (r: Result<usize, Error>)
    ensures
        match count {
            Ok(quads) => r == Ok::<usize, Error>(quads),
            Err(reason) => r matches Err(e) && e@ == counting_failed(reason@),
        },
{
    match count {
        Ok(quads) => Ok(quads),
        Err(reason) => {
            let mut text = "counting quads: ".to_owned();
            text.append(reason.as_str());
            Err(Error::Endpoint(text))
        },
    }
}

/// How many quads a dataset holds.
fn count(dataset: &Dataset) -> (r: Result<usize, Error>)
    ensures
        match r {
            Ok(quads) => exists|contents: DatasetModel| #[trigger]
                dataset.may_hold(contents) && quads == contents.quads.len(),
            Err(e) => is_counting_error(e@) && !dataset.in_memory(),
        },
{
    counted(dataset.len())
}

/// The refusal of a `bindings` argument on a write.
pub open spec fn no_bindings_error(iri: Seq<char>) -> ErrorModel {
    ErrorModel::InvalidArgument {
        name: "bindings"@,
        detail: "`"@ + iri
            + "` takes a SPARQL UPDATE and cannot bind values into it: oxigraph offers variable substitution for queries and none for updates, and this crate will not fake it by rewriting the update's text. Build the terms with `ikigai_store::sparql::{literal, iri, typed_literal, integer, boolean}`, which do not escape anything — they construct an RDF term and let oxigraph serialize it, so there is one escaper in the system and it is the one that owns the grammar"@,
    }
}

/// Refuse a `bindings` argument on a write, rather than accepting one that would do nothing.
fn no_bindings(inv: &Invocation<'_>, iri: &str) -> (r: Result<(), Error>)
    ensures
        match r {
            Ok(()) => !inv@.has("bindings"@),
            Err(e) => inv@.has("bindings"@) && e@ == no_bindings_error(iri@),
        },
{
    if !inv.has_arg("bindings") {
        return Ok(());
    }
    let mut detail = "`".to_owned();
    detail.append(iri);
    detail.append(
        "` takes a SPARQL UPDATE and cannot bind values into it: oxigraph offers variable substitution for queries and none for updates, and this crate will not fake it by rewriting the update's text. Build the terms with `ikigai_store::sparql::{literal, iri, typed_literal, integer, boolean}`, which do not escape anything — they construct an RDF term and let oxigraph serialize it, so there is one escaper in the system and it is the one that owns the grammar",
    );
    Err(Error::InvalidArgument { name: "bindings".to_owned(), detail })
}

// ----------------------------------------------------------------------------- info

/// `urn:iki:store:info`: where the store's bytes live, how many quads it holds, and whether
/// every write to it is seen.
#[derive(Debug, Clone, Copy, PartialEq, Eq, Structural)]
pub struct InfoEndpoint;

/// What `urn:iki:store:info` says of a store.
pub open spec fn info_model(backing: BackingModel, quads: nat, covered: bool) -> Seq<char> {
    "backing: "@ + backing.text() + "\nquads: "@ + nat_text(quads) + "\ncovered: "@
        + crate::term::boolean_text(covered) + "\n"@
}

/// What `urn:iki:store:info` says of a store.
pub fn info_text(backing: &Backing, quads: usize, covered: bool) -> (r: String)
    ensures
        r@ == info_model(backing@, quads as nat, covered),
{
    let mut text = "backing: ".to_owned();
    text.append(backing.text().as_str());
    text.append("\nquads: ");
    text.append(decimal(quads as u64).as_str());
    text.append("\ncovered: ");
    text.append(
        if covered {
            "true"
        } else {
            "false"
        },
    );
    text.append("\n");
    text
}

impl InfoEndpoint {
    /// How a request may be answered.
    pub open spec fn served(
        self,
        inv: InvocationModel,
        store: DurableStore,
        r: Result<ReprModel, ErrorModel>,
    ) -> bool {
        if inv.verb != Verb::Source {
            r == Err::<ReprModel, ErrorModel>(unsupported_error("store-info"@, inv.verb))
        } else {
            match r {
                Ok(rep) => tells_info(rep, store),
                Err(e) => is_counting_error(e) && !store.kept_in_memory(),
            }
        }
    }

    /// This resource's description id.
    pub fn name(&self) -> (r: &'static str)
        ensures
            r@ == "store-info"@,
    {
        "store-info"
    }

    /// Answer a request.
    pub fn invoke(&self, store: &DurableStore, inv: &Invocation<'_>) -> (r: Result<
        Representation,
        Error,
    >)
        ensures
            self.served(inv@, *store, outcome(r)),
    {
        if inv.verb != Verb::Source {
            return Err(unsupported("store-info", inv.verb));
        }
        let quads = match count(store.dataset()) {
            Ok(quads) => quads,
            Err(e) => {
                return Err(e);
            },
        };
        let text = info_text(store.backing(), quads, store.is_covered());
        let rep = with_freshness(
            "text/plain".to_owned(),
            text.as_str().as_bytes_vec(),
            store.is_covered(),
        );
        proof {
            let contents = choose|contents: DatasetModel| #[trigger]
                store.spec_dataset().may_hold(contents) && quads == contents.quads.len();
            assert(store.may_hold(contents));
        }
        Ok(rep)
    }
}

/// Whether an answer tells this of a store.
pub open spec fn is_info(rep: ReprModel, backing: BackingModel, quads: nat, covered: bool) -> bool {
    rep == fresh("text/plain"@, encode_utf8(info_model(backing, quads, covered)), covered)
}

/// Whether an answer tells of a store what a reader may find in it.
pub open spec fn tells_info(rep: ReprModel, store: DurableStore) -> bool {
    exists|contents: DatasetModel| #[trigger]
        store.may_hold(contents) && is_info(
            rep,
            store.spec_backing(),
            contents.quads.len(),
            store.covered(),
        )
}

// --------------------------------------------------------------------------- update

/// `urn:iki:store:update`: any SPARQL update, against the whole dataset.
#[derive(Debug, Clone, Copy, PartialEq, Eq, Structural)]
pub struct UpdateEndpoint;

/// What `urn:iki:store:update` says of an update.
pub open spec fn updated_text(before: nat, after: nat) -> Seq<char> {
    "updated: "@ + nat_text(before) + " -> "@ + nat_text(after) + " quads\n"@
}

/// The answer that gives two counts.
pub open spec fn tells_update(rep: ReprModel, before: nat, after: nat) -> bool {
    rep == plain_model(updated_text(before, after))
}

impl UpdateEndpoint {
    /// The update a request asks for, or why it is refused.
    pub open spec fn requested(self, inv: InvocationModel) -> Result<Seq<char>, ErrorModel> {
        if inv.verb != Verb::Sink {
            Err(unsupported_error("store-update"@, inv.verb))
        } else {
            match inv.text("content"@) {
                Err(e) => Err(e),
                Ok(update) => if inv.has("bindings"@) {
                    Err(no_bindings_error("urn:iki:store:update"@))
                } else {
                    Ok(update)
                },
            }
        }
    }

    /// How an update may succeed: the store changed as the update says, and the answer gives
    /// the counts before and after.
    pub open spec fn succeeded(
        self,
        update: Seq<char>,
        old_store: DurableStore,
        new_store: DurableStore,
        rep: ReprModel,
    ) -> bool {
        &&& !update_refused(update)
        &&& new_store.spec_dataset().updated_since(old_store.spec_dataset(), update)
        &&& exists|before: DatasetModel, after: DatasetModel|
            {
                &&& #[trigger] old_store.may_hold(before)
                &&& #[trigger] new_store.may_hold(after)
                &&& tells_update(rep, before.quads.len(), after.quads.len())
            }
    }

    /// How an update may fail: a text that is no update, and an update that the evaluator
    /// refuses, leave the store as it was. Where the storage failed, which it does not in
    /// memory, the update was applied in full or not at all.
    pub open spec fn failed(
        self,
        update: Seq<char>,
        old_store: DurableStore,
        new_store: DurableStore,
        e: ErrorModel,
    ) -> bool {
        if update_refused(update) {
            &&& new_store == old_store
            &&& {
                ||| exists|reason: Seq<char>| #[trigger]
                    update_may_be_refused(update, reason) && e == not_an_update(reason)
                ||| is_counting_error(e) && !old_store.kept_in_memory()
            }
        } else {
            ||| {
                &&& new_store.untouched_since(old_store)
                &&& exists|found: DatasetModel, reason: Seq<char>|
                    {
                        &&& #[trigger] update_may_fail(update, found, reason)
                        &&& e == update_failed(reason)
                        &&& old_store.covered() || old_store.kept_in_memory()
                            ==> old_store.may_hold(found)
                    }
            }
            ||| {
                &&& !old_store.kept_in_memory()
                &&& is_counting_error(e) || exists|reason: Seq<char>|
                    e == #[trigger] update_failed(reason)
                &&& new_store.untouched_since(old_store)
                    || new_store.spec_dataset().updated_since(old_store.spec_dataset(), update)
            }
        }
    }

    /// How a request may be answered. One that is refused leaves the store alone.
    pub open spec fn served(
        self,
        inv: InvocationModel,
        old_store: DurableStore,
        new_store: DurableStore,
        r: Result<ReprModel, ErrorModel>,
    ) -> bool {
        &&& new_store.continues(old_store)
        &&& match self.requested(inv) {
            Err(e) => r == Err::<ReprModel, ErrorModel>(e) && new_store == old_store,
            Ok(update) => match r {
                Ok(rep) => self.succeeded(update, old_store, new_store, rep),
                Err(e) => self.failed(update, old_store, new_store, e),
            },
        }
    }

    /// This resource's description id.
    pub fn name(&self) -> (r: &'static str)
        ensures
            r@ == "store-update"@,
    {
        "store-update"
    }

    /// Answer a request.
    ///
    /// A refusal leaves the store as it was, and so does an update that could not be carried
    /// out, unless it was the storage that failed.
    pub fn invoke(&self, store: &mut DurableStore, inv: &Invocation<'_>) -> (r: Result<
        Representation,
        Error,
    >)
        ensures
            self.served(inv@, *old(store), *final(store), outcome(r)),
    {
        if inv.verb != Verb::Sink {
            return Err(unsupported("store-update", inv.verb));
        }
        let update = match inv.inline_str("content") {
            Ok(update) => update,
            Err(e) => {
                return Err(e);
            },
        };
        match no_bindings(inv, "urn:iki:store:update") {
            Ok(()) => {},
            Err(e) => {
                return Err(e);
            },
        }
        let before = match count(store.dataset()) {
            Ok(before) => before,
            Err(e) => {
                return Err(e);
            },
        };
        let prepared = match parse_update(update) {
            Ok(prepared) => prepared,
            Err(reason) => {
                let mut detail = "not a SPARQL update: ".to_owned();
                detail.append(reason.as_str());
                return Err(Error::InvalidArgument { name: "content".to_owned(), detail });
            },
        };
        let ran = store.dataset_mut().run(prepared);
        let ghost failure = ran->Err_0;
        match evaluated(ran) {
            Ok(()) => {},
            Err(e) => {
                assert(e@ == update_failed(failure.spec_text()));
                return Err(e);
            },
        }
        let after = match count(store.dataset()) {
            Ok(after) => after,
            Err(e) => {
                return Err(e);
            },
        };
        proof {
            let found = choose|found: DatasetModel| #[trigger]
                old(store).spec_dataset().may_hold(found) && before == found.quads.len();
            let left = choose|left: DatasetModel| #[trigger]
                store.spec_dataset().may_hold(left) && after == left.quads.len();
            assert(old(store).may_hold(found) && store.may_hold(left));
        }
        Ok(self.report(before, after))
    }

    /// What is answered for these counts before and after.
    pub fn report(&self, before: usize, after: usize) -> (r: Representation)
        ensures
            tells_update(r@, before as nat, after as nat),
    {
        let mut text = "updated: ".to_owned();
        text.append(decimal(before as u64).as_str());
        text.append(" -> ");
        text.append(decimal(after as u64).as_str());
        text.append(" quads\n");
        plain(text.as_str())
    }
}

// --------------------------------------------------------------- graph-scoped update

/// `urn:iki:store:graph-update`: any SPARQL update, affecting one named graph and nothing
/// else.
#[derive(Debug, Clone, Copy, PartialEq, Eq, Structural)]
pub struct GraphUpdateEndpoint;

/// The refusal of a caller without a grant for the graph.
pub open spec fn write_denied(graph: Seq<char>) -> ErrorModel {
    ErrorModel::Denied(
        "writing graph <"@ + graph + "> through `urn:iki:store:graph-update` needs the grant `"@
            + write_scope(graph)
            + "`, which this capability does not hold. A grant names exactly one graph; holding `urn:cap:store:write` does not imply it, and is instead the authority for `urn:iki:store:update` over the whole dataset"@,
    )
}

/// What `urn:iki:store:graph-update` says of an update.
pub open spec fn graph_updated_text(graph: Seq<char>, added: nat, removed: nat) -> Seq<char> {
    "updated <"@ + graph + ">: +"@ + nat_text(added) + " -"@ + nat_text(removed) + " quads\n"@
}

impl GraphUpdateEndpoint {
    /// The graph and the update a request asks for, or why it is refused. The grant is
    /// checked before the update is looked at.
    pub open spec fn requested(self, inv: InvocationModel) -> Result<
        (Seq<char>, Seq<char>),
        ErrorModel,
    > {
        if inv.verb != Verb::Sink {
            Err(unsupported_error("store-graph-update"@, inv.verb))
        } else {
            match inv.text("content"@) {
                Err(e) => Err(e),
                Ok(update) => if inv.has("bindings"@) {
                    Err(no_bindings_error("urn:iki:store:graph-update"@))
                } else {
                    match inv.text("graph"@) {
                        Err(e) => Err(e),
                        Ok(graph) => match iri_refusal(graph) {
                            Some(reason) => Err(graph_not_iri(graph, reason)),
                            None => if grants(inv.capability, write_scope(graph)) {
                                Ok((graph, update))
                            } else {
                                Err(write_denied(graph))
                            },
                        },
                    }
                },
            }
        }
    }

    /// How a scoped update may succeed: as the confinement says, and the answer gives what came
    /// and what went.
    pub open spec fn succeeded(
        self,
        graph: Seq<char>,
        update: Seq<char>,
        old_store: DurableStore,
        new_store: DurableStore,
        rep: ReprModel,
    ) -> bool {
        exists|added: nat, removed: nat| #[trigger]
            scoped_success(
                graph,
                update,
                old_store.spec_dataset(),
                new_store.spec_dataset(),
                added,
                removed,
            ) && rep == plain_model(graph_updated_text(graph, added, removed))
    }

    /// How a scoped update may fail: as the confinement says.
    pub open spec fn failed(
        self,
        graph: Seq<char>,
        update: Seq<char>,
        old_store: DurableStore,
        new_store: DurableStore,
        e: ErrorModel,
    ) -> bool {
        scoped_failure(graph, update, old_store.spec_dataset(), new_store.spec_dataset(), e)
    }

    /// How a request may be answered. One that is refused leaves the store alone.
    pub open spec fn served(
        self,
        inv: InvocationModel,
        old_store: DurableStore,
        new_store: DurableStore,
        r: Result<ReprModel, ErrorModel>,
    ) -> bool {
        &&& new_store.continues(old_store)
        &&& match self.requested(inv) {
            Err(e) => r == Err::<ReprModel, ErrorModel>(e) && new_store == old_store,
            Ok((graph, update)) => match r {
                Ok(rep) => self.succeeded(graph, update, old_store, new_store, rep),
                Err(e) => self.failed(graph, update, old_store, new_store, e),
            },
        }
    }

    /// This resource's description id.
    pub fn name(&self) -> (r: &'static str)
        ensures
            r@ == "store-graph-update"@,
    {
        "store-graph-update"
    }

    /// Answer a request.
    pub fn invoke(&self, store: &mut DurableStore, inv: &Invocation<'_>) -> (r: Result<
        Representation,
        Error,
    >)
        ensures
            self.served(inv@, *old(store), *final(store), outcome(r)),
    {
        if inv.verb != Verb::Sink {
            return Err(unsupported("store-graph-update", inv.verb));
        }
        let update = match inv.inline_str("content") {
            Ok(update) => update,
            Err(e) => {
                return Err(e);
            },
        };
        match no_bindings(inv, "urn:iki:store:graph-update") {
            Ok(()) => {},
            Err(e) => {
                return Err(e);
            },
        }
        let graph = match inv.inline_str("graph") {
            Ok(graph) => graph,
            Err(e) => {
                return Err(e);
            },
        };
        let target = match NamedNode::new(graph) {
            Ok(target) => target,
            Err(reason) => {
                return Err(bad_graph(graph, reason.as_str()));
            },
        };
        let scope = cap_write_graph(target.as_str());
        assert(scope@ == write_scope(target@));
        if !allows(inv.capability, scope.as_str()) {
            let mut text = "writing graph <".to_owned();
            text.append(target.as_str());
            text.append("> through `urn:iki:store:graph-update` needs the grant `");
            text.append(scope.as_str());
            text.append(
                "`, which this capability does not hold. A grant names exactly one graph; holding `urn:cap:store:write` does not imply it, and is instead the authority for `urn:iki:store:update` over the whole dataset",
            );
            return Err(Error::Denied(text));
        }
        let applied = match scoped_update(store.dataset_mut(), &target, update) {
            Ok(applied) => applied,
            Err(e) => {
                return Err(e);
            },
        };
        Ok(self.report(&target, &applied))
    }

    /// What is answered for what was done to a graph.
    pub fn report(&self, graph: &NamedNode, applied: &Applied) -> (r: Representation)
        ensures
            r@ == plain_model(
                graph_updated_text(graph@, applied.added as nat, applied.removed as nat),
            ),
    {
        let mut text = "updated <".to_owned();
        text.append(graph.as_str());
        text.append(">: +");
        text.append(decimal(applied.added as u64).as_str());
        text.append(" -");
        text.append(decimal(applied.removed as u64).as_str());
        text.append(" quads\n");
        plain(text.as_str())
    }
}

// ----------------------------------------------------------------------------- load

/// `urn:iki:store:load`: adds the statements of an RDF document to the dataset.
#[derive(Debug, Clone, Copy, PartialEq, Eq, Structural)]
pub struct LoadEndpoint;

/// A document to load: its bytes, its syntax, and the graph it goes into where its syntax names
/// no graphs.
pub struct LoadPlan {
    pub bytes: Seq<u8>,
    pub media: Seq<char>,
    pub format: RdfFormat,
    pub graph: Option<Seq<char>>,
}

/// The refusal of a syntax that is not known.
pub open spec fn unknown_syntax(media: Seq<char>) -> ErrorModel {
    ErrorModel::InvalidArgument {
        name: "format"@,
        detail: "unknown RDF syntax `"@ + media + "` — one of "@ + joined(
            texts(LOAD_FORMATS@),
            ", "@,
        ),
    }
}

/// The refusal of a document that could not be loaded.
pub open spec fn load_failed(media: Seq<char>, reason: Seq<char>) -> ErrorModel {
    ErrorModel::InvalidArgument {
        name: "content"@,
        detail: "parsing "@ + media + ": "@ + reason,
    }
}

/// What `urn:iki:store:load` says of a document.
pub open spec fn loaded_text(media: Seq<char>, before: nat, after: nat) -> Seq<char> {
    "loaded "@ + media + ": "@ + nat_text(before) + " -> "@ + nat_text(after) + " quads\n"@
}

/// The answer that gives two counts.
pub open spec fn tells_load(rep: ReprModel, media: Seq<char>, before: nat, after: nat) -> bool {
    rep == plain_model(loaded_text(media, before, after))
}

impl LoadEndpoint {
    /// The graph a document goes into, where one is named. A `graph` argument that is no IRI is
    /// refused.
    pub open spec fn target(self, inv: InvocationModel) -> Result<Option<Seq<char>>, ErrorModel> {
        match inv.optional_text("graph"@) {
            Err(e) => Err(e),
            Ok(None) => Ok(None),
            Ok(Some(graph)) => match iri_refusal(graph) {
                Some(reason) => Err(graph_not_iri(graph, reason)),
                None => Ok(Some(graph)),
            },
        }
    }

    /// The syntax a media type names. Each of the declared ones names one.
    pub open spec fn syntax(self, media: Seq<char>) -> Option<RdfFormat> {
        if texts(LOAD_FORMATS@).contains(media) {
            Some(format_of(media))
        } else {
            rdf_format_named(media)
        }
    }

    /// The document a request asks to load, or why it is refused.
    pub open spec fn requested(self, inv: InvocationModel) -> Result<LoadPlan, ErrorModel> {
        if inv.verb != Verb::Sink {
            Err(unsupported_error("store-load"@, inv.verb))
        } else {
            match inv.bytes("content"@) {
                Err(e) => Err(e),
                Ok(bytes) => match inv.optional_text("format"@) {
                    Err(e) => Err(e),
                    Ok(given) => {
                        let media = match given {
                            Some(media) => media,
                            None => LOAD_FORMATS@[0]@,
                        };
                        match self.syntax(media) {
                            None => Err(unknown_syntax(media)),
                            Some(format) => match self.target(inv) {
                                Err(e) => Err(e),
                                Ok(graph) => Ok(
                                    LoadPlan {
                                        bytes,
                                        media,
                                        format,
                                        graph: if names_own_graphs(media, format) {
                                            None
                                        } else {
                                            graph
                                        },
                                    },
                                ),
                            },
                        }
                    },
                },
            }
        }
    }

    /// How a load may succeed: the document can be read, its statements were added and nothing
    /// else was, and the answer gives the counts before and after.
    pub open spec fn succeeded(
        self,
        plan: LoadPlan,
        old_store: DurableStore,
        new_store: DurableStore,
        rep: ReprModel,
    ) -> bool {
        &&& is_plain_syntax(plan.format) ==> !document_refused(
            plan.format,
            plan.graph,
            plan.bytes,
        )
        &&& new_store.spec_dataset().loaded_since(
            old_store.spec_dataset(),
            plan.format,
            plan.graph,
            plan.bytes,
        )
        &&& exists|before: DatasetModel, after: DatasetModel|
            {
                &&& #[trigger] old_store.may_hold(before)
                &&& #[trigger] new_store.may_hold(after)
                &&& tells_load(rep, plan.media, before.quads.len(), after.quads.len())
            }
    }

    /// How a load may fail: a document that cannot be read leaves the store as it was. Where
    /// the storage failed, which it does not in memory, the document was loaded in full or not
    /// at all.
    pub open spec fn failed(
        self,
        plan: LoadPlan,
        old_store: DurableStore,
        new_store: DurableStore,
        e: ErrorModel,
    ) -> bool {
        ||| {
            &&& new_store.untouched_since(old_store)
            &&& is_plain_syntax(plan.format) ==> document_refused(
                plan.format,
                plan.graph,
                plan.bytes,
            )
            &&& exists|reason: Seq<char>| #[trigger]
                document_may_be_refused(plan.format, plan.graph, plan.bytes, reason) && e
                    == load_failed(plan.media, reason)
        }
        ||| {
            &&& !old_store.kept_in_memory()
            &&& is_counting_error(e) || exists|reason: Seq<char>|
                e == #[trigger] load_failed(plan.media, reason)
            &&& {
                ||| new_store.untouched_since(old_store)
                ||| {
                    &&& is_plain_syntax(plan.format) ==> !document_refused(
                        plan.format,
                        plan.graph,
                        plan.bytes,
                    )
                    &&& new_store.spec_dataset().loaded_since(
                        old_store.spec_dataset(),
                        plan.format,
                        plan.graph,
                        plan.bytes,
                    )
                }
            }
        }
    }

    /// How a request may be answered. One that is refused leaves the store alone.
    pub open spec fn served(
        self,
        inv: InvocationModel,
        old_store: DurableStore,
        new_store: DurableStore,
        r: Result<ReprModel, ErrorModel>,
    ) -> bool {
        &&& new_store.continues(old_store)
        &&& match self.requested(inv) {
            Err(e) => r == Err::<ReprModel, ErrorModel>(e) && new_store == old_store,
            Ok(plan) => match r {
                Ok(rep) => self.succeeded(plan, old_store, new_store, rep),
                Err(e) => self.failed(plan, old_store, new_store, e),
            },
        }
    }

    /// This resource's description id.
    pub fn name(&self) -> (r: &'static str)
        ensures
            r@ == "store-load"@,
    {
        "store-load"
    }

    /// Answer a request.
    pub fn invoke(&self, store: &mut DurableStore, inv: &Invocation<'_>) -> (r: Result<
        Representation,
        Error,
    >)
        ensures
            self.served(inv@, *old(store), *final(store), outcome(r)),
    {
        if inv.verb != Verb::Sink {
            return Err(unsupported("store-load", inv.verb));
        }
        let bytes = match inv.inline_arg("content") {
            Ok(bytes) => bytes,
            Err(e) => {
                return Err(e);
            },
        };
        let media = match inv.optional_str("format") {
            Ok(Some(media)) => media,
            Ok(None) => LOAD_FORMATS[0],
            Err(e) => {
                return Err(e);
            },
        };
        let format = match rdf_format(media) {
            Some(format) => format,
            None => {
                let mut detail = "unknown RDF syntax `".to_owned();
                detail.append(media);
                detail.append("` — one of ");
                detail.append(join(&LOAD_FORMATS, ", ").as_str());
                return Err(Error::InvalidArgument { name: "format".to_owned(), detail });
            },
        };
        let named = match inv.optional_str("graph") {
            Ok(Some(graph)) => match NamedNode::new(graph) {
                Ok(graph) => Some(graph),
                Err(reason) => {
                    return Err(bad_graph(graph, reason.as_str()));
                },
            },
            Ok(None) => None,
            Err(e) => {
                return Err(e);
            },
        };
        let graph = if names_graphs(&format) {
            None
        } else {
            named.as_ref()
        };
        let before = match count(store.dataset()) {
            Ok(before) => before,
            Err(e) => {
                return Err(e);
            },
        };
        let read = store.dataset_mut().load(&format, graph, bytes);
        let ghost failure = read->Err_0;
        proof {
            if read is Ok {
                let change = choose|change: Change| #[trigger]
                    store.spec_dataset().changed_since(old(store).spec_dataset(), change) && loaded(
                        format,
                        graph_view(graph),
                        bytes@,
                        change.found,
                        change.left,
                    );
                assert(store.spec_dataset().changed_since(old(store).spec_dataset(), change));
            }
        }
        match self.taken(media, read) {
            Ok(()) => {},
            Err(e) => {
                proof {
                    let plan = self.requested(inv@)->Ok_0;
                    assert(e@ == load_failed(plan.media, failure.spec_text()));
                    if failure is Refused {
                        assert(document_may_be_refused(
                            plan.format,
                            plan.graph,
                            plan.bytes,
                            failure.spec_text(),
                        ));
                    }
                }
                return Err(e);
            },
        }
        let after = match count(store.dataset()) {
            Ok(after) => after,
            Err(e) => {
                return Err(e);
            },
        };
        proof {
            let found = choose|found: DatasetModel| #[trigger]
                old(store).spec_dataset().may_hold(found) && before == found.quads.len();
            let left = choose|left: DatasetModel| #[trigger]
                store.spec_dataset().may_hold(left) && after == left.quads.len();
            assert(old(store).may_hold(found) && store.may_hold(left));
        }
        Ok(self.report(media, before, after))
    }

    /// What became of loading a document: a failure is reported in the store's own words.
    pub fn taken(&self, media: &str, read: Result<(), Failure>) -> (r: Result<(), Error>)
        ensures
            match read {
                Ok(()) => r is Ok,
                Err(failure) => r matches Err(e) && e@ == load_failed(media@, failure.spec_text()),
            },
    {
        match read {
            Ok(()) => Ok(()),
            Err(failure) => {
                let mut detail = "parsing ".to_owned();
                detail.append(media);
                detail.append(": ");
                detail.append(failure.text());
                Err(Error::InvalidArgument { name: "content".to_owned(), detail })
            },
        }
    }

    /// What is answered for these counts before and after.
    pub fn report(&self, media: &str, before: usize, after: usize) -> (r: Representation)
        ensures
            tells_load(r@, media@, before as nat, after as nat),
    {
        let mut text = "loaded ".to_owned();
        text.append(media);
        text.append(": ");
        text.append(decimal(before as u64).as_str());
        text.append(" -> ");
        text.append(decimal(after as u64).as_str());
        text.append(" quads\n");
        plain(text.as_str())
    }
}

} // verus!
