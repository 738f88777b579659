//! Where a store lives, what its opening comes to, and how its resources are found and described.

use crate::config::{
    candidates_view, configured, file_names, named_path, Candidate, LayerModel, StorePathModel,
};
use crate::endpoints::{resolved, resources, Endpoint};
use crate::error::ErrorModel;
use crate::query::{Form, QueryEndpoint};
use crate::request::Verb;
use crate::store::{lock_error, open_failed, OpenFailureModel};
use crate::text::{lowered, occurs_in, texts};
use crate::write::LOAD_FORMATS;
use vstd::prelude::*;

verus! {

// ------------------------------------------------------------------- the place of a store

/// Whether a layer of the configuration cannot be used: it could not be read or parsed, or it names
/// an empty path.
pub open spec fn unusable(layer: LayerModel) -> bool {
    match layer {
        LayerModel::Unreadable(_) => true,
        LayerModel::Unparsable(_) => true,
        LayerModel::Path { path, .. } => path.len() == 0,
        LayerModel::Missing => false,
        LayerModel::Silent => false,
    }
}

/// Where every layer can be used, the last one that names a path decides, however many there are
/// and whatever stands before it: an absolute path as it is written, any other under the data home.
pub proof fn the_last_path_counts(
    layers: Seq<(Seq<char>, LayerModel)>,
    i: int,
    path: Seq<char>,
    absolute: bool,
)
    requires
        forall|j: int| 0 <= j < layers.len() ==> !unusable((#[trigger] layers[j]).1),
        0 <= i < layers.len(),
        layers[i].1 == (LayerModel::Path { path, absolute }),
        forall|j: int| i < j < layers.len() ==> !((#[trigger] layers[j]).1 is Path),
    ensures
        configured(layers) == Ok::<StorePathModel, ErrorModel>(
            if absolute {
                StorePathModel::AsWritten(path)
            } else {
                StorePathModel::UnderDataHome(path)
            },
        ),
    decreases layers.len(),
{
    let rest = layers.drop_last();
    assert forall|j: int| 0 <= j < rest.len() implies rest[j] == #[trigger] layers[j] by {}
    assert(layers.last() == layers[layers.len() - 1]);
    if i == layers.len() - 1 {
        lemma_usable(rest);
    } else {
        the_last_path_counts(rest, i, path, absolute);
        lemma_usable(rest);
    }
}

/// Layers that can all be used are never refused.
proof fn lemma_usable(layers: Seq<(Seq<char>, LayerModel)>)
    requires
        forall|j: int| 0 <= j < layers.len() ==> !unusable((#[trigger] layers[j]).1),
    ensures
        named_path(layers) is Ok,
    decreases layers.len(),
{
    if layers.len() > 0 {
        let rest = layers.drop_last();
        assert forall|j: int| 0 <= j < rest.len() implies !unusable((#[trigger] rest[j]).1) by {
            assert(rest[j] == layers[j]);
        }
        lemma_usable(rest);
        assert(layers.last() == layers[layers.len() - 1]);
    }
}

/// Where no layer names a path and every one can be used, the dataset lies in `store` under the
/// data home.
pub proof fn the_default_place_is_under_the_data_home(layers: Seq<(Seq<char>, LayerModel)>)
    requires
        forall|j: int|
            0 <= j < layers.len() ==> (#[trigger] layers[j]).1 is Missing || layers[j].1 is Silent,
    ensures
        configured(layers) == Ok::<StorePathModel, ErrorModel>(
            StorePathModel::UnderDataHome("store"@),
        ),
    decreases layers.len(),
{
    if layers.len() > 0 {
        let rest = layers.drop_last();
        assert forall|j: int| 0 <= j < rest.len() implies (#[trigger] rest[j]).1 is Missing
            || rest[j].1 is Silent by {
            assert(rest[j] == layers[j]);
        }
        the_default_place_is_under_the_data_home(rest);
        assert(layers.last() == layers[layers.len() - 1]);
        lemma_usable(rest);
    }
}

/// The first layer that cannot be used decides, whatever stands around it, and the refusal names
/// its file and the reason.
pub proof fn the_first_unusable_layer_decides(layers: Seq<(Seq<char>, LayerModel)>, i: int)
    requires
        0 <= i < layers.len(),
        unusable(layers[i].1),
        forall|j: int| 0 <= j < i ==> !unusable((#[trigger] layers[j]).1),
    ensures
        configured(layers) matches Err(ErrorModel::Endpoint(text)) && match layers[i].1 {
            LayerModel::Unreadable(reason) => text == "reading "@ + layers[i].0 + ": "@ + reason,
            LayerModel::Unparsable(reason) => text == "parsing "@ + layers[i].0 + ": "@ + reason,
            _ => occurs_in(layers[i].0 + ": `path` is empty"@, text),
        },
    decreases layers.len(),
{
    let rest = layers.drop_last();
    assert(layers.last() == layers[layers.len() - 1]);
    if i == layers.len() - 1 {
        assert forall|j: int| 0 <= j < rest.len() implies !unusable((#[trigger] rest[j]).1) by {
            assert(rest[j] == layers[j]);
        }
        lemma_usable(rest);
        let file = layers[i].0;
        let whole =
            ": `path` is empty — a store directory of \"\" is the current working directory wearing a configuration's clothes";
        let part = ": `path` is empty";
        reveal_strlit(
            ": `path` is empty — a store directory of \"\" is the current working directory wearing a configuration's clothes",
        );
        reveal_strlit(": `path` is empty");
        assert(whole@.take(part@.len() as int) =~= part@);
        assert((file + whole@).subrange(0, 0int + (file + part@).len()) =~= file + part@) by {
            assert forall|k: int| 0 <= k < part@.len() implies whole@[k] == #[trigger] part@[k] by {
                assert(whole@.take(part@.len() as int)[k] == whole@[k]);
            }
        }
    } else {
        assert(rest[i] == layers[i]);
        assert forall|j: int| 0 <= j < i implies !unusable((#[trigger] rest[j]).1) by {
            assert(rest[j] == layers[j]);
        }
        the_first_unusable_layer_decides(rest, i);
    }
}

/// A host looks for the shared file first and for its own behind it; one without a name has none of
/// its own.
pub proof fn a_host_has_its_own_file_behind_the_shared_one(app: Seq<char>)
    ensures
        file_names(None) == seq!["store.toml"@],
        app.len() == 0 ==> file_names(Some(app)) == seq!["store.toml"@],
        app.len() > 0 ==> file_names(Some(app)) == seq![
            "store.toml"@,
            app + "."@ + "store.toml"@,
        ],
{
}

/// The candidates are seen one by one, each as it is.
pub proof fn candidates_are_seen_one_by_one(candidates: Seq<Candidate>)
    ensures
        candidates_view(candidates).len() == candidates.len(),
        forall|i: int|
            0 <= i < candidates.len() ==> (#[trigger] candidates_view(candidates)[i]).0
                == candidates[i].file@ && candidates_view(candidates)[i].1 == candidates[i].layer@,
{
}

// ------------------------------------------------------------------- opening a store

/// A store that another writer holds is unavailable, and any other failure is final. Either way the
/// operator is told the path and the reason, both in full.
pub proof fn a_store_that_cannot_be_opened_is_named(path: Seq<char>, reason: Seq<char>)
    ensures
        open_failed(path, OpenFailureModel::Directory(reason)) == ErrorModel::Endpoint(
            "cannot create the store directory "@ + path + ": "@ + reason,
        ),
        !lock_error(reason) ==> open_failed(path, OpenFailureModel::Store(reason))
            == ErrorModel::Endpoint("opening the store at "@ + path + ": "@ + reason),
        lock_error(reason) ==> {
            &&& open_failed(path, OpenFailureModel::Store(reason)) matches ErrorModel::Unavailable(
                text,
            )
            &&& occurs_in("the store at "@ + path, text)
            &&& occurs_in("Underlying error: "@ + reason, text)
        },
{
    if lock_error(reason) {
        let text = open_failed(path, OpenFailureModel::Store(reason))->Unavailable_0;
        let first = "the store at "@ + path;
        assert(text.subrange(0, 0int + first.len()) =~= first);
        let middle =
            " is already open read-write and RocksDB permits one writer per directory. Another ikigai host (or another handle in this process) holds it; that process must exit, or this one must reach the data over the wire. Underlying error: ";
        let tail = "Underlying error: ";
        reveal_strlit(
            " is already open read-write and RocksDB permits one writer per directory. Another ikigai host (or another handle in this process) holds it; that process must exit, or this one must reach the data over the wire. Underlying error: ",
        );
        reveal_strlit("Underlying error: ");
        let cut = middle@.len() - tail@.len();
        assert(middle@.skip(cut) =~= tail@);
        let last = tail@ + reason;
        let at = first.len() + cut;
        assert(text.subrange(at, at + last.len()) =~= last) by {
            assert forall|k: int| 0 <= k < tail@.len() implies middle@[cut + k]
                == #[trigger] tail@[k] by {
                assert(middle@.skip(cut)[k] == middle@[cut + k]);
            }
        }
    }
}

/// A failure tells of another writer by two spellings, in letters of either case and whatever
/// stands around the words.
pub proof fn another_writer_is_known_by_two_spellings(
    before: Seq<char>,
    between: Seq<char>,
    after: Seq<char>,
    text: Seq<char>,
    other: Seq<char>,
)
    ensures
        lock_error(before + "lock"@ + between + "unavailable"@ + after),
        lock_error(before + "lock"@ + between + "no locks"@ + after),
        lock_error(before + "unavailable"@ + between + "lock"@ + after),
        lock_error(text) <==> {
            &&& occurs_in("lock"@, lowered(text))
            &&& occurs_in("unavailable"@, lowered(text)) || occurs_in("no locks"@, lowered(text))
        },
        lowered(text) == lowered(other) ==> lock_error(text) == lock_error(other),
        lock_error(text) ==> lock_error(before + text + after),
{
    reveal_strlit("lock");
    reveal_strlit("unavailable");
    reveal_strlit("no locks");
    assert(lowered("lock"@) =~= "lock"@);
    assert(lowered("unavailable"@) =~= "unavailable"@);
    assert(lowered("no locks"@) =~= "no locks"@);
    let one = before + "lock"@ + between + "unavailable"@ + after;
    let two = before + "lock"@ + between + "no locks"@ + after;
    let three = before + "unavailable"@ + between + "lock"@ + after;
    lemma_lowered_around(before, "unavailable"@, between + "lock"@ + after);
    lemma_lowered_around(before + "unavailable"@ + between, "lock"@, after);
    assert(before + "unavailable"@ + (between + "lock"@ + after) =~= three);
    lemma_lowered_around(before, "lock"@, between + "unavailable"@ + after);
    lemma_lowered_around(before + "lock"@ + between, "unavailable"@, after);
    lemma_lowered_around(before, "lock"@, between + "no locks"@ + after);
    lemma_lowered_around(before + "lock"@ + between, "no locks"@, after);
    assert(before + "lock"@ + (between + "unavailable"@ + after) =~= one);
    assert(before + "lock"@ + (between + "no locks"@ + after) =~= two);
    if lock_error(text) {
        lemma_occurs_around(before, text, after, "lock"@);
        lemma_occurs_around(before, text, after, "unavailable"@);
        lemma_occurs_around(before, text, after, "no locks"@);
    }
}

proof fn lemma_lowered_around(before: Seq<char>, part: Seq<char>, after: Seq<char>)
    ensures
        occurs_in(lowered(part), lowered(before + part + after)),
{
    let i = before.len() as int;
    assert(lowered(before + part + after).subrange(i, i + lowered(part).len()) =~= lowered(part));
}

proof fn lemma_occurs_around(
    before: Seq<char>,
    text: Seq<char>,
    after: Seq<char>,
    part: Seq<char>,
)
    ensures
        occurs_in(part, lowered(text)) ==> occurs_in(part, lowered(before + text + after)),
{
    if occurs_in(part, lowered(text)) {
        let i = choose|i: int|
            0 <= i <= lowered(text).len() - part.len() && #[trigger] lowered(text).subrange(
                i,
                i + part.len(),
            ) == part;
        let at = before.len() + i;
        assert(lowered(before + text + after).subrange(at, at + part.len()) =~= lowered(
            text,
        ).subrange(i, i + part.len()));
    }
}

// ------------------------------------------------------------------- resources

/// An IRI reaches the first resource that is bound to it, and none if and only if none is.
pub proof fn an_iri_reaches_what_is_bound_to_it(endpoints: Seq<Endpoint>, iri: Seq<char>)
    ensures
        resolved(endpoints, iri) is None <==> forall|i: int|
            0 <= i < endpoints.len() ==> (#[trigger] endpoints[i]).spec_iri() != iri,
        resolved(endpoints, iri) matches Some(endpoint) ==> exists|i: int|
            {
                &&& 0 <= i < endpoints.len()
                &&& #[trigger] endpoints[i] == endpoint
                &&& endpoint.spec_iri() == iri
                &&& forall|j: int| 0 <= j < i ==> (#[trigger] endpoints[j]).spec_iri() != iri
            },
    decreases endpoints.len(),
{
    if endpoints.len() > 0 {
        if endpoints[0].spec_iri() != iri {
            let rest = endpoints.drop_first();
            an_iri_reaches_what_is_bound_to_it(rest, iri);
            if resolved(rest, iri) is None {
                assert forall|i: int| 0 <= i < endpoints.len() implies (
                #[trigger] endpoints[i]).spec_iri() != iri by {
                    if i > 0 {
                        assert(rest[i - 1] == endpoints[i]);
                    }
                }
            } else {
                let endpoint = resolved(rest, iri)->Some_0;
                let i = choose|i: int|
                    {
                        &&& 0 <= i < rest.len()
                        &&& #[trigger] rest[i] == endpoint
                        &&& endpoint.spec_iri() == iri
                        &&& forall|j: int| 0 <= j < i ==> (#[trigger] rest[j]).spec_iri() != iri
                    };
                assert(endpoints[i + 1] == endpoint);
                assert forall|j: int| 0 <= j < i + 1 implies (#[trigger] endpoints[j]).spec_iri()
                    != iri by {
                    if j > 0 {
                        assert(rest[j - 1] == endpoints[j]);
                    }
                }
            }
        } else {
            assert(endpoints[0].spec_iri() == iri);
        }
    }
}

/// Every resource there is is bound, each once: the four forms over the whole dataset and over one
/// graph, and the four others.
pub proof fn every_resource_is_bound(endpoint: Endpoint)
    ensures
        resources().contains(endpoint),
        resources().len() == 12,
        resources().no_duplicates(),
{
    let list = resources();
    let i: int = match endpoint {
        Endpoint::Query(query) => {
            let form: int = match query.form {
                Form::Select => 0,
                Form::Ask => 2,
                Form::Construct => 4,
                Form::Describe => 6,
            };
            if query.scoped {
                form + 1
            } else {
                form
            }
        },
        Endpoint::Info(_) => 8,
        Endpoint::Update(_) => 9,
        Endpoint::GraphUpdate(_) => 10,
        Endpoint::Load(_) => 11,
    };
    assert(list[i] == endpoint);
}

/// A form is called by its keyword, which stands in small letters in its resource's IRI.
pub proof fn a_form_is_called_by_its_keyword(form: Form)
    ensures
        form.spec_suffix() == lowered(form.spec_keyword()),
        form.spec_keyword() == match form {
            Form::Select => "SELECT"@,
            Form::Ask => "ASK"@,
            Form::Construct => "CONSTRUCT"@,
            Form::Describe => "DESCRIBE"@,
        },
{
    reveal_strlit("SELECT");
    reveal_strlit("ASK");
    reveal_strlit("CONSTRUCT");
    reveal_strlit("DESCRIBE");
    reveal_strlit("select");
    reveal_strlit("ask");
    reveal_strlit("construct");
    reveal_strlit("describe");
    assert(form.spec_suffix() =~= lowered(form.spec_keyword()));
}

/// A resource's id and its IRI end in the same name, each behind a prefix of its own; and the name
/// of a scoped query is that of the broad one behind `graph-`.
pub proof fn a_resource_has_one_name(endpoint: Endpoint)
    ensures
        exists|name: Seq<char>|
            endpoint.spec_iri() == #[trigger] ("urn:iki:store:"@ + name)
                && endpoint.description().id == "store-"@ + name,
{
    let name = match endpoint {
        Endpoint::Query(query) => if query.scoped {
            "graph-"@ + query.form.spec_suffix()
        } else {
            query.form.spec_suffix()
        },
        Endpoint::Info(_) => "info"@,
        Endpoint::Update(_) => "update"@,
        Endpoint::GraphUpdate(_) => "graph-update"@,
        Endpoint::Load(_) => "load"@,
    };
    reveal_strlit("urn:iki:store:");
    reveal_strlit("urn:iki:store:graph-");
    reveal_strlit("urn:iki:store:info");
    reveal_strlit("urn:iki:store:update");
    reveal_strlit("urn:iki:store:graph-update");
    reveal_strlit("urn:iki:store:load");
    reveal_strlit("store-");
    reveal_strlit("store-graph-");
    reveal_strlit("store-info");
    reveal_strlit("store-update");
    reveal_strlit("store-graph-update");
    reveal_strlit("store-load");
    reveal_strlit("graph-");
    reveal_strlit("info");
    reveal_strlit("update");
    reveal_strlit("graph-update");
    reveal_strlit("load");
    assert(endpoint.spec_iri() =~= "urn:iki:store:"@ + name);
    assert(endpoint.description().id =~= "store-"@ + name);
}

/// A description tells the verb and the scope that the resource asks for. One over one graph asks
/// for some grant for a graph, and says that the graph must be given.
pub proof fn a_description_tells_the_verb_and_the_scope(endpoint: Endpoint)
    ensures
        endpoint.description().verbs == seq![
            if endpoint is Query || endpoint is Info {
                Verb::Source
            } else {
                Verb::Sink
            },
            Verb::Meta,
        ],
        endpoint.description().capability == match endpoint {
            Endpoint::Query(query) => if query.scoped {
                "urn:cap:store:read:graph:*"@
            } else {
                "urn:cap:store:read"@
            },
            Endpoint::Info(_) => "urn:cap:store:read"@,
            Endpoint::Update(_) => "urn:cap:store:write"@,
            Endpoint::GraphUpdate(_) => "urn:cap:store:write:graph:*"@,
            Endpoint::Load(_) => "urn:cap:store:write"@,
        },
        (endpoint matches Endpoint::Query(query) && query.scoped || endpoint is GraphUpdate)
            <==> exists|i: int|
            {
                &&& 0 <= i < endpoint.description().inputs.len()
                &&& (#[trigger] endpoint.description().inputs[i]).name == "graph"@
                &&& endpoint.description().inputs[i].required
            },
{
    let inputs = endpoint.description().inputs;
    reveal_strlit("graph");
    reveal_strlit("query");
    reveal_strlit("content");
    assert("graph"@[0] != "query"@[0]);
    assert("graph"@[0] != "content"@[0]);
    if let Endpoint::Query(query) = endpoint {
        if query.scoped {
            assert(inputs[0].name == "graph"@ && inputs[0].required);
        }
    }
    if endpoint is GraphUpdate {
        assert(inputs[1].name == "graph"@ && inputs[1].required);
    }
}

/// The names of the arguments that a resource describes, in order, and whether each must be given.
pub open spec fn described_arguments(endpoint: Endpoint) -> Seq<(Seq<char>, bool)> {
    let query = seq![("query"@, true), ("bindings"@, false), ("as"@, false)];
    match endpoint {
        Endpoint::Query(one) => if one.scoped {
            seq![("graph"@, true)] + query
        } else {
            query
        },
        Endpoint::Info(_) => Seq::empty(),
        Endpoint::Update(_) => seq![("content"@, true)],
        Endpoint::GraphUpdate(_) => seq![("content"@, true), ("graph"@, true)],
        Endpoint::Load(_) => seq![("content"@, true), ("format"@, false), ("graph"@, false)],
    }
}

/// A description lists every argument that the resource reads, and says which must be given. A load
/// offers its syntaxes as a choice, the first as the default.
pub proof fn a_description_lists_the_arguments(endpoint: Endpoint)
    ensures
        endpoint.description().inputs.len() == described_arguments(endpoint).len(),
        forall|i: int|
            0 <= i < described_arguments(endpoint).len() ==> {
                let input = #[trigger] endpoint.description().inputs[i];
                &&& input.name == described_arguments(endpoint)[i].0
                &&& input.required == described_arguments(endpoint)[i].1
                &&& input.required ==> input.default_value is None && input.one_of.len() == 0
            },
        endpoint is Load ==> {
            let format = endpoint.description().inputs[1];
            &&& format.one_of == texts(LOAD_FORMATS@)
            &&& format.default_value == Some("text/turtle"@)
        },
        !(endpoint is Query) ==> endpoint.description().outputs == seq!["text/plain"@],
{
    let inputs = endpoint.description().inputs;
    assert(texts(LOAD_FORMATS@)[0] == "text/turtle"@);
    if let Endpoint::Query(query) = endpoint {
        if query.scoped {
            assert(inputs[0].name == "graph"@ && inputs[1].name == "query"@);
            assert(inputs[2].name == "bindings"@ && inputs[3].name == "as"@);
        }
    }
}

/// A description offers every output as a choice, the first as the default, and names the query
/// form in its title.
pub proof fn a_query_describes_its_outputs(endpoint: QueryEndpoint)
    ensures
        endpoint.description().outputs.len() > 0,
        exists|i: int|
            {
                &&& 0 <= i < endpoint.description().inputs.len()
                &&& (#[trigger] endpoint.description().inputs[i]).name == "as"@
                &&& endpoint.description().inputs[i].one_of == endpoint.description().outputs
                &&& endpoint.description().inputs[i].default_value == Some(
                    endpoint.description().outputs[0],
                )
                &&& !endpoint.description().inputs[i].required
            },
        occurs_in(endpoint.form.spec_keyword(), endpoint.description().title),
        occurs_in(endpoint.form.spec_keyword(), endpoint.description().summary),
{
    let described = endpoint.description();
    let inputs = described.inputs;
    let word = endpoint.form.spec_keyword();
    let i: int = if endpoint.scoped {
        3
    } else {
        2
    };
    assert(inputs[i].name == "as"@);
    let t = "SPARQL "@.len() as int;
    assert(described.title.subrange(t, t + word.len()) =~= word);
    let u = "Evaluate a SPARQL "@.len() as int;
    assert(described.summary.subrange(u, u + word.len()) =~= word);
}

// ------------------------------------------------------------------- errors

/// An error is reported in full: what kind it is, and every word of its texts.
pub proof fn an_error_is_reported_in_full(name: Seq<char>, text: Seq<char>)
    ensures
        ErrorModel::MissingArgument(name).message() == "missing required argument `"@ + name
            + "`"@,
        (ErrorModel::InvalidArgument { name, detail: text }).message() == "invalid argument `"@
            + name + "`: "@ + text,
        ErrorModel::Endpoint(text).message() == "endpoint error: "@ + text,
        ErrorModel::Denied(text).message() == "denied: "@ + text,
        ErrorModel::Unavailable(text).message() == "unavailable: "@ + text,
{
}

} // verus!
