//! The twelve resources this library offers, under the namespace it owns.
//!
//! ```text
//! urn:iki:store:select           Source  SPARQL SELECT            urn:cap:store:read
//! urn:iki:store:ask              Source  SPARQL ASK               urn:cap:store:read
//! urn:iki:store:construct        Source  SPARQL CONSTRUCT         urn:cap:store:read
//! urn:iki:store:describe         Source  SPARQL DESCRIBE          urn:cap:store:read
//! urn:iki:store:graph-select     Source  SELECT, one graph        urn:cap:store:read:graph:<iri>
//! urn:iki:store:graph-ask        Source  ASK, one graph           urn:cap:store:read:graph:<iri>
//! urn:iki:store:graph-construct  Source  CONSTRUCT, one graph     urn:cap:store:read:graph:<iri>
//! urn:iki:store:graph-describe   Source  DESCRIBE, one graph      urn:cap:store:read:graph:<iri>
//! urn:iki:store:info             Source  backing, size, coverage  urn:cap:store:read
//! urn:iki:store:update           Sink    SPARQL UPDATE, all of it urn:cap:store:write
//! urn:iki:store:graph-update     Sink    SPARQL UPDATE, one graph urn:cap:store:write:graph:<iri>
//! urn:iki:store:load             Sink    bulk-load an RDF doc     urn:cap:store:write
//! ```

use crate::error::{outcome, Error, ErrorModel};
use crate::query::{Form, QueryEndpoint};
use crate::request::{
    Description, DescriptionModel, Invocation, InvocationModel, ReprModel, Representation,
};
use crate::store::DurableStore;
use crate::text::same_text;
use crate::write::{GraphUpdateEndpoint, InfoEndpoint, LoadEndpoint, UpdateEndpoint};
use vstd::prelude::*;

pub use crate::caps::{
    cap_read_graph, cap_write_graph, CAP_READ, CAP_READ_GRAPH, CAP_WRITE, CAP_WRITE_GRAPH,
    GRAPH_UPDATE_THREAD, LOAD_THREAD, UPDATE_THREAD,
};

verus! {

/// A resource.
#[derive(Debug, Clone, Copy, PartialEq, Eq, Structural)]
pub enum Endpoint {
    Query(QueryEndpoint),
    Info(InfoEndpoint),
    Update(UpdateEndpoint),
    GraphUpdate(GraphUpdateEndpoint),
    Load(LoadEndpoint),
}

impl Endpoint {
    /// The IRI this resource is bound to.
    pub open spec fn spec_iri(self) -> Seq<char> {
        match self {
            Endpoint::Query(query) => query.spec_iri(),
            Endpoint::Info(_) => "urn:iki:store:info"@,
            Endpoint::Update(_) => "urn:iki:store:update"@,
            Endpoint::GraphUpdate(_) => "urn:iki:store:graph-update"@,
            Endpoint::Load(_) => "urn:iki:store:load"@,
        }
    }

    /// This resource's description id.
    pub open spec fn spec_name(self) -> Seq<char> {
        self.description().id
    }

    /// How this resource describes itself.
    pub open spec fn description(self) -> DescriptionModel {
        match self {
            Endpoint::Query(query) => query.description(),
            Endpoint::Info(info) => info.description(),
            Endpoint::Update(update) => update.description(),
            Endpoint::GraphUpdate(update) => update.description(),
            Endpoint::Load(load) => load.description(),
        }
    }

    /// Whether this resource is written to.
    pub open spec fn writes(self) -> bool {
        self is Update || self is GraphUpdate || self is Load
    }

    /// How a request to this resource may be answered.
    pub open spec fn served(
        self,
        inv: InvocationModel,
        old_store: DurableStore,
        new_store: DurableStore,
        r: Result<ReprModel, ErrorModel>,
    ) -> bool {
        match self {
            Endpoint::Query(query) => new_store == old_store && query.served(inv, old_store, r),
            Endpoint::Info(info) => new_store == old_store && info.served(inv, old_store, r),
            Endpoint::Update(update) => update.served(inv, old_store, new_store, r),
            Endpoint::GraphUpdate(update) => update.served(inv, old_store, new_store, r),
            Endpoint::Load(load) => load.served(inv, old_store, new_store, r),
        }
    }

    /// The IRI this resource is bound to.
    pub fn iri(&self) -> (r: String)
        ensures
            r@ == self.spec_iri(),
    {
        match self {
            Endpoint::Query(query) => query.iri(),
            Endpoint::Info(_) => "urn:iki:store:info".to_owned(),
            Endpoint::Update(_) => "urn:iki:store:update".to_owned(),
            Endpoint::GraphUpdate(_) => "urn:iki:store:graph-update".to_owned(),
            Endpoint::Load(_) => "urn:iki:store:load".to_owned(),
        }
    }

    /// This resource's description id.
    pub fn name(&self) -> (r: String)
        ensures
            r@ == self.spec_name(),
    {
        match self {
            Endpoint::Query(query) => query.name(),
            Endpoint::Info(info) => info.name().to_owned(),
            Endpoint::Update(update) => update.name().to_owned(),
            Endpoint::GraphUpdate(update) => update.name().to_owned(),
            Endpoint::Load(load) => load.name().to_owned(),
        }
    }

    /// How this resource describes itself.
    pub fn describe(&self) -> (r: Description)
        ensures
            r@ == self.description(),
    {
        match self {
            Endpoint::Query(query) => query.describe(),
            Endpoint::Info(info) => info.describe(),
            Endpoint::Update(update) => update.describe(),
            Endpoint::GraphUpdate(update) => update.describe(),
            Endpoint::Load(load) => load.describe(),
        }
    }

    /// Answer a request.
    pub fn invoke(&self, store: &mut DurableStore, inv: &Invocation<'_>) -> (r: Result<
        Representation,
        Error,
    >)
        ensures
            self.served(inv@, *old(store), *final(store), outcome(r)),
    {
        match self {
            Endpoint::Query(query) => query.invoke(store, inv),
            Endpoint::Info(info) => info.invoke(store, inv),
            Endpoint::Update(update) => update.invoke(store, inv),
            Endpoint::GraphUpdate(update) => update.invoke(store, inv),
            Endpoint::Load(load) => load.invoke(store, inv),
        }
    }
}

/// The query resource for a form.
pub open spec fn query_resource(form: Form, scoped: bool) -> Endpoint {
    Endpoint::Query(QueryEndpoint { form, scoped })
}

/// The resources of a space, in the order they are bound in.
pub open spec fn resources() -> Seq<Endpoint> {
    seq![
        query_resource(Form::Select, false),
        query_resource(Form::Select, true),
        query_resource(Form::Ask, false),
        query_resource(Form::Ask, true),
        query_resource(Form::Construct, false),
        query_resource(Form::Construct, true),
        query_resource(Form::Describe, false),
        query_resource(Form::Describe, true),
        Endpoint::Info(InfoEndpoint),
        Endpoint::Update(UpdateEndpoint),
        Endpoint::GraphUpdate(GraphUpdateEndpoint),
        Endpoint::Load(LoadEndpoint),
    ]
}

/// A store and the resources that serve it. Nothing else holds the dataset, unless a handle
/// was taken when the store was made.
pub struct Space {
    store: DurableStore,
    endpoints: Vec<Endpoint>,
}

/// The resource bound to an IRI: the first, where there were several.
pub open spec fn resolved(endpoints: Seq<Endpoint>, iri: Seq<char>) -> Option<Endpoint>
    decreases endpoints.len(),
{
    if endpoints.len() == 0 {
        None
    } else if endpoints[0].spec_iri() == iri {
        Some(endpoints[0])
    } else {
        resolved(endpoints.drop_first(), iri)
    }
}

/// Bind a store's twelve resources into a space.
pub fn space(store: DurableStore) -> (r: Space)
    ensures
        r.spec_store() == store,
        r.spec_endpoints() == resources(),
{
    let mut endpoints: Vec<Endpoint> = Vec::new();
    let forms = [Form::Select, Form::Ask, Form::Construct, Form::Describe];
    let mut i: usize = 0;
    while i < 4
        invariant
            i <= 4,
            forms@ == seq![Form::Select, Form::Ask, Form::Construct, Form::Describe],
            endpoints@ == resources().take(2 * i),
        decreases 4 - i,
    {
        let ghost before = endpoints@;
        endpoints.push(Endpoint::Query(QueryEndpoint { form: forms[i], scoped: false }));
        endpoints.push(Endpoint::Query(QueryEndpoint { form: forms[i], scoped: true }));
        proof {
            assert(resources().take(2 * i + 2) =~= resources().take(2 * i).push(
                resources()[2 * i],
            ).push(resources()[2 * i + 1]));
        }
        i += 1;
    }
    endpoints.push(Endpoint::Info(InfoEndpoint));
    endpoints.push(Endpoint::Update(UpdateEndpoint));
    endpoints.push(Endpoint::GraphUpdate(GraphUpdateEndpoint));
    endpoints.push(Endpoint::Load(LoadEndpoint));
    assert(endpoints@ =~= resources());
    Space { store, endpoints }
}

impl Space {
    /// The store.
    pub closed spec fn spec_store(&self) -> DurableStore {
        self.store
    }

    /// The resources, in the order they are bound in.
    pub closed spec fn spec_endpoints(&self) -> Seq<Endpoint> {
        self.endpoints@
    }

    /// The store, for the resources that read.
    pub fn store(&self) -> (r: &DurableStore)
        ensures
            *r == self.spec_store(),
    {
        &self.store
    }

    /// The resources, in the order they are bound in.
    pub fn endpoints(&self) -> (r: &Vec<Endpoint>)
        ensures
            r@ == self.spec_endpoints(),
    {
        &self.endpoints
    }

    /// The resource bound to an IRI.
    pub fn resolve(&self, iri: &str) -> (r: Option<Endpoint>)
        ensures
            r == resolved(self.spec_endpoints(), iri@),
    {
        let mut i: usize = 0;
        assert(self.endpoints@.skip(0) == self.endpoints@);
        while i < self.endpoints.len()
            invariant
                i <= self.endpoints@.len(),
                resolved(self.endpoints@, iri@) == resolved(self.endpoints@.skip(i as int), iri@),
            decreases self.endpoints@.len() - i,
        {
            assert(self.endpoints@.skip(i as int)[0] == self.endpoints@[i as int]);
            assert(self.endpoints@.skip(i as int).drop_first() == self.endpoints@.skip(i + 1));
            if same_text(self.endpoints[i].iri().as_str(), iri) {
                return Some(self.endpoints[i]);
            }
            i += 1;
        }
        None
    }

    /// Answer a request to an IRI, where it is bound.
    pub fn invoke(&mut self, iri: &str, inv: &Invocation<'_>) -> (r: Option<
        Result<Representation, Error>,
    >)
        ensures
            final(self).spec_endpoints() == old(self).spec_endpoints(),
            match (resolved(old(self).spec_endpoints(), iri@), r) {
                (Some(endpoint), Some(answer)) => endpoint.served(
                    inv@,
                    old(self).spec_store(),
                    final(self).spec_store(),
                    outcome(answer),
                ),
                (None, None) => final(self).spec_store() == old(self).spec_store(),
                _ => false,
            },
    {
        match self.resolve(iri) {
            Some(endpoint) => Some(endpoint.invoke(&mut self.store, inv)),
            None => None,
        }
    }
}

} // verus!
