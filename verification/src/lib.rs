//! A persistent RDF store, offered as resources under one namespace.
//!
//! A store is opened once and handed to [`space`], which binds its twelve resources: a query
//! resource for each SPARQL form, each over the whole dataset and over one graph, and resources
//! that update, load and report. See [`endpoints`] for the list.
//!
//! # Getting a value in without it becoming syntax
//!
//! [`sparql`] is the one answer. For a query, a `bindings` argument: the value never reaches
//! the parser. For an update, the term constructors, which build RDF terms and write them in
//! the syntax of the grammar that owns them.
//!
//! # Scopes narrower than the whole dataset
//!
//! A grant can name one graph ([`cap_read_graph`], [`cap_write_graph`]). A scoped read has its
//! dataset fixed to that graph ([`scope`]). A scoped update runs against a private copy of the
//! graph and is refused in full if anything of it would land elsewhere ([`confine`]). Neither
//! looks at the syntax of what it runs.
//!
//! # Freshness
//!
//! A store that nothing else can write to is covered: every write goes through a resource, and
//! a read says which of them would make it stale. A store whose handle was given away is not,
//! and none of its reads may be kept ([`store`]).
//!
//! [`laws`] states what holds of all of this together. What is done with what is given is stated
//! operation by operation: how a request and its values are taken ([`behaviour`], [`binding`]), what
//! is done for it and answered ([`serving`], [`answering`]), where a store lies and how its
//! resources are found ([`setup`]), and how a value is seen ([`seen`]).

use vstd::prelude::*;

pub mod answering;
pub mod behaviour;
pub mod binding;
pub mod caps;
pub mod config;
pub mod confine;
pub mod dataset;
pub mod describe;
pub mod endpoints;
pub mod error;
pub mod json;
pub mod laws;
pub mod query;
pub mod request;
pub mod results;
pub mod scope;
pub mod seen;
pub mod serving;
pub mod sparql;
pub mod setup;
pub mod store;
pub mod term;
pub mod text;
pub mod write;

pub use config::StoreConfig;
pub use endpoints::{
    cap_read_graph, cap_write_graph, space, CAP_READ, CAP_READ_GRAPH, CAP_WRITE, CAP_WRITE_GRAPH,
    GRAPH_UPDATE_THREAD, LOAD_THREAD, UPDATE_THREAD,
};
pub use error::Error;
pub use oxigraph::store::Store;
pub use store::{Backing, DurableStore};

verus! {

} // verus!
