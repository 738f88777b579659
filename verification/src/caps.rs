//! The scopes a caller must hold, and the threads a cached read depends on.

use vstd::prelude::*;

verus! {

/// The capability a read of the whole dataset requires.
pub const CAP_READ: &'static str = "urn:cap:store:read";

/// The capability a write to the whole dataset requires. It is the keys to the store: a
/// SPARQL update may be `DROP ALL`.
pub const CAP_WRITE: &'static str = "urn:cap:store:write";

/// The per-graph write scope, as declared: some grant under this prefix. A held grant names
/// one graph, see [`cap_write_graph`], and nothing is a prefix of anything.
pub const CAP_WRITE_GRAPH: &'static str = "urn:cap:store:write:graph:*";

/// The per-graph read scope, as declared: some grant under this prefix. A held grant names
/// one graph, see [`cap_read_graph`], and nothing is a prefix of anything.
pub const CAP_READ_GRAPH: &'static str = "urn:cap:store:read:graph:*";

/// The thread that `urn:iki:store:update` cuts on success.
pub const UPDATE_THREAD: &'static str = "urn:iki:store:update";

/// The thread that `urn:iki:store:load` cuts on success.
pub const LOAD_THREAD: &'static str = "urn:iki:store:load";

/// The thread that `urn:iki:store:graph-update` cuts on success.
///
/// Three writing resources mean three threads, and a cached read depends on all of them: a
/// write door without its thread would leave every cached read stale after a write.
pub const GRAPH_UPDATE_THREAD: &'static str = "urn:iki:store:graph-update";

/// The scope that grants writing one graph.
pub open spec fn write_scope(graph: Seq<char>) -> Seq<char> {
    "urn:cap:store:write:graph:"@ + graph
}

/// The scope that grants reading one graph.
pub open spec fn read_scope(graph: Seq<char>) -> Seq<char> {
    "urn:cap:store:read:graph:"@ + graph
}

/// Whether a scope grants writing or reading one graph.
pub open spec fn is_graph_scope(scope: Seq<char>) -> bool {
    ||| exists|graph: Seq<char>| scope == #[trigger] write_scope(graph)
    ||| exists|graph: Seq<char>| scope == #[trigger] read_scope(graph)
}

/// The scope a caller must hold to write `graph` through `urn:iki:store:graph-update`.
pub fn cap_write_graph(graph: &str) -> (r: String)
    ensures
        r@ == write_scope(graph@),
{
    let mut scope = "urn:cap:store:write:graph:".to_owned();
    scope.append(graph);
    scope
}

/// The scope a caller must hold to read `graph` through `urn:iki:store:graph-select` and its
/// siblings. It is a sibling of [`cap_write_graph`], not a weaker form of it.
pub fn cap_read_graph(graph: &str) -> (r: String)
    ensures
        r@ == read_scope(graph@),
{
    let mut scope = "urn:cap:store:read:graph:".to_owned();
    scope.append(graph);
    scope
}

/// Two graphs never share a grant: the grant for one is not the grant for the other, neither
/// to write it nor to read it.
pub proof fn a_grant_names_one_graph(one: Seq<char>, two: Seq<char>)
    requires
        one != two,
    ensures
        write_scope(one) != write_scope(two),
        read_scope(one) != read_scope(two),
{
    let write = "urn:cap:store:write:graph:"@;
    let read = "urn:cap:store:read:graph:"@;
    assert(write_scope(one).skip(write.len() as int) =~= one);
    assert(write_scope(two).skip(write.len() as int) =~= two);
    assert(read_scope(one).skip(read.len() as int) =~= one);
    assert(read_scope(two).skip(read.len() as int) =~= two);
}

/// A grant to write a graph is never a grant to read one, and neither is ever one of the two
/// scopes over the whole dataset.
pub proof fn a_graph_grant_is_nothing_else(one: Seq<char>, two: Seq<char>)
    ensures
        write_scope(one) != read_scope(two),
        write_scope(one) != CAP_WRITE@,
        write_scope(one) != CAP_READ@,
        read_scope(one) != CAP_WRITE@,
        read_scope(one) != CAP_READ@,
{
    reveal_strlit("urn:cap:store:write:graph:");
    reveal_strlit("urn:cap:store:read:graph:");
    reveal_strlit("urn:cap:store:write");
    reveal_strlit("urn:cap:store:read");
    assert(write_scope(one)[14] == 'w');
    assert(read_scope(two)[14] == 'r');
    assert(write_scope(one).len() >= 26);
    assert(read_scope(one).len() >= 25);
    assert(CAP_WRITE@.len() == 19);
    assert(CAP_READ@.len() == 18);
}

/// The declared wildcard is not the grant for any graph: an IRI is more than `*`.
pub proof fn a_wildcard_grants_no_graph(graph: Seq<char>)
    requires
        crate::term::iri_shaped(graph),
    ensures
        write_scope(graph) != CAP_WRITE_GRAPH@,
        read_scope(graph) != CAP_READ_GRAPH@,
{
    reveal_strlit("urn:cap:store:write:graph:");
    reveal_strlit("urn:cap:store:read:graph:");
    reveal_strlit("urn:cap:store:write:graph:*");
    reveal_strlit("urn:cap:store:read:graph:*");
    let i = choose|i: int| 0 <= i < graph.len() && graph[i] == ':';
    assert(write_scope(graph)[26 + i] == ':');
    assert(read_scope(graph)[25 + i] == ':');
    assert(write_scope(graph).len() == 26 + graph.len());
    assert(read_scope(graph).len() == 25 + graph.len());
    assert(CAP_WRITE_GRAPH@.len() == 27);
    assert(CAP_READ_GRAPH@.len() == 26);
    if write_scope(graph) == CAP_WRITE_GRAPH@ {
        assert(i == 0);
        assert(CAP_WRITE_GRAPH@[26] == '*');
    }
    if read_scope(graph) == CAP_READ_GRAPH@ {
        assert(i == 0);
        assert(CAP_READ_GRAPH@[25] == '*');
    }
}

} // verus!
