# ikigai-store

A persistent RDF store, offered to a host as twelve resources under `urn:iki:store:`, written
and verified in Verus.

- `src/` is the library. Every function in it is verified against its contract; what it has
  from `oxigraph`, `serde_json` and `ikigai-core` stands behind small wrappers whose contracts
  say what is relied on.
- `tests/` runs the library, on its own and inside a kernel.
- `app/` is the host side: it reads the configuration files, opens the directory and binds the
  resources into a kernel.

## Layout of the library

| module | what it holds |
| --- | --- |
| `endpoints` | the twelve resources, and the space that resolves them |
| `query`, `scope` | the query resources, and the confinement of a query to one graph |
| `write`, `confine` | the writing resources, and the confinement of an update to one graph |
| `sparql`, `term`, `json` | values as RDF terms, in SPARQL syntax and in JSON |
| `results` | result sets and graphs as documents |
| `describe`, `request`, `caps`, `error` | what a resource is asked, answers and requires |
| `store`, `dataset`, `config` | the dataset, who holds it and where it lives |
| `text` | texts as sequences of characters |
| `laws` | what holds of the library as a whole |

## What is proved

A scoped update changes one graph at most, in full or not at all, and neither it nor a scoped
query can tell what any other graph holds. In memory it succeeds where what it does stays in
its graph, is denied where it does not, and changes nothing unless it succeeds. Nothing but a
grant for that graph opens either of them. A load adds its document and nothing else, and one
that cannot be read adds nothing. A value bound into a query is never part of its text, and a
value written as a term ends where it was meant to end. An answer comes in a media type the
resource declares. A read may be kept exactly when every write is seen, and then it depends on
each resource that writes.

What `oxigraph` makes of a query, an update or a document is named and not restated: the
contracts say what is handed to it and what is done with what comes back.

A store in a directory may fail where a store in memory does not, and what a failed commit left
on disk is all of the change or nothing of it. Of a store whose handle was given away it cannot
be said what it holds, since others write to it. It is said that every read is of something its
storage held, and which transactions each write commits to it: one or none, and through the
scoped door one that leaves every graph but its own as it found it.
