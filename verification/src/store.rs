//! The durable dataset: who opens it, who may write to it, and what its handle leaving
//! costs.

use crate::dataset::{store_graphs, store_quads, Change, Dataset, DatasetModel};
use crate::error::{Error, ErrorModel};
use crate::text::{ascii_lowercase, contains_text, lowered, occurs_in};
use std::sync::Arc;
use vstd::prelude::*;

/// The canonical store type, so that a host names one `Store`.
pub use oxigraph::store::Store;

verus! {

/// Where a [`DurableStore`]'s bytes live.
#[derive(Debug, Clone, PartialEq, Eq)]
pub enum Backing {
    /// In memory: gone at process exit.
    Memory,
    /// A directory this process holds the write lock on, by its path.
    Durable(String),
}

/// [`Backing`] over character sequences.
pub enum BackingModel {
    Memory,
    Durable(Seq<char>),
}

impl View for Backing {
    type V = BackingModel;

    open spec fn view(&self) -> BackingModel {
        match self {
            Backing::Memory => BackingModel::Memory,
            Backing::Durable(path) => BackingModel::Durable(path@),
        }
    }
}

impl BackingModel {
    /// The backing in words.
    pub open spec fn text(self) -> Seq<char> {
        match self {
            BackingModel::Memory => "memory"@,
            BackingModel::Durable(path) => "durable "@ + path,
        }
    }
}

impl Backing {
    /// The backing in words.
    pub fn text(&self) -> (r: String)
        ensures
            r@ == self@.text(),
    {
        match self {
            Backing::Memory => "memory".to_owned(),
            Backing::Durable(path) => {
                let mut text = "durable ".to_owned();
                text.append(path.as_str());
                text
            },
        }
    }
}

/// An RDF dataset this library owns the bytes of.
///
/// A kernel can invalidate a cached read only when it sees every write, and a raw handle in
/// someone else's hands is a writer it cannot see. So there are two kinds of constructor, and
/// no accessor that turns one kind of store into the other:
///
/// - [`in_memory`](DurableStore::in_memory) and [`open`](DurableStore::open): *owned*. Nothing
///   else holds the handle, so reads are cacheable under the write endpoints' threads.
/// - [`in_memory_shared`](DurableStore::in_memory_shared) and
///   [`open_shared`](DurableStore::open_shared): the handle leaves at construction. A writer
///   that nobody sees may exist for the whole life of the store, so no read is cacheable.
pub struct DurableStore {
    dataset: Dataset,
    backing: Backing,
}

impl DurableStore {
    /// The dataset.
    pub closed spec fn spec_dataset(&self) -> Dataset {
        self.dataset
    }

    /// Whether every write to this store is a write through it.
    pub open spec fn covered(&self) -> bool {
        self.spec_dataset().owned()
    }

    /// Whether the store keeps its bytes in memory, where they are never out of reach.
    pub open spec fn kept_in_memory(&self) -> bool {
        self.spec_dataset().in_memory()
    }

    /// Whether a reader may find this in the store: in one that is covered what it holds, and in
    /// any other what its storage held at some time.
    pub open spec fn may_hold(&self, contents: DatasetModel) -> bool {
        self.spec_dataset().may_hold(contents)
    }

    /// The transactions committed so far through the store, in their order.
    pub open spec fn changes(&self) -> Seq<Change> {
        self.spec_dataset().changes()
    }

    /// Whether this is what became of another store: it lies in the same storage, at the same
    /// place, and is covered or not as that was.
    pub open spec fn continues(&self, before: DurableStore) -> bool {
        self.spec_dataset().continues(before.spec_dataset()) && self.spec_backing()
            == before.spec_backing()
    }

    /// Whether nothing was done through the store since.
    pub open spec fn untouched_since(&self, before: DurableStore) -> bool {
        self.spec_dataset().untouched_since(before.spec_dataset())
    }

    /// What the store holds.
    pub open spec fn contents(&self) -> DatasetModel {
        self.spec_dataset().contents()
    }

    /// Where the store's bytes live.
    pub closed spec fn spec_backing(&self) -> BackingModel {
        self.backing@
    }

    /// An empty dataset in memory, owned. There is always one, and nothing of it survives
    /// process exit.
    pub fn in_memory() -> (r: Result<DurableStore, Error>)
        ensures
            r matches Ok(store) && {
                &&& store.covered()
                &&& store.kept_in_memory()
                &&& store.contents() == DatasetModel::empty()
                &&& store.spec_backing() == BackingModel::Memory
            },
    {
        match Dataset::new() {
            Ok(dataset) => Ok(DurableStore { dataset, backing: Backing::Memory }),
            Err(reason) => Err(Error::Endpoint(reason)),
        }
    }

    /// A dataset in memory and the handle on that very dataset. Taking the handle makes every
    /// read uncacheable for the life of this store.
    pub fn in_memory_shared() -> (r: Result<(DurableStore, Arc<Store>), Error>)
        ensures
            r matches Ok((store, handle)) && {
                &&& !store.covered()
                &&& store.kept_in_memory()
                &&& store.spec_dataset().holds(*handle)
                &&& store.spec_backing() == BackingModel::Memory
            },
    {
        match Dataset::new() {
            Ok(dataset) => {
                let (dataset, handle) = dataset.share();
                Ok((DurableStore { dataset, backing: Backing::Memory }, handle))
            },
            Err(reason) => Err(Error::Endpoint(reason)),
        }
    }

    /// The durable dataset at `path`, given what came of opening it. Nothing else may hold the
    /// store that was opened.
    ///
    /// The refusal of a directory that is already held is [`Error::Unavailable`] and names
    /// the path: the holder may exit, so asking again later may succeed.
    pub fn open(path: &str, opened: Result<Store, OpenFailure>) -> (r: Result<DurableStore, Error>)
        ensures
            match opened {
                Ok(store) => r matches Ok(durable) && durable.covered() && durable.spec_backing()
                    == BackingModel::Durable(path@) && durable.spec_dataset().holds(store)
                    && durable.contents() == (DatasetModel {
                    quads: store_quads(store),
                    graphs: store_graphs(store),
                }),
                Err(failure) => r matches Err(e) && e@ == open_failed(path@, failure@),
            },
    {
        match opened {
            Ok(store) => Ok(
                DurableStore {
                    dataset: Dataset::of_store(store),
                    backing: Backing::Durable(path.to_owned()),
                },
            ),
            Err(failure) => Err(open_error(path, &failure)),
        }
    }

    /// [`open`](DurableStore::open) and the store's handle. Taking the handle makes every read
    /// uncacheable for the life of this store.
    pub fn open_shared(path: &str, opened: Result<Store, OpenFailure>) -> (r: Result<
        (DurableStore, Arc<Store>),
        Error,
    >)
        ensures
            match opened {
                Ok(store) => r matches Ok((durable, handle)) && !durable.covered()
                    && durable.spec_backing() == BackingModel::Durable(path@)
                    && durable.spec_dataset().holds(store) && *handle == store,
                Err(failure) => r matches Err(e) && e@ == open_failed(path@, failure@),
            },
    {
        match opened {
            Ok(store) => {
                let (dataset, handle) = Dataset::of_store(store).share();
                Ok((DurableStore { dataset, backing: Backing::Durable(path.to_owned()) }, handle))
            },
            Err(failure) => Err(open_error(path, &failure)),
        }
    }

    /// The dataset, for the endpoints.
    pub(crate) fn dataset(&self) -> (r: &Dataset)
        ensures
            *r == self.spec_dataset(),
    {
        &self.dataset
    }

    /// The dataset, for the endpoints that write.
    pub(crate) fn dataset_mut(&mut self) -> (r: &mut Dataset)
        ensures
            *r == old(self).spec_dataset(),
            final(self).spec_dataset() == *final(r),
            final(self).spec_backing() == old(self).spec_backing(),
    {
        &mut self.dataset
    }

    /// Where this store's bytes live.
    pub fn backing(&self) -> (r: &Backing)
        ensures
            r@ == self.spec_backing(),
    {
        &self.backing
    }

    /// Whether the handle never left, so that every write is a write through this store.
    pub fn is_covered(&self) -> (r: bool)
        ensures
            r == self.covered(),
    {
        self.dataset.is_owned()
    }
}

/// Whether a RocksDB error is the refusal of a second writer to a directory.
pub open spec fn lock_error(text: Seq<char>) -> bool {
    let lower = lowered(text);
    occurs_in("lock"@, lower) && (occurs_in("unavailable"@, lower) || occurs_in("no locks"@, lower))
}

/// Whether a RocksDB error is the refusal of a second writer to a directory.
///
/// Two spellings are known and both are matched: `Resource temporarily unavailable` from a
/// second process, and `lock hold by current process` with `No locks available` from a second
/// handle in the same process.
pub fn is_lock_error(text: &str) -> (r: bool)
    ensures
        r == lock_error(text@),
{
    let lower = ascii_lowercase(text);
    contains_text(lower.as_str(), "lock") && (contains_text(lower.as_str(), "unavailable")
        || contains_text(lower.as_str(), "no locks"))
}

/// Why a durable dataset could not be opened.
pub enum OpenFailure {
    /// Its directory could not be created.
    Directory(String),
    /// The store in it could not be opened.
    Store(String),
}

/// [`OpenFailure`] over character sequences.
pub enum OpenFailureModel {
    Directory(Seq<char>),
    Store(Seq<char>),
}

impl View for OpenFailure {
    type V = OpenFailureModel;

    open spec fn view(&self) -> OpenFailureModel {
        match self {
            OpenFailure::Directory(reason) => OpenFailureModel::Directory(reason@),
            OpenFailure::Store(reason) => OpenFailureModel::Store(reason@),
        }
    }
}

/// What an operator is told of a dataset that could not be opened. The one failure they will
/// actually hit, a directory that is already held, is told apart from the others.
pub open spec fn open_failed(path: Seq<char>, failure: OpenFailureModel) -> ErrorModel {
    match failure {
        OpenFailureModel::Directory(reason) => ErrorModel::Endpoint(
            "cannot create the store directory "@ + path + ": "@ + reason,
        ),
        OpenFailureModel::Store(reason) => if lock_error(reason) {
            ErrorModel::Unavailable(
                "the store at "@ + path
                    + " is already open read-write and RocksDB permits one writer per directory. Another ikigai host (or another handle in this process) holds it; that process must exit, or this one must reach the data over the wire. Underlying error: "@
                    + reason,
            )
        } else {
            ErrorModel::Endpoint("opening the store at "@ + path + ": "@ + reason)
        },
    }
}

/// What an operator is told of a dataset that could not be opened.
pub fn open_error(path: &str, failure: &OpenFailure) -> (r: Error)
    ensures
        r@ == open_failed(path@, failure@),
{
    match failure {
        OpenFailure::Directory(reason) => {
            let mut text = "cannot create the store directory ".to_owned();
            text.append(path);
            text.append(": ");
            text.append(reason.as_str());
            Error::Endpoint(text)
        },
        OpenFailure::Store(reason) => {
            if is_lock_error(reason.as_str()) {
                let mut text = "the store at ".to_owned();
                text.append(path);
                text.append(
                    " is already open read-write and RocksDB permits one writer per directory. Another ikigai host (or another handle in this process) holds it; that process must exit, or this one must reach the data over the wire. Underlying error: ",
                );
                text.append(reason.as_str());
                Error::Unavailable(text)
            } else {
                let mut text = "opening the store at ".to_owned();
                text.append(path);
                text.append(": ");
                text.append(reason.as_str());
                Error::Endpoint(text)
            }
        },
    }
}

} // verus!
