//! Who holds a dataset, where it lives, and what an operator is told when it cannot be opened.

use ikigai_core::Capability;
use ikigai_store::request::{Invocation, Verb};
use ikigai_store::store::{is_lock_error, OpenFailure};
use ikigai_store::write::InfoEndpoint;
use ikigai_store::{Backing, DurableStore, Error, Store};

const SECOND_PROCESS: &str =
    "IO error: While lock file: /tmp/x/LOCK: Resource temporarily unavailable";

fn info(store: &DurableStore) -> String {
    let capability = Capability::root();
    let asked = Invocation {
        verb: Verb::Source,
        args: Vec::new(),
        capability: &capability,
    };
    let rep = InfoEndpoint.invoke(store, &asked).unwrap();
    String::from_utf8(rep.bytes).unwrap()
}

#[test]
fn an_owned_in_memory_store_is_covered() {
    let store = DurableStore::in_memory().unwrap();
    assert!(store.is_covered());
    assert_eq!(store.backing(), &Backing::Memory);
    assert_eq!(info(&store), "backing: memory\nquads: 0\ncovered: true\n");
}

#[test]
fn handing_out_the_handle_forfeits_coverage_at_construction() {
    let (store, handle) = DurableStore::in_memory_shared().unwrap();
    assert!(
        !store.is_covered(),
        "a store that handed out its handle must never claim coverage"
    );
    handle
        .load_from_slice(
            oxigraph::io::RdfFormat::NTriples,
            b"<http://ex/a> <http://ex/p> <http://ex/b> .",
        )
        .unwrap();
    assert_eq!(info(&store), "backing: memory\nquads: 1\ncovered: false\n");
}

#[test]
fn the_lock_matcher_knows_both_spellings() {
    assert!(is_lock_error(
        "IO error: While lock file: /tmp/x/LOCK: Resource temporarily unavailable"
    ));
    assert!(is_lock_error(
        "IO error: lock hold by current process, acquire time 1 acquiring thread 2: \
         /tmp/x/LOCK: No locks available"
    ));
    assert!(!is_lock_error("IO error: No space left on device"));
}

#[test]
fn the_lock_matcher_needs_the_lock_and_the_reason() {
    assert!(!is_lock_error("lock"));
    assert!(!is_lock_error("temporarily unavailable"));
    assert!(!is_lock_error(""));
    assert!(is_lock_error("LOCK UNAVAILABLE"));
}

#[test]
fn an_opened_store_keeps_its_path_and_its_contents() {
    let opened = Store::new().unwrap();
    opened
        .load_from_slice(
            oxigraph::io::RdfFormat::NTriples,
            b"<http://ex/a> <http://ex/p> <http://ex/b> .",
        )
        .unwrap();
    let store = DurableStore::open("/data/store", Ok(opened)).unwrap();
    assert!(store.is_covered());
    assert_eq!(store.backing(), &Backing::Durable("/data/store".to_string()));
    assert_eq!(store.backing().text(), "durable /data/store");
    assert_eq!(
        info(&store),
        "backing: durable /data/store\nquads: 1\ncovered: true\n"
    );
}

#[test]
fn an_opened_store_whose_handle_left_is_not_covered() {
    let opened = Store::new().unwrap();
    let (store, handle) = DurableStore::open_shared("/data/store", Ok(opened)).unwrap();
    assert!(!store.is_covered());
    assert_eq!(store.backing(), &Backing::Durable("/data/store".to_string()));
    handle
        .insert_named_graph(oxigraph::model::NamedNodeRef::new("urn:g").unwrap())
        .unwrap();
    assert_eq!(handle.len().unwrap(), 0);
}

fn refusal(failure: OpenFailure) -> Error {
    match DurableStore::open("/data/store", Err(failure)) {
        Ok(_) => panic!("nothing was opened"),
        Err(e) => e,
    }
}

#[test]
fn a_held_directory_is_unavailable_and_named() {
    let err = refusal(OpenFailure::Store(SECOND_PROCESS.to_string()));
    assert!(matches!(err, Error::Unavailable(_)), "{err:?}");
    let text = err.message();
    assert!(text.starts_with("unavailable: the store at /data/store is already open"), "{text}");
    assert!(text.contains("one writer per directory"), "{text}");
    assert!(text.ends_with(SECOND_PROCESS), "{text}");
}

#[test]
fn any_other_failure_to_open_is_no_invitation_to_try_again() {
    assert_eq!(
        refusal(OpenFailure::Store("IO error: corruption".to_string())),
        Error::Endpoint("opening the store at /data/store: IO error: corruption".to_string())
    );
    assert_eq!(
        refusal(OpenFailure::Directory("permission denied".to_string())),
        Error::Endpoint(
            "cannot create the store directory /data/store: permission denied".to_string()
        )
    );
    match DurableStore::open_shared("/d", Err(OpenFailure::Store("no".to_string()))) {
        Ok(_) => panic!("nothing was opened"),
        Err(e) => assert_eq!(e.message(), "endpoint error: opening the store at /d: no"),
    }
}
