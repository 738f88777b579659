//! Where the dataset lives, given what came of the config files.

use ikigai_store::config::{candidates, Candidate, Layer, StorePath, DEFAULT_DIR, STEM};
use ikigai_store::{Error, StoreConfig};

fn layer(file: &str, layer: Layer) -> Candidate {
    Candidate {
        file: file.to_string(),
        layer,
    }
}

fn path(path: &str, absolute: bool) -> Layer {
    Layer::Path {
        path: path.to_string(),
        absolute,
    }
}

fn shared(found: Layer) -> Vec<Candidate> {
    vec![layer(STEM, found)]
}

#[test]
fn with_no_config_file_the_store_sits_under_the_data_home() {
    let got = StoreConfig::load_in(&shared(Layer::Missing)).unwrap();
    assert_eq!(got.path, StorePath::UnderDataHome("store".to_string()));
    assert_eq!(DEFAULT_DIR, "store");
    let got = StoreConfig::load_in(&Vec::new()).unwrap();
    assert_eq!(got.path, StorePath::UnderDataHome("store".to_string()));
}

#[test]
fn an_absolute_path_is_taken_as_written_and_a_relative_one_is_rooted_at_the_data_home() {
    assert_eq!(
        StoreConfig::load_in(&shared(path("/Volumes/fast/rdf", true)))
            .unwrap()
            .path,
        StorePath::AsWritten("/Volumes/fast/rdf".to_string())
    );
    assert_eq!(
        StoreConfig::load_in(&shared(path("big", false))).unwrap().path,
        StorePath::UnderDataHome("big".to_string())
    );
}

#[test]
fn the_app_layer_overrides_the_shared_one() {
    assert_eq!(
        StoreConfig::load_in(&shared(path("/shared", true))).unwrap().path,
        StorePath::AsWritten("/shared".to_string()),
        "an unnamed app reads only the shared layer"
    );
    let layers = vec![
        layer(STEM, path("/shared", true)),
        layer("cms.store.toml", path("/cms", true)),
    ];
    assert_eq!(
        StoreConfig::load_in(&layers).unwrap().path,
        StorePath::AsWritten("/cms".to_string())
    );
}

#[test]
fn a_misspelled_key_is_loud() {
    let reason = "unknown field `paths`, expected `path`".to_string();
    let err = StoreConfig::load_in(&shared(Layer::Unparsable(reason))).unwrap_err();
    assert!(
        err.message().contains("paths"),
        "a key nobody reads must name itself: {err:?}"
    );
    assert_eq!(
        err,
        Error::Endpoint("parsing store.toml: unknown field `paths`, expected `path`".to_string())
    );
}

#[test]
fn an_empty_path_is_refused_rather_than_resolved() {
    let err = StoreConfig::load_in(&shared(path("", false))).unwrap_err();
    assert!(err.message().contains("empty"), "{err:?}");
}

#[test]
fn a_layer_that_names_no_path_changes_nothing() {
    let layers = vec![
        layer(STEM, path("/shared", true)),
        layer("cms.store.toml", Layer::Silent),
        layer("other.store.toml", Layer::Missing),
    ];
    assert_eq!(
        StoreConfig::load_in(&layers).unwrap().path,
        StorePath::AsWritten("/shared".to_string())
    );
}

#[test]
fn a_file_that_cannot_be_read_is_refused_even_where_a_later_one_names_a_path() {
    let layers = vec![
        layer(STEM, Layer::Unreadable("permission denied".to_string())),
        layer("cms.store.toml", path("/cms", true)),
    ];
    assert_eq!(
        StoreConfig::load_in(&layers).unwrap_err(),
        Error::Endpoint("reading store.toml: permission denied".to_string())
    );
}

#[test]
fn an_unknown_home_is_refused_and_never_guessed() {
    let layers = shared(path("/shared", true));
    assert_eq!(
        StoreConfig::load(false, true, &layers).unwrap_err(),
        Error::Endpoint(
            "no ikigai config home: neither XDG_CONFIG_HOME nor HOME is set, so `store.toml` has \
             no location to be read from"
                .to_string()
        )
    );
    assert_eq!(
        StoreConfig::load(true, false, &layers).unwrap_err(),
        Error::Endpoint(
            "no ikigai data home: HOME is not set, so the durable store has no default location. \
             Name one explicitly with `path` in store.toml"
                .to_string()
        )
    );
    assert_eq!(
        StoreConfig::load(true, true, &layers).unwrap().path,
        StorePath::AsWritten("/shared".to_string())
    );
}

#[test]
fn a_named_host_looks_for_a_file_of_its_own_after_the_shared_one() {
    assert_eq!(candidates(None), vec!["store.toml"]);
    assert_eq!(candidates(Some("")), vec!["store.toml"]);
    assert_eq!(candidates(Some("cms")), vec!["store.toml", "cms.store.toml"]);
}
