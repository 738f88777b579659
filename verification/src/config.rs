//! Where the durable dataset lives, stated in a file rather than in the environment.
//!
//! `store.toml` is a config file and lives where config files live; the dataset it names is
//! data and defaults to a directory under the data home.
//!
//! ```toml
//! path = "/Volumes/fast/ikigai-store"   # optional
//! ```
//!
//! `store.toml` states what every host shares, and `<app>.store.toml` beside it overrides the
//! keys one host differs on: a later layer wins. The host reads the files and hands over what
//! came of each; this module decides.

use crate::error::{Error, ErrorModel};
use crate::text::strings;
use vstd::prelude::*;

verus! {

/// The config file's name.
pub const STEM: &'static str = "store.toml";

/// The dataset directory's name under the data home, when no config file names one.
pub const DEFAULT_DIR: &'static str = "store";

/// What came of one candidate for a config file.
pub enum Layer {
    /// There is no such file.
    Missing,
    /// The file is there and could not be read, for this reason.
    Unreadable(String),
    /// The file could be read and is not a config file, for this reason.
    Unparsable(String),
    /// The file was read and names no path.
    Silent,
    /// The file was read and names a path, which is absolute or not.
    Path { path: String, absolute: bool },
}

/// A candidate for a config file, and what came of it.
pub struct Candidate {
    /// The file's own path, as it is shown.
    pub file: String,
    pub layer: Layer,
}

/// Where a dataset directory is.
#[derive(Debug, Clone, PartialEq, Eq)]
pub enum StorePath {
    /// At this path, as it is written.
    AsWritten(String),
    /// At this path under the data home.
    UnderDataHome(String),
}

/// Where this host's durable dataset lives.
#[derive(Debug, Clone, PartialEq, Eq)]
pub struct StoreConfig {
    /// The dataset directory.
    pub path: StorePath,
}

/// [`Layer`] over character sequences.
pub enum LayerModel {
    Missing,
    Unreadable(Seq<char>),
    Unparsable(Seq<char>),
    Silent,
    Path { path: Seq<char>, absolute: bool },
}

/// [`StorePath`] over character sequences.
pub enum StorePathModel {
    AsWritten(Seq<char>),
    UnderDataHome(Seq<char>),
}

impl View for Layer {
    type V = LayerModel;

    open spec fn view(&self) -> LayerModel {
        match self {
            Layer::Missing => LayerModel::Missing,
            Layer::Unreadable(reason) => LayerModel::Unreadable(reason@),
            Layer::Unparsable(reason) => LayerModel::Unparsable(reason@),
            Layer::Silent => LayerModel::Silent,
            Layer::Path { path, absolute } => LayerModel::Path { path: path@, absolute: *absolute },
        }
    }
}

impl View for Candidate {
    type V = (Seq<char>, LayerModel);

    open spec fn view(&self) -> (Seq<char>, LayerModel) {
        (self.file@, self.layer@)
    }
}

impl View for StorePath {
    type V = StorePathModel;

    open spec fn view(&self) -> StorePathModel {
        match self {
            StorePath::AsWritten(path) => StorePathModel::AsWritten(path@),
            StorePath::UnderDataHome(path) => StorePathModel::UnderDataHome(path@),
        }
    }
}

impl View for StoreConfig {
    type V = StorePathModel;

    open spec fn view(&self) -> StorePathModel {
        self.path@
    }
}

/// The names of the config files that a host looks for, the shared one first. A host without a
/// name has no file of its own.
pub open spec fn file_names(app: Option<Seq<char>>) -> Seq<Seq<char>> {
    match app {
        Some(app) => if app.len() > 0 {
            seq![STEM@, app + "."@ + STEM@]
        } else {
            seq![STEM@]
        },
        None => seq![STEM@],
    }
}

/// The names of the config files that a host looks for, the shared one first.
pub fn candidates(app: Option<&str>) -> (r: Vec<String>)
    ensures
        strings(r@) == file_names(
            match app {
                Some(app) => Some(app@),
                None => None,
            },
        ),
{
    let mut names: Vec<String> = Vec::new();
    names.push(STEM.to_owned());
    assert(strings(names@) =~= seq![STEM@]);
    match app {
        Some(app) => {
            if !app.is_empty() {
                let mut own = app.to_owned();
                own.append(".");
                own.append(STEM);
                names.push(own);
                assert(strings(names@) =~= seq![STEM@, app@ + "."@ + STEM@]);
            }
        },
        None => {},
    }
    names
}

/// The candidates over character sequences.
pub open spec fn candidates_view(candidates: Seq<Candidate>) -> Seq<(Seq<char>, LayerModel)> {
    candidates.map_values(|candidate: Candidate| candidate@)
}

/// A file that could not be read.
pub open spec fn reading_failed(file: Seq<char>, reason: Seq<char>) -> ErrorModel {
    ErrorModel::Endpoint("reading "@ + file + ": "@ + reason)
}

/// A file that is not a config file.
pub open spec fn parsing_failed(file: Seq<char>, reason: Seq<char>) -> ErrorModel {
    ErrorModel::Endpoint("parsing "@ + file + ": "@ + reason)
}

/// A path that is empty.
pub open spec fn empty_path(file: Seq<char>) -> ErrorModel {
    ErrorModel::Endpoint(
        file
            + ": `path` is empty — a store directory of \"\" is the current working directory wearing a configuration's clothes"@,
    )
}

/// The path that the layers name, if any: the last one that does wins. A file that is there
/// and cannot be used is a refusal, since the operator believes it is in effect.
pub open spec fn named_path(layers: Seq<(Seq<char>, LayerModel)>) -> Result<
    Option<StorePathModel>,
    ErrorModel,
>
    decreases layers.len(),
{
    if layers.len() == 0 {
        Ok(None)
    } else {
        match named_path(layers.drop_last()) {
            Err(e) => Err(e),
            Ok(so_far) => match layers.last().1 {
                LayerModel::Missing => Ok(so_far),
                LayerModel::Silent => Ok(so_far),
                LayerModel::Unreadable(reason) => Err(reading_failed(layers.last().0, reason)),
                LayerModel::Unparsable(reason) => Err(parsing_failed(layers.last().0, reason)),
                LayerModel::Path { path, absolute } => if path.len() == 0 {
                    Err(empty_path(layers.last().0))
                } else if absolute {
                    Ok(Some(StorePathModel::AsWritten(path)))
                } else {
                    Ok(Some(StorePathModel::UnderDataHome(path)))
                },
            },
        }
    }
}

/// Where the dataset lives: where the layers say, else at the default place.
pub open spec fn configured(layers: Seq<(Seq<char>, LayerModel)>) -> Result<
    StorePathModel,
    ErrorModel,
> {
    match named_path(layers) {
        Err(e) => Err(e),
        Ok(Some(path)) => Ok(path),
        Ok(None) => Ok(StorePathModel::UnderDataHome(DEFAULT_DIR@)),
    }
}

/// No config home is known.
pub open spec fn no_config_home() -> ErrorModel {
    ErrorModel::Endpoint(
        "no ikigai config home: neither XDG_CONFIG_HOME nor HOME is set, so `store.toml` has no location to be read from"@,
    )
}

/// No data home is known.
pub open spec fn no_data_home() -> ErrorModel {
    ErrorModel::Endpoint(
        "no ikigai data home: HOME is not set, so the durable store has no default location. Name one explicitly with `path` in store.toml"@,
    )
}

/// A refusal in the first layers is the refusal of them all.
proof fn lemma_refused(layers: Seq<(Seq<char>, LayerModel)>, n: int, e: ErrorModel)
    requires
        0 <= n <= layers.len(),
        named_path(layers.take(n)) == Err::<Option<StorePathModel>, ErrorModel>(e),
    ensures
        named_path(layers) == Err::<Option<StorePathModel>, ErrorModel>(e),
    decreases layers.len(),
{
    if n == layers.len() {
        assert(layers.take(n) == layers);
    } else {
        assert(layers.drop_last().take(n) == layers.take(n));
        lemma_refused(layers.drop_last(), n, e);
    }
}

/// The path that one layer names, if any.
fn layer_path(candidate: &Candidate) -> (r: Result<Option<StorePath>, Error>)
    ensures
        match r {
            Ok(Some(path)) => named_path(seq![candidate@]) == Ok::<
                Option<StorePathModel>,
                ErrorModel,
            >(Some(path@)) && candidate@.1 is Path,
            Ok(None) => candidate@.1 is Missing || candidate@.1 is Silent,
            Err(e) => named_path(seq![candidate@]) == Err::<Option<StorePathModel>, ErrorModel>(
                e@,
            ),
        },
{
    proof {
        reveal_with_fuel(named_path, 2);
        assert(seq![candidate@].drop_last() =~= Seq::empty());
    }
    let file = candidate.file.as_str();
    match &candidate.layer {
        Layer::Missing => Ok(None),
        Layer::Silent => Ok(None),
        Layer::Unreadable(reason) => {
            let mut text = "reading ".to_owned();
            text.append(file);
            text.append(": ");
            text.append(reason.as_str());
            Err(Error::Endpoint(text))
        },
        Layer::Unparsable(reason) => {
            let mut text = "parsing ".to_owned();
            text.append(file);
            text.append(": ");
            text.append(reason.as_str());
            Err(Error::Endpoint(text))
        },
        Layer::Path { path, absolute } => {
            if path.as_str().is_empty() {
                let mut text = file.to_owned();
                text.append(
                    ": `path` is empty — a store directory of \"\" is the current working directory wearing a configuration's clothes",
                );
                Err(Error::Endpoint(text))
            } else if *absolute {
                Ok(Some(StorePath::AsWritten(path.clone())))
            } else {
                Ok(Some(StorePath::UnderDataHome(path.clone())))
            }
        },
    }
}

impl StoreConfig {
    /// Where the dataset lives, given whether the two homes are known and what came of the
    /// layers. It is refused, and never guessed, where a home is not known.
    pub fn load(config_home: bool, data_home: bool, layers: &Vec<Candidate>) -> (r: Result<
        StoreConfig,
        Error,
    >)
        ensures
            crate::error::outcome(r) == if !config_home {
                Err(no_config_home())
            } else if !data_home {
                Err(no_data_home())
            } else {
                configured(candidates_view(layers@))
            },
    {
        if !config_home {
            return Err(
                Error::Endpoint(
                    "no ikigai config home: neither XDG_CONFIG_HOME nor HOME is set, so `store.toml` has no location to be read from".to_owned(),
                ),
            );
        }
        if !data_home {
            return Err(
                Error::Endpoint(
                    "no ikigai data home: HOME is not set, so the durable store has no default location. Name one explicitly with `path` in store.toml".to_owned(),
                ),
            );
        }
        StoreConfig::load_in(layers)
    }

    /// Where the dataset lives, given what came of the layers, the shared one first.
    ///
    /// An absolute path is taken as it is written. A relative one is rooted at the data home
    /// and not at the working directory: a store that moves with `cd` is no store.
    pub fn load_in(layers: &Vec<Candidate>) -> (r: Result<StoreConfig, Error>)
        ensures
            crate::error::outcome(r) == configured(candidates_view(layers@)),
    {
        let ghost view = candidates_view(layers@);
        let mut path: Option<StorePath> = None;
        let mut i: usize = 0;
        while i < layers.len()
            invariant
                i <= layers@.len(),
                view == candidates_view(layers@),
                named_path(view.take(i as int)) == Ok::<Option<StorePathModel>, ErrorModel>(
                    match path {
                        Some(path) => Some(path@),
                        None => None,
                    },
                ),
            decreases layers@.len() - i,
        {
            proof {
                assert(view.take(i + 1).drop_last() == view.take(i as int));
                assert(view.take(i + 1).last() == view[i as int]);
                reveal_with_fuel(named_path, 2);
                assert(seq![view[i as int]].drop_last() =~= Seq::empty());
            }
            match layer_path(&layers[i]) {
                Ok(Some(named)) => {
                    path = Some(named);
                },
                Ok(None) => {},
                Err(e) => {
                    proof {
                        lemma_refused(view, i + 1, e@);
                    }
                    return Err(e);
                },
            }
            i += 1;
        }
        assert(view.take(layers@.len() as int) == view);
        match path {
            Some(path) => Ok(StoreConfig { path }),
            None => Ok(StoreConfig { path: StorePath::UnderDataHome(DEFAULT_DIR.to_owned()) }),
        }
    }
}

/// A layer that is not there, or that names no path, changes nothing.
pub proof fn a_silent_layer_changes_nothing(
    layers: Seq<(Seq<char>, LayerModel)>,
    file: Seq<char>,
    layer: LayerModel,
)
    requires
        layer is Missing || layer is Silent,
    ensures
        configured(layers.push((file, layer))) == configured(layers),
{
    assert(layers.push((file, layer)).drop_last() =~= layers);
}

/// Where every layer can be used, the last one that names a path wins, whatever came before.
pub proof fn a_later_path_wins(
    layers: Seq<(Seq<char>, LayerModel)>,
    file: Seq<char>,
    path: Seq<char>,
    absolute: bool,
)
    requires
        configured(layers) is Ok,
        path.len() > 0,
    ensures
        configured(layers.push((file, LayerModel::Path { path, absolute }))) == Ok::<
            StorePathModel,
            ErrorModel,
        >(
            if absolute {
                StorePathModel::AsWritten(path)
            } else {
                StorePathModel::UnderDataHome(path)
            },
        ),
{
    assert(layers.push((file, LayerModel::Path { path, absolute })).drop_last() =~= layers);
}

} // verus!
