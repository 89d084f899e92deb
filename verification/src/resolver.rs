//! Where a configuration is looked for, and which of the files found decides.
//!
//! The places are searched in a fixed order. The caller looks at each place
//! and reports what it found there as a `Probe`; the first place that holds a
//! file that can be read as a configuration decides, and the built-in
//! configuration stands in where none does.

use crate::config::{default_config, Config, ConfigView};
use crate::path::{join, join_path, PathStyle};
use crate::text::string_texts;
use vstd::prelude::*;

verus! {

/// What was found at one place of the search.
#[derive(Debug)]
pub enum Probe {
    /// No file is there.
    Absent,
    /// A file is there, but it cannot be read as a configuration.
    Invalid,
    /// A file is there and holds this configuration.
    Valid(Config),
}

/// What was found at one place of the search, as a mathematical value.
pub enum ProbeView {
    Absent,
    Invalid,
    Valid(ConfigView),
}

impl View for Probe {
    type V = ProbeView;

    open spec fn view(&self) -> ProbeView {
        match self {
            Probe::Absent => ProbeView::Absent,
            Probe::Invalid => ProbeView::Invalid,
            Probe::Valid(config) => ProbeView::Valid(config@),
        }
    }
}

/// What a list of probes holds, as mathematical values.
pub open spec fn probe_views(probes: Seq<Probe>) -> Seq<ProbeView> {
    Seq::new(probes.len(), |i: int| probes[i]@)
}

/// The place of the configuration file in a directory that may be unknown:
/// the path of the entry `leaf` in `dir`, or no place at all.
pub open spec fn place_in(dir: Option<Seq<char>>, leaf: Seq<char>, style: PathStyle) -> Seq<
    Seq<char>,
> {
    match dir {
        Some(d) => seq![join(d, leaf, style)],
        None => Seq::empty(),
    }
}

/// The places at which a configuration is looked for, in the order of the
/// search: `.auto-header.toml` in the workspace root, `auto-header.toml` in the
/// directory `zed` of the user's configuration directory, and
/// `.auto-header.toml` in the user's home directory. A directory that is not
/// known gives no place.
pub open spec fn search_places(
    workspace_root: Option<Seq<char>>,
    config_dir: Option<Seq<char>>,
    home_dir: Option<Seq<char>>,
    style: PathStyle,
) -> Seq<Seq<char>> {
    let user_dir = match config_dir {
        Some(d) => Some(join(d, "zed"@, style)),
        None => None,
    };
    place_in(workspace_root, ".auto-header.toml"@, style) + place_in(
        user_dir,
        "auto-header.toml"@,
        style,
    ) + place_in(home_dir, ".auto-header.toml"@, style)
}

/// The text of a string that may be missing.
pub open spec fn text_of(s: Option<&str>) -> Option<Seq<char>> {
    match s {
        Some(t) => Some(t@),
        None => None,
    }
}

/// Whether a file was found at any place.
pub open spec fn any_present(probes: Seq<ProbeView>) -> bool {
    exists|i: int| 0 <= i < probes.len() && !(#[trigger] probes[i] is Absent)
}

/// Whether a configuration was found at any place.
pub open spec fn any_valid(probes: Seq<ProbeView>) -> bool {
    exists|i: int| 0 <= i < probes.len() && #[trigger] probes[i] is Valid
}

/// Whether place `i` is the first that holds a configuration.
pub open spec fn is_first_valid(probes: Seq<ProbeView>, i: int) -> bool {
    &&& 0 <= i < probes.len()
    &&& probes[i] is Valid
    &&& forall|j: int| 0 <= j < i ==> !(#[trigger] probes[j] is Valid)
}

/// The configuration that the search yields: that of the first place that
/// holds one, or the built-in one where no place does.
pub open spec fn resolve(probes: Seq<ProbeView>) -> ConfigView
    decreases probes.len(),
{
    if probes.len() == 0 {
        default_config()
    } else {
        match probes[0] {
            ProbeView::Valid(config) => config,
            _ => resolve(probes.skip(1)),
        }
    }
}

/// `dirs::config_dir`: the user's configuration directory, as the platform
/// and the environment give it, if there is one and its path is valid
/// Unicode. Nothing is known of the path.
#[verifier::external_body]
fn user_config_dir() -> (dir: Option<String>) {
    dirs::config_dir().and_then(|p| p.into_os_string().into_string().ok())
}

/// `dirs::home_dir`: the user's home directory, as the platform and the
/// environment give it, if there is one and its path is valid Unicode.
/// Nothing is known of the path.
#[verifier::external_body]
fn user_home_dir() -> (dir: Option<String>) {
    dirs::home_dir().and_then(|p| p.into_os_string().into_string().ok())
}

/// A string that may be missing, borrowed.
fn borrowed(s: &Option<String>) -> (r: Option<&str>)
    ensures
        text_of(r) == match s {
            Some(t) => Some(t@),
            None => None,
        },
{
    match s {
        Some(t) => Some(t.as_str()),
        None => None,
    }
}

/// The places at which a configuration is looked for, for the given
/// directories.
pub fn search_places_in(
    workspace_root: Option<&str>,
    config_dir: Option<&str>,
    home_dir: Option<&str>,
    style: PathStyle,
) -> (places: Vec<String>)
    ensures
        string_texts(places@) == search_places(
            text_of(workspace_root),
            text_of(config_dir),
            text_of(home_dir),
            style,
        ),
{
    let mut places: Vec<String> = Vec::new();
    if let Some(root) = workspace_root {
        places.push(join_path(root, ".auto-header.toml", style));
    }
    if let Some(dir) = config_dir {
        let user_dir = join_path(dir, "zed", style);
        places.push(join_path(user_dir.as_str(), "auto-header.toml", style));
    }
    if let Some(home) = home_dir {
        places.push(join_path(home, ".auto-header.toml", style));
    }
    places
}

/// The places at which a configuration is looked for, with the user's
/// directories as the platform gives them.
pub fn search_places_for(workspace_root: Option<&str>, style: PathStyle) -> (places: Vec<String>)
    ensures
        exists|config_dir: Option<Seq<char>>, home_dir: Option<Seq<char>>|
            string_texts(places@) == #[trigger] search_places(
                text_of(workspace_root),
                config_dir,
                home_dir,
                style,
            ),
{
    let config_dir = user_config_dir();
    let home_dir = user_home_dir();
    let config_ref = borrowed(&config_dir);
    let home_ref = borrowed(&home_dir);
    let places = search_places_in(workspace_root, config_ref, home_ref, style);
    places
}

impl Config {
    /// Whether a configuration file was found at any place of the search. A
    /// file counts whether or not it can be read as a configuration.
    pub fn config_exists(probes: &Vec<Probe>) -> (found: bool)
        ensures
            found == any_present(probe_views(probes@)),
    {
        let ghost views = probe_views(probes@);
        let mut i: usize = 0;
        while i < probes.len()
            invariant
                i <= probes.len(),
                views == probe_views(probes@),
                forall|j: int| 0 <= j < i ==> #[trigger] views[j] is Absent,
            decreases probes.len() - i,
        {
            if !matches!(probes[i], Probe::Absent) {
                return true;
            }
            assert(views[i as int] is Absent);
            i += 1;
        }
        false
    }

    /// The configuration that the search yields: that of the first place that
    /// holds one, or the built-in one where no place does. A place whose file
    /// cannot be read as a configuration is passed over.
    pub fn load_from_workspace(probes: &Vec<Probe>) -> (config: Config)
        ensures
            config@ == resolve(probe_views(probes@)),
            forall|i: int|
                is_first_valid(probe_views(probes@), i) ==> config@ == probe_views(
                    probes@,
                )[i]->Valid_0,
            !any_valid(probe_views(probes@)) ==> config@ == default_config(),
    {
        let ghost views = probe_views(probes@);
        let mut i: usize = 0;
        assert(views.skip(0) =~= views);
        while i < probes.len()
            invariant
                i <= probes.len(),
                views == probe_views(probes@),
                resolve(views) == resolve(views.skip(i as int)),
            decreases probes.len() - i,
        {
            let ghost rest = views.skip(i as int);
            assert(rest.skip(1) =~= views.skip(i + 1));
            if let Probe::Valid(config) = &probes[i] {
                proof {
                    lemma_resolve(views);
                }
                return config.clone();
            }
            i += 1;
        }
        proof {
            lemma_resolve(views);
        }
        Config::default()
    }
}

/// The order of the search decides: the search yields the configuration of the
/// first place that holds one, whatever stands at the places before it (no
/// file, or a file that cannot be read) and behind it; where no place holds
/// one, it yields the built-in configuration.
pub proof fn lemma_resolve(probes: Seq<ProbeView>)
    ensures
        forall|i: int| is_first_valid(probes, i) ==> resolve(probes) == probes[i]->Valid_0,
        !any_valid(probes) ==> resolve(probes) == default_config(),
    decreases probes.len(),
{
    if probes.len() > 0 {
        let rest = probes.skip(1);
        lemma_resolve(rest);
        assert forall|i: int| is_first_valid(probes, i) implies resolve(probes)
            == probes[i]->Valid_0 by {
            if i > 0 {
                assert(is_first_valid(rest, i - 1));
            }
        }
    }
}

/// A place that holds a configuration also holds a file: where any place of
/// the search holds a configuration, a file is found, and the search yields
/// the configuration of the first such place, not the built-in one.
pub proof fn lemma_exists_when_resolved(probes: Seq<ProbeView>)
    requires
        any_valid(probes),
    ensures
        any_present(probes),
        exists|i: int| is_first_valid(probes, i) && resolve(probes) == probes[i]->Valid_0,
    decreases probes.len(),
{
    let k = choose|k: int| 0 <= k < probes.len() && #[trigger] probes[k] is Valid;
    lemma_resolve(probes);
    if probes[0] is Valid {
        assert(is_first_valid(probes, 0));
    } else {
        let rest = probes.skip(1);
        assert(rest[k - 1] is Valid);
        lemma_exists_when_resolved(rest);
        let i = choose|i: int| is_first_valid(rest, i) && resolve(rest) == rest[i]->Valid_0;
        assert(is_first_valid(probes, i + 1)) by {
            assert forall|j: int| 0 <= j < i + 1 implies !(#[trigger] probes[j] is Valid) by {
                if j > 0 {
                    assert(probes[j] == rest[j - 1]);
                }
            }
        }
    }
}

/// Where no file is found at any place, the search yields the built-in
/// configuration.
pub proof fn lemma_default_when_absent(probes: Seq<ProbeView>)
    requires
        !any_present(probes),
    ensures
        resolve(probes) == default_config(),
{
    assert(!any_valid(probes));
    lemma_resolve(probes);
}

} // verus!
