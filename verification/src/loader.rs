use vstd::prelude::*;

use crate::config::RawConfig;
use crate::language::Language;
use crate::language_map::{overlaid, KindLists, LanguageMap};
use crate::query::RawQuery;
use crate::utils::RawPath;

verus! {

/// Where configuration files are looked for.
#[derive(Debug)]
pub struct ConfigPaths {
    /// The file for all users of the machine.
    pub global_config: Option<RawPath>,
    /// The file of the user.
    pub user_config: Option<RawPath>,
    /// The file of the project that the search starts in.
    pub project_config: Option<RawPath>,
}

/// Which of the three configuration files are there.
#[derive(Clone, Copy, Debug, PartialEq, Eq, Structural)]
pub struct Existing {
    pub global_config: bool,
    pub user_config: bool,
    pub project_config: bool,
}

/// A path, if there is one and it exists.
pub open spec fn if_existing(path: Option<RawPath>, exists: bool) -> Seq<Seq<u8>> {
    match path {
        Some(p) => if exists {
            seq![p@]
        } else {
            Seq::empty()
        },
        None => Seq::empty(),
    }
}

/// The bytes of each listed path.
pub open spec fn listed_paths(paths: Seq<&RawPath>) -> Seq<Seq<u8>> {
    paths.map_values(|p: &RawPath| p@)
}

impl ConfigPaths {
    /// The configuration files that are there, from the most general to
    /// the most specific: the global one, the user's, the project's.
    pub fn iter_existing(&self, existing: Existing) -> (paths: Vec<&RawPath>)
        ensures
            listed_paths(paths@) == if_existing(self.global_config, existing.global_config)
                + if_existing(self.user_config, existing.user_config) + if_existing(
                self.project_config,
                existing.project_config,
            ),
    {
        let mut paths: Vec<&RawPath> = Vec::new();
        if existing.global_config {
            if let Some(path) = &self.global_config {
                paths.push(path);
            }
        }
        if existing.user_config {
            if let Some(path) = &self.user_config {
                paths.push(path);
            }
        }
        if existing.project_config {
            if let Some(path) = &self.project_config {
                paths.push(path);
            }
        }
        assert(listed_paths(paths@) =~= if_existing(self.global_config, existing.global_config)
            + if_existing(self.user_config, existing.user_config) + if_existing(
            self.project_config,
            existing.project_config,
        ));
        paths
    }
}

/// Layers the configurations that were found into one.
#[derive(Debug)]
pub struct ConfigLoader {
    paths: ConfigPaths,
}

/// The queries after the first `n` layers were laid on `start`, one after
/// the other.
pub open spec fn layered(
    start: Map<Language, KindLists<RawQuery>>,
    layers: Seq<RawConfig>,
    n: int,
) -> Map<Language, KindLists<RawQuery>>
    decreases n,
{
    if n <= 0 {
        start
    } else {
        overlaid(layered(start, layers, n - 1), layers[n - 1].languages@)
    }
}

impl ConfigLoader {
    pub fn new(paths: ConfigPaths) -> (loader: Self)
        ensures
            *loader.get_config_paths() == paths,
    {
        Self { paths }
    }

    #[verifier::when_used_as_spec(spec_config_paths)]
    pub fn get_config_paths(&self) -> (paths: &ConfigPaths)
        ensures
            paths == self.spec_config_paths(),
    {
        &self.paths
    }

    pub closed spec fn spec_config_paths(&self) -> &ConfigPaths {
        &self.paths
    }

    /// Lays the configurations that were read on `start`, in the order
    /// given: a later one replaces the queries of every language that it
    /// names, whole, and leaves the other languages as they are. What
    /// `start` inherits stays in force.
    pub fn load_merged_config(&self, start: RawConfig, layers: Vec<RawConfig>) -> (merged_config:
        RawConfig)
        requires
            start.wf(),
            forall|i: int| 0 <= i < layers@.len() ==> (#[trigger] layers@[i]).wf(),
        ensures
            merged_config.wf(),
            merged_config.inherit == start.inherit,
            merged_config.languages@ == layered(start.languages@, layers@, layers@.len() as int),
    {
        let ghost all = layers@;
        let ghost first = start.languages@;
        let mut merged_config = start;
        let mut rest = layers;
        let ghost mut done: int = 0;
        while rest.len() > 0
            invariant
                0 <= done <= all.len(),
                rest@ =~= all.skip(done),
                forall|i: int| 0 <= i < all.len() ==> (#[trigger] all[i]).wf(),
                merged_config.wf(),
                merged_config.inherit == start.inherit,
                merged_config.languages@ == layered(first, all, done),
            decreases rest.len(),
        {
            let ghost left = rest@;
            assert(left.len() == all.len() - done);
            assert(left[0] == all[done]);
            let layer = rest.remove(0);
            assert(rest@ =~= all.skip(done + 1));
            assert(layer.wf());
            merged_config = merge_configs(merged_config, layer);
            proof {
                done = done + 1;
            }
        }
        merged_config
    }
}

/// Lays one configuration on another. Every language of `overlay` brings
/// all its queries and hides what `base` has for it; nothing is merged
/// below the language. What `base` inherits stays in force.
pub fn merge_configs(base: RawConfig, overlay: RawConfig) -> (merged_config: RawConfig)
    requires
        base.wf(),
        overlay.wf(),
    ensures
        merged_config.wf(),
        merged_config.inherit == base.inherit,
        merged_config.languages@ == overlaid(base.languages@, overlay.languages@),
{
    RawConfig {
        inherit: base.inherit,
        languages: LanguageMap::overlay(base.languages, overlay.languages),
    }
}

} // verus!
