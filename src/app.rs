//! The configuration handle that the components are built from.

use vstd::prelude::*;

use crate::cache_codec::CacheCodec;
use crate::config::Config;
use crate::fuzzy_matcher::FuzzyMatcher;
use crate::git_clone::GitClone;
use crate::interactive::Interactive;

verus! {

/// Holds the configuration, created once at startup and read-only after.
pub struct App {
    pub config: Config,
}

impl App {
    pub fn new(config: Config) -> (r: App)
        ensures
            r.config == config,
    {
        App { config }
    }
}

pub trait CacheCodecApp {
    fn cache_codec(&self) -> CacheCodec;
}

impl CacheCodecApp for App {
    fn cache_codec(&self) -> CacheCodec {
        CacheCodec::new()
    }
}

pub trait FuzzyMatcherApp {
    fn fuzzy_matcher(&self) -> FuzzyMatcher;
}

impl FuzzyMatcherApp for App {
    fn fuzzy_matcher(&self) -> FuzzyMatcher {
        FuzzyMatcher::new()
    }
}

pub trait InteractiveApp {
    fn interactive(&self) -> Interactive;
}

impl InteractiveApp for App {
    fn interactive(&self) -> Interactive {
        Interactive::new()
    }
}

pub trait GitCloneApp {
    spec fn projects_directory(&self) -> Seq<char>;

    fn git_clone(&self) -> (r: GitClone)
        ensures
            r.projects_directory@ == self.projects_directory(),
    ;
}

impl GitCloneApp for App {
    open spec fn projects_directory(&self) -> Seq<char> {
        self.config.settings.projects.directory@
    }

    fn git_clone(&self) -> (r: GitClone) {
        GitClone::new(&self.config)
    }
}

} // verus!
