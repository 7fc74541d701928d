//! The decisions of the main command: where the repository set comes from,
//! which repository a search picks, and how a missing repository is cloned.
//! The caller performs each step and reports what it found.

use vstd::prelude::*;

use crate::fuzzy_matcher::{is_match_result, FuzzyMatcher, RepositoryMatcher};
use crate::repository::{views, Repository, RepositoryView};

verus! {

/// Where the repository set comes from.
#[derive(Debug, Clone, Copy, PartialEq, Eq, Structural)]
pub enum RepositorySource {
    /// Read the cache, and aggregate and store only where it gives nothing.
    CacheOrAggregate,
    /// Aggregate; store the result in the cache where `store` is set.
    Aggregate { store: bool },
}

/// How a repository that is not on disk yet gets there.
#[derive(Debug, Clone, Copy, PartialEq, Eq, Structural)]
pub enum CloneMode {
    /// Leave it absent.
    Skip,
    /// Clone in the background behind a progress display.
    Inline,
    /// Clone in the foreground.
    Plain,
}

/// The options of the main command.
#[derive(Debug, Clone, Copy, PartialEq, Eq, Structural)]
pub struct RootCommand {
    /// Use the cache.
    pub cache: bool,
    /// Clone the chosen repository where it is missing.
    pub clone: bool,
    /// Open a shell in the chosen repository.
    pub shell: bool,
    /// Remove and clone the chosen repository afresh.
    pub force_refresh: bool,
    /// Aggregate and rewrite the cache whatever it holds.
    pub force_cache_update: bool,
}

impl RootCommand {
    /// A forced cache update aggregates and stores; otherwise the cache is
    /// tried first where it is in use, and bypassed where it is not.
    pub fn repository_source(&self) -> (r: RepositorySource)
        ensures
            r == if self.force_cache_update {
                RepositorySource::Aggregate { store: true }
            } else if self.cache {
                RepositorySource::CacheOrAggregate
            } else {
                RepositorySource::Aggregate { store: false }
            },
    {
        if self.force_cache_update {
            RepositorySource::Aggregate { store: true }
        } else if self.cache {
            RepositorySource::CacheOrAggregate
        } else {
            RepositorySource::Aggregate { store: false }
        }
    }

    /// The repository that a search text picks: the best fuzzy match, if any.
    pub fn pick(&self, search: &str, repositories: &[Repository]) -> (r: Option<Repository>)
        ensures
            forall|m: Seq<RepositoryView>|
                is_match_result(search@, views(repositories@), m) ==> match r {
                    Some(x) => m.len() > 0 && x@ == m[0],
                    None => m.len() == 0,
                },
    {
        let matched = FuzzyMatcher::new().match_repositories(search, repositories);
        proof {
            assert forall|m: Seq<RepositoryView>|
                is_match_result(search@, views(repositories@), m) implies m == views(matched@) by {
                crate::fuzzy_matcher::lemma_match_deterministic(
                    search@,
                    views(repositories@),
                    m,
                    views(matched@),
                );
            }
        }
        if matched.len() == 0 {
            None
        } else {
            Some(matched[0].duplicate())
        }
    }

    /// How to bring the chosen repository onto disk: nothing where it is
    /// there or cloning is off; in the background where the output is a
    /// terminal and a shell follows; in the foreground otherwise.
    pub fn clone_mode(&self, target_exists: bool, stdout_is_terminal: bool) -> (r: CloneMode)
        ensures
            r == if target_exists || !self.clone {
                CloneMode::Skip
            } else if stdout_is_terminal && self.shell {
                CloneMode::Inline
            } else {
                CloneMode::Plain
            },
    {
        if target_exists || !self.clone {
            CloneMode::Skip
        } else if stdout_is_terminal && self.shell {
            CloneMode::Inline
        } else {
            CloneMode::Plain
        }
    }
}

} // verus!
