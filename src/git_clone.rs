//! The clone orchestrator: where a repository goes on disk, what to do to
//! put it there, and a scheduler that bounds how many clones run at once.
//!
//! Running git, touching the file system and spawning tasks is left to the
//! caller, which reports back to the scheduler as clones finish.

use vstd::prelude::*;

use crate::config::Config;
use crate::paths::{join_path, path_join};
use crate::repository::{rel_path, views, Repository, RepositoryView};

verus! {

/// Where a repository is cloned: its canonical path under the projects directory.
pub open spec fn project_path(projects_dir: Seq<char>, r: RepositoryView) -> Seq<char> {
    path_join(projects_dir, rel_path(r))
}

/// What to do to have a repository on disk.
#[derive(Debug)]
pub struct CloneAction {
    /// The target directory.
    pub path: String,
    /// Remove the existing target directory first.
    pub remove_existing: bool,
    /// The arguments to run `git` with; `None` where the repository is there already.
    pub git_args: Option<Vec<String>>,
}

/// Clones repositories under the projects directory.
pub struct GitClone {
    pub projects_directory: String,
}

impl GitClone {
    pub fn new(config: &Config) -> (r: GitClone)
        ensures
            r.projects_directory@ == config.settings.projects.directory@,
    {
        GitClone { projects_directory: config.settings.projects.directory.clone() }
    }

    /// The directory that `repository` is cloned into.
    pub fn project_path(&self, repository: &Repository) -> (r: String)
        ensures
            r@ == project_path(self.projects_directory@, repository@),
    {
        let rel = repository.to_rel_path();
        join_path(self.projects_directory.as_str(), rel.as_str())
    }

    /// What cloning `repository` takes, given whether its target directory
    /// exists: with `force_refresh` an existing directory is removed and the
    /// repository cloned afresh; otherwise an existing directory is kept and
    /// nothing is cloned. Cloning runs `git clone <ssh_url> <target>`.
    pub fn clone_repo(&self, repository: &Repository, force_refresh: bool, target_exists: bool) -> (r:
        CloneAction)
        ensures
            r.path@ == project_path(self.projects_directory@, repository@),
            r.remove_existing == (force_refresh && target_exists),
            (target_exists && !force_refresh) <==> r.git_args is None,
            r.git_args matches Some(args) ==> args@.len() == 3 && args@[0]@ == "clone"@
                && args@[1]@ == repository.ssh_url@ && args@[2]@ == r.path@,
    {
        let path = self.project_path(repository);
        if target_exists && !force_refresh {
            return CloneAction { path, remove_existing: false, git_args: None };
        }
        let mut args: Vec<String> = Vec::new();
        args.push("clone".to_owned());
        args.push(repository.ssh_url.clone());
        args.push(path.clone());
        CloneAction { path, remove_existing: target_exists, git_args: Some(args) }
    }
}

/// Hands out clone tasks so that at most `limit` run at once, and collects
/// how they ended. Tasks are numbered `0..total` and start in that order.
pub struct CloneScheduler {
    limit: usize,
    total: usize,
    next: usize,
    running: usize,
    first_failure: Option<usize>,
}

impl CloneScheduler {
    /// At most this many tasks hold a permit at any time.
    pub closed spec fn limit_spec(&self) -> nat {
        self.limit as nat
    }

    pub closed spec fn total_spec(&self) -> nat {
        self.total as nat
    }

    /// Tasks started so far.
    pub closed spec fn started(&self) -> nat {
        self.next as nat
    }

    /// Tasks started and not yet finished: those holding a permit.
    pub closed spec fn running_spec(&self) -> nat {
        self.running as nat
    }

    pub closed spec fn first_failure_spec(&self) -> Option<usize> {
        self.first_failure
    }

    /// The scheduler's invariant: never more running tasks than the limit,
    /// and never more started than there are.
    pub closed spec fn wf(&self) -> bool {
        &&& self.limit > 0
        &&& self.running <= self.limit
        &&& self.running <= self.next
        &&& self.next <= self.total
        &&& self.first_failure matches Some(i) ==> i < self.next
    }

    /// A well-formed scheduler never has more tasks holding a permit than
    /// its limit, however many tasks it was given.
    pub proof fn lemma_running_within_limit(&self)
        requires
            self.wf(),
        ensures
            self.running_spec() <= self.limit_spec(),
            self.started() <= self.total_spec(),
    {
    }

    /// A scheduler for `total` tasks, at most `limit` of them at once.
    pub fn new(total: usize, limit: usize) -> (r: CloneScheduler)
        requires
            limit > 0,
        ensures
            r.wf(),
            r.limit_spec() == limit,
            r.total_spec() == total,
            r.started() == 0,
            r.running_spec() == 0,
            r.first_failure_spec() is None,
    {
        CloneScheduler { limit, total, next: 0, running: 0, first_failure: None }
    }

    /// The next task to start, where a permit is free and a task is left.
    pub fn start_next(&mut self) -> (r: Option<usize>)
        requires
            old(self).wf(),
        ensures
            final(self).wf(),
            final(self).limit_spec() == old(self).limit_spec(),
            final(self).total_spec() == old(self).total_spec(),
            final(self).first_failure_spec() == old(self).first_failure_spec(),
            if old(self).running_spec() < old(self).limit_spec() && old(self).started()
                < old(self).total_spec() {
                &&& r == Some(old(self).started() as usize)
                &&& final(self).started() == old(self).started() + 1
                &&& final(self).running_spec() == old(self).running_spec() + 1
            } else {
                &&& r is None
                &&& final(self).started() == old(self).started()
                &&& final(self).running_spec() == old(self).running_spec()
            },
    {
        if self.running < self.limit && self.next < self.total {
            let task = self.next;
            self.next = self.next + 1;
            self.running = self.running + 1;
            Some(task)
        } else {
            None
        }
    }

    /// Records that the running task `task` finished, well or not; the
    /// first failure is kept.
    pub fn finish(&mut self, task: usize, succeeded: bool)
        requires
            old(self).wf(),
            old(self).running_spec() > 0,
            task < old(self).started(),
        ensures
            final(self).wf(),
            final(self).limit_spec() == old(self).limit_spec(),
            final(self).total_spec() == old(self).total_spec(),
            final(self).started() == old(self).started(),
            final(self).running_spec() == old(self).running_spec() - 1,
            final(self).first_failure_spec() == if old(self).first_failure_spec() is None
                && !succeeded {
                Some(task)
            } else {
                old(self).first_failure_spec()
            },
    {
        self.running = self.running - 1;
        if !succeeded && self.first_failure.is_none() {
            self.first_failure = Some(task);
        }
    }

    /// How many tasks hold a permit now.
    pub fn running_tasks(&self) -> (r: usize)
        ensures
            r == self.running_spec(),
    {
        self.running
    }

    /// Whether every task has started and finished.
    pub fn is_done(&self) -> (r: bool)
        requires
            self.wf(),
        ensures
            r == (self.started() == self.total_spec() && self.running_spec() == 0),
    {
        self.next == self.total && self.running == 0
    }

    /// How the batch ended: the first task that failed, if any.
    pub fn outcome(&self) -> (r: Result<(), usize>)
        ensures
            match self.first_failure_spec() {
                Some(i) => r == Err::<(), usize>(i),
                None => r is Ok,
            },
    {
        match self.first_failure {
            Some(i) => Err(i),
            None => Ok(()),
        }
    }
}

/// Whether the regular expression `pattern` compiles.
pub uninterp spec fn regex_compiles(pattern: Seq<char>) -> bool;

/// Whether the compiled regular expression `pattern` matches somewhere in `text`.
pub uninterp spec fn regex_is_match(pattern: Seq<char>, text: Seq<char>) -> bool;

/// Relies on `regex::Regex::new`, which fails on a pattern that does not
/// compile, and `regex::Regex::is_match`, which tells whether the compiled
/// pattern matches somewhere in the text.
#[verifier::external_body]
fn regex_matches(pattern: &str, text: &str) -> (r: Option<bool>)
    ensures
        r is Some <==> regex_compiles(pattern@),
        r matches Some(b) ==> b == regex_is_match(pattern@, text@),
{
    match regex::Regex::new(pattern) {
        Ok(re) => Some(re.is_match(text)),
        Err(_) => None,
    }
}

/// The repositories of `s` whose canonical paths `pattern` matches, in order.
pub open spec fn filter_by_pattern(pattern: Seq<char>, s: Seq<RepositoryView>) -> Seq<
    RepositoryView,
>
    decreases s.len(),
{
    if s.len() == 0 {
        Seq::empty()
    } else {
        let rest = filter_by_pattern(pattern, s.drop_last());
        if regex_is_match(pattern, rel_path(s.last())) {
            rest.push(s.last())
        } else {
            rest
        }
    }
}

/// The search pattern is not a valid regular expression.
#[derive(Debug, Clone, Copy, PartialEq, Eq, Structural)]
pub struct InvalidPattern;

/// Clones every cached repository whose canonical path a regular expression matches.
pub struct CloneCommand {
    pub search: String,
}

/// The most clones that run at once in a batch.
pub const CLONE_CONCURRENCY: usize = 5;

impl CloneCommand {
    /// The repositories to clone: those whose canonical path the search
    /// pattern matches, in order; an error where the pattern does not compile.
    pub fn select(&self, repositories: &[Repository]) -> (r: Result<Vec<Repository>, InvalidPattern>)
        ensures
            match r {
                Ok(v) => regex_compiles(self.search@) && views(v@) == filter_by_pattern(
                    self.search@,
                    views(repositories@),
                ),
                Err(_) => !regex_compiles(self.search@),
            },
    {
        if regex_matches(self.search.as_str(), "").is_none() {
            return Err(InvalidPattern);
        }
        let ghost all = views(repositories@);
        let mut out: Vec<Repository> = Vec::new();
        for i in 0..repositories.len()
            invariant
                all == views(repositories@),
                regex_compiles(self.search@),
                views(out@) == filter_by_pattern(self.search@, all.subrange(0, i as int)),
        {
            let path = repositories[i].to_rel_path();
            let keep = match regex_matches(self.search.as_str(), path.as_str()) {
                Some(b) => b,
                None => false,
            };
            proof {
                let pre = all.subrange(0, i + 1);
                assert(pre.drop_last() =~= all.subrange(0, i as int));
                assert(pre.last() == repositories@[i as int]@);
            }
            if keep {
                let ghost before = views(out@);
                out.push(repositories[i].duplicate());
                proof {
                    assert(views(out@) =~= before.push(repositories@[i as int]@));
                }
            }
        }
        proof {
            assert(all.subrange(0, repositories@.len() as int) =~= all);
        }
        Ok(out)
    }
}

} // verus!
