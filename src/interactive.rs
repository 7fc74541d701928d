//! The interactive search: a state machine fed with key presses that narrows
//! the repository set with the fuzzy matcher until one repository is chosen
//! or the search is cancelled. Drawing and reading the terminal are left to
//! the caller.

use vstd::prelude::*;

use crate::fuzzy_matcher::{
    haystack, is_match_result, FuzzyMatcher, RepositoryMatcher,
};
use crate::repository::{views, Repository, RepositoryView};
use crate::text::{pop_char, push_char};

verus! {

/// A key press as the search sees it.
#[derive(Debug)]
pub enum Key {
    Char(char),
    Backspace,
    Up,
    Down,
    Enter,
    Esc,
    Other,
}

/// Where the search stands.
#[derive(Debug)]
pub enum SessionState {
    Searching,
    Resolved(Repository),
    Cancelled,
}

/// The selection after the matches were recomputed and now number `len`:
/// kept where still in range, else moved to the last match; the first match
/// where nothing was selected; nothing where nothing matches.
pub open spec fn reselect(prev: Option<usize>, len: nat) -> Option<usize> {
    if len == 0 {
        None
    } else {
        match prev {
            None => Some(0),
            Some(i) => if i < len {
                Some(i)
            } else {
                Some((len - 1) as usize)
            },
        }
    }
}

/// The selection moved one match up the list, staying on the last match.
pub open spec fn select_next(prev: Option<usize>, len: nat) -> Option<usize> {
    if len == 0 {
        None
    } else {
        match prev {
            None => Some(0),
            Some(i) => if i + 1 < len {
                Some((i + 1) as usize)
            } else {
                Some((len - 1) as usize)
            },
        }
    }
}

/// The selection moved one match down the list, staying on the first match.
pub open spec fn select_previous(prev: Option<usize>, len: nat) -> Option<usize> {
    if len == 0 {
        None
    } else {
        match prev {
            None => Some(0),
            Some(i) => if i == 0 {
                Some(0)
            } else if i < len {
                Some((i - 1) as usize)
            } else {
                Some((len - 1) as usize)
            },
        }
    }
}

/// Starts interactive searches.
pub struct Interactive {}

impl Interactive {
    pub fn new() -> Self {
        Interactive {  }
    }

    /// A search over `repositories` with an empty query.
    pub fn start(&self, repositories: Vec<Repository>) -> (r: Session)
        ensures
            r.wf(),
            r.repositories() == views(repositories@),
            r.query() == Seq::<char>::empty(),
            r.matched() == haystack(views(repositories@)),
            r.selected() == reselect(None, r.matched().len()),
            r.state() is Searching,
    {
        let matcher = FuzzyMatcher::new();
        let query = String::new();
        let matched = matcher.match_repositories(query.as_str(), repositories.as_slice());
        let len = matched.len();
        let selected = if len == 0 {
            None
        } else {
            Some(0)
        };
        Session { matcher, repositories, query, matched, selected, state: SessionState::Searching }
    }
}

/// One interactive search.
pub struct Session {
    matcher: FuzzyMatcher,
    repositories: Vec<Repository>,
    query: String,
    matched: Vec<Repository>,
    selected: Option<usize>,
    state: SessionState,
}

impl Session {
    pub closed spec fn repositories(&self) -> Seq<RepositoryView> {
        views(self.repositories@)
    }

    pub closed spec fn query(&self) -> Seq<char> {
        self.query@
    }

    /// The current matches, best first.
    pub closed spec fn matched(&self) -> Seq<RepositoryView> {
        views(self.matched@)
    }

    /// The index of the selected match.
    pub closed spec fn selected(&self) -> Option<usize> {
        self.selected
    }

    pub closed spec fn state(&self) -> SessionState {
        self.state
    }

    /// The matches answer the query, and a selection stays within them.
    pub closed spec fn wf(&self) -> bool {
        &&& is_match_result(self.query@, views(self.repositories@), views(self.matched@))
        &&& self.selected matches Some(i) ==> i < self.matched@.len()
    }

    /// The current matches.
    pub fn matches(&self) -> (r: &Vec<Repository>)
        ensures
            views(r@) == self.matched(),
    {
        &self.matched
    }

    /// The current query.
    pub fn current_search(&self) -> (r: &String)
        ensures
            r@ == self.query(),
    {
        &self.query
    }

    /// The index of the selected match.
    pub fn selection(&self) -> (r: Option<usize>)
        ensures
            r == self.selected(),
    {
        self.selected
    }

    /// Where the search stands.
    pub fn status(&self) -> (r: &SessionState)
        ensures
            *r == self.state(),
    {
        &self.state
    }

    fn update_matched_repos(&mut self)
        requires
            old(self).selected matches Some(i) ==> i < old(self).matched@.len(),
        ensures
            final(self).wf(),
            final(self).repositories == old(self).repositories,
            final(self).query == old(self).query,
            final(self).state == old(self).state,
            final(self).selected == reselect(old(self).selected, final(self).matched@.len()),
    {
        let matched = self.matcher.match_repositories(
            self.query.as_str(),
            self.repositories.as_slice(),
        );
        let len = matched.len();
        self.matched = matched;
        self.selected = if len == 0 {
            None
        } else {
            match self.selected {
                None => Some(0),
                Some(i) => if i < len {
                    Some(i)
                } else {
                    Some(len - 1)
                },
            }
        };
    }

    /// Folds a key press into the search. A character extends the query and
    /// backspace shortens it, both recomputing the matches; up and down move
    /// the selection within the matches; enter resolves to the selected
    /// match, or cancels where there is none; escape cancels. Once resolved
    /// or cancelled, the search ignores further keys.
    pub fn handle_key(&mut self, key: Key)
        requires
            old(self).wf(),
        ensures
            final(self).wf(),
            final(self).repositories() == old(self).repositories(),
            !(old(self).state() is Searching) ==> *final(self) == *old(self),
            old(self).state() is Searching ==> match key {
                Key::Char(c) => {
                    &&& final(self).query() == old(self).query().push(c)
                    &&& final(self).selected() == reselect(
                        old(self).selected(),
                        final(self).matched().len(),
                    )
                    &&& final(self).state() is Searching
                },
                Key::Backspace => if old(self).query().len() == 0 {
                    *final(self) == *old(self)
                } else {
                    &&& final(self).query() == old(self).query().drop_last()
                    &&& final(self).selected() == reselect(
                        old(self).selected(),
                        final(self).matched().len(),
                    )
                    &&& final(self).state() is Searching
                },
                Key::Up => {
                    &&& final(self).query() == old(self).query()
                    &&& final(self).matched() == old(self).matched()
                    &&& final(self).selected() == select_next(
                        old(self).selected(),
                        old(self).matched().len(),
                    )
                    &&& final(self).state() is Searching
                },
                Key::Down => {
                    &&& final(self).query() == old(self).query()
                    &&& final(self).matched() == old(self).matched()
                    &&& final(self).selected() == select_previous(
                        old(self).selected(),
                        old(self).matched().len(),
                    )
                    &&& final(self).state() is Searching
                },
                Key::Enter => {
                    &&& final(self).query() == old(self).query()
                    &&& final(self).matched() == old(self).matched()
                    &&& match old(self).selected() {
                        Some(i) => final(self).state() matches SessionState::Resolved(r) && r@
                            == old(self).matched()[i as int],
                        None => final(self).state() is Cancelled,
                    }
                },
                Key::Esc => {
                    &&& final(self).query() == old(self).query()
                    &&& final(self).matched() == old(self).matched()
                    &&& final(self).state() is Cancelled
                },
                Key::Other => *final(self) == *old(self),
            },
    {
        if !matches!(self.state, SessionState::Searching) {
            return;
        }
        match key {
            Key::Char(c) => {
                push_char(&mut self.query, c);
                self.update_matched_repos();
            },
            Key::Backspace => {
                if self.query.as_str().is_empty() {
                    return;
                }
                let _ = pop_char(&mut self.query);
                self.update_matched_repos();
            },
            Key::Up => {
                let len = self.matched.len();
                self.selected = if len == 0 {
                    None
                } else {
                    match self.selected {
                        None => Some(0),
                        Some(i) => if i + 1 < len {
                            Some(i + 1)
                        } else {
                            Some(len - 1)
                        },
                    }
                };
            },
            Key::Down => {
                let len = self.matched.len();
                self.selected = if len == 0 {
                    None
                } else {
                    match self.selected {
                        None => Some(0),
                        Some(i) => if i == 0 {
                            Some(0)
                        } else if i < len {
                            Some(i - 1)
                        } else {
                            Some(len - 1)
                        },
                    }
                };
            },
            Key::Enter => {
                self.state = match self.selected {
                    Some(i) => SessionState::Resolved(self.matched[i].duplicate()),
                    None => SessionState::Cancelled,
                };
            },
            Key::Esc => {
                self.state = SessionState::Cancelled;
            },
            Key::Other => {},
        }
    }
}

} // verus!
