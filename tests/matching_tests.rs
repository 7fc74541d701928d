use gitnow::components::{InlineCommand, InlineKey, Msg, SpinnerState};
use gitnow::fuzzy_matcher::{FuzzyMatcher, RepositoryMatcher};
use gitnow::interactive::{Interactive, Key, SessionState};
use gitnow::repository::{Repository, VecRepositoryExt};

fn from_path(path: &str) -> Repository {
    let parts: Vec<&str> = path.split('/').collect();
    Repository {
        provider: parts[0].to_string(),
        owner: parts[1].to_string(),
        repo_name: parts[2].to_string(),
        ssh_url: format!("ssh://git@{}/{}/{}.git", parts[0], parts[1], parts[2]),
    }
}

fn paths(repos: &[Repository]) -> Vec<String> {
    repos.iter().map(|r| r.to_rel_path()).collect()
}

fn haystack() -> Vec<Repository> {
    vec![
        from_path("github.com/kjuulh/gitnow"),
        from_path("github.com/kjuulh/gitnow-client"),
        from_path("github.com/kjuulh/crunch"),
    ]
}

#[test]
fn gitnow_query_ranks_gitnow_paths_above_crunch() {
    let matched = FuzzyMatcher::new().match_repositories("gitnow", &haystack());
    let found = paths(&matched);
    let exact = found.iter().position(|p| p == "github.com/kjuulh/gitnow").unwrap();
    let suffixed = found.iter().position(|p| p == "github.com/kjuulh/gitnow-client").unwrap();
    assert!(exact <= suffixed);
    if let Some(crunch) = found.iter().position(|p| p == "github.com/kjuulh/crunch") {
        assert!(crunch > exact && crunch > suffixed);
    }
}

#[test]
fn empty_query_returns_deduplicated_haystack_in_order() {
    let mut set = haystack();
    set.collect_unique();
    let matched = FuzzyMatcher::new().match_repositories("", &set);
    assert_eq!(matched, set);
}

#[test]
fn empty_query_over_unsorted_list_gives_sorted_unique_paths() {
    let mut list = haystack();
    list.push(from_path("github.com/kjuulh/crunch"));
    let matched = FuzzyMatcher::new().match_repositories("", &list);
    assert_eq!(
        paths(&matched),
        vec!["github.com/kjuulh/crunch", "github.com/kjuulh/gitnow", "github.com/kjuulh/gitnow-client"]
    );
}

#[test]
fn matching_is_deterministic() {
    let m = FuzzyMatcher::new();
    let a = m.match_repositories("now", &haystack());
    let b = m.match_repositories("now", &haystack());
    assert_eq!(a, b);
}

#[test]
fn non_matching_query_gives_nothing() {
    let matched = FuzzyMatcher::new().match_repositories("zzzzqqq", &haystack());
    assert!(matched.is_empty());
}

#[test]
fn matching_ignores_case() {
    let matched = FuzzyMatcher::new().match_repositories("CRUNCH", &haystack());
    assert_eq!(paths(&matched), vec!["github.com/kjuulh/crunch"]);
}

#[test]
fn match_pattern_keeps_only_matching_items() {
    let items = vec!["alpha".to_string(), "beta".to_string()];
    let out = FuzzyMatcher::new().match_pattern("bt", &items);
    assert_eq!(out, vec!["beta".to_string()]);
}

#[test]
fn session_resolves_selected_match() {
    let mut session = Interactive::new().start(haystack());
    assert_eq!(session.selection(), Some(0));
    assert_eq!(session.matches().len(), 3);
    for c in "crunch".chars() {
        session.handle_key(Key::Char(c));
    }
    assert_eq!(session.current_search(), "crunch");
    assert_eq!(paths(session.matches()), vec!["github.com/kjuulh/crunch"]);
    session.handle_key(Key::Enter);
    match session.status() {
        SessionState::Resolved(r) => assert_eq!(r.to_rel_path(), "github.com/kjuulh/crunch"),
        other => panic!("unexpected state {:?}", other),
    }
    session.handle_key(Key::Char('x'));
    assert_eq!(session.current_search(), "crunch");
}

#[test]
fn session_escape_cancels() {
    let mut session = Interactive::new().start(haystack());
    session.handle_key(Key::Esc);
    assert!(matches!(session.status(), SessionState::Cancelled));
}

#[test]
fn session_enter_without_matches_cancels() {
    let mut session = Interactive::new().start(haystack());
    for c in "qqqq".chars() {
        session.handle_key(Key::Char(c));
    }
    assert_eq!(session.selection(), None);
    session.handle_key(Key::Enter);
    assert!(matches!(session.status(), SessionState::Cancelled));
}

#[test]
fn session_backspace_and_navigation() {
    let mut session = Interactive::new().start(haystack());
    session.handle_key(Key::Backspace);
    assert_eq!(session.current_search(), "");
    session.handle_key(Key::Up);
    session.handle_key(Key::Up);
    session.handle_key(Key::Up);
    assert_eq!(session.selection(), Some(2));
    session.handle_key(Key::Down);
    assert_eq!(session.selection(), Some(1));
    session.handle_key(Key::Char('q'));
    session.handle_key(Key::Char('q'));
    assert_eq!(session.selection(), None);
    session.handle_key(Key::Backspace);
    session.handle_key(Key::Backspace);
    assert_eq!(session.current_search(), "");
    assert_eq!(session.selection(), Some(0));
    session.handle_key(Key::Down);
    assert_eq!(session.selection(), Some(0));
    session.handle_key(Key::Enter);
    match session.status() {
        SessionState::Resolved(r) => assert_eq!(r.to_rel_path(), "github.com/kjuulh/crunch"),
        other => panic!("unexpected state {:?}", other),
    }
}

#[test]
fn session_over_empty_set_has_no_selection() {
    let session = Interactive::new().start(vec![]);
    assert_eq!(session.selection(), None);
    assert!(session.matches().is_empty());
}

#[test]
fn spinner_advances_after_interval() {
    let mut s = SpinnerState::starting_at(1000);
    s.update(1050);
    assert_eq!(s.frame, 0);
    s.update(1083);
    assert_eq!(s.frame, 1);
    assert_eq!(s.last_event, 1083);
    s.update(10);
    assert_eq!(s.frame, 1);
    s.frame = usize::MAX;
    s.next_state();
    assert_eq!(s.frame, 0);
    s.frame = 23;
    assert_eq!(s.frame_index(), 3);
}

#[test]
fn inline_command_ends_on_completion() {
    let mut cmd = InlineCommand::new("cloning".to_string(), 0);
    assert!(!cmd.update_state(&Msg::Tick, 100));
    assert_eq!(cmd.spinner.frame, 1);
    assert!(cmd.update_state(&Msg::Success, 200));
    assert!(cmd.update_state(&Msg::Failure("boom".to_string()), 200));
    assert!(cmd.update_state(&Msg::Quit, 200));
    assert!(matches!(cmd.handle_key_event(&InlineKey::Esc), Some(Msg::Quit)));
    assert!(matches!(cmd.handle_key_event(&InlineKey::Char('c')), Some(Msg::Quit)));
    assert!(cmd.handle_key_event(&InlineKey::Char('d')).is_none());
    assert!(cmd.handle_key_event(&InlineKey::Other).is_none());
}
