use gitnow::commands::{CloneMode, RepositorySource, RootCommand};
use gitnow::custom_command::{split_command, CustomCommand};
use gitnow::repository::Repository;

fn options(cache: bool, clone: bool, shell: bool, force_cache_update: bool) -> RootCommand {
    RootCommand { cache, clone, shell, force_refresh: false, force_cache_update }
}

fn from_path(path: &str) -> Repository {
    let parts: Vec<&str> = path.split('/').collect();
    Repository {
        provider: parts[0].to_string(),
        owner: parts[1].to_string(),
        repo_name: parts[2].to_string(),
        ssh_url: format!("ssh://git@{path}.git"),
    }
}

#[test]
fn repository_source_choices() {
    assert_eq!(options(true, true, true, true).repository_source(), RepositorySource::Aggregate { store: true });
    assert_eq!(options(false, true, true, true).repository_source(), RepositorySource::Aggregate { store: true });
    assert_eq!(options(true, true, true, false).repository_source(), RepositorySource::CacheOrAggregate);
    assert_eq!(options(false, true, true, false).repository_source(), RepositorySource::Aggregate { store: false });
}

#[test]
fn clone_mode_choices() {
    let c = options(true, true, true, false);
    assert_eq!(c.clone_mode(true, true), CloneMode::Skip);
    assert_eq!(c.clone_mode(false, true), CloneMode::Inline);
    assert_eq!(c.clone_mode(false, false), CloneMode::Plain);
    assert_eq!(options(true, true, false, false).clone_mode(false, true), CloneMode::Plain);
    assert_eq!(options(true, false, true, false).clone_mode(false, true), CloneMode::Skip);
}

#[test]
fn search_picks_best_match() {
    let repos = vec![
        from_path("github.com/kjuulh/gitnow"),
        from_path("github.com/kjuulh/gitnow-client"),
        from_path("github.com/kjuulh/crunch"),
    ];
    let c = options(true, true, true, false);
    let picked = c.pick("gitnow", &repos).unwrap();
    assert_eq!(picked.to_rel_path(), "github.com/kjuulh/gitnow");
    assert_eq!(c.pick("crunch", &repos).unwrap().to_rel_path(), "github.com/kjuulh/crunch");
    assert!(c.pick("zzzzqqq", &repos).is_none());
    assert!(c.pick("gitnow", &[]).is_none());
}

#[test]
fn split_command_at_spaces() {
    assert_eq!(split_command("git pull --rebase"), vec!["git", "pull", "--rebase"]);
    assert_eq!(split_command("a  b"), vec!["a", "", "b"]);
    assert_eq!(split_command(""), vec![""]);
    assert_eq!(split_command("ünï cödé "), vec!["ünï", "cödé", ""]);
}

#[test]
fn hook_invocations_from_configuration() {
    let hooks = CustomCommand {
        post_clone_command: Some("make setup now".to_string()),
        post_update_command: None,
    };
    let clone = hooks.post_clone_invocation().unwrap();
    assert_eq!(clone.program, "make");
    assert_eq!(clone.args, vec!["setup".to_string(), "now".to_string()]);
    assert!(hooks.post_update_invocation().is_none());
}
