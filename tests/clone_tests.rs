use gitnow::app::{App, GitCloneApp};
use gitnow::config::{Cache, CacheDuration, CacheLocation, Config, Projects, Providers, Settings};
use gitnow::git_clone::{CloneCommand, CloneScheduler, GitClone, CLONE_CONCURRENCY};
use gitnow::git_provider::{next_page, GitHubProvider, GiteaProvider, RemoteRepository};
use gitnow::paths::join_path;
use gitnow::repository::Repository;

fn repo(provider: &str, owner: &str, name: &str) -> Repository {
    Repository {
        provider: provider.to_string(),
        owner: owner.to_string(),
        repo_name: name.to_string(),
        ssh_url: format!("ssh://git@{provider}/{owner}/{name}.git"),
    }
}

fn config(projects: &str) -> Config {
    Config {
        settings: Settings {
            cache: Cache { location: CacheLocation("/c".to_string()), duration: CacheDuration::Enabled(true) },
            projects: Projects { directory: projects.to_string() },
            post_clone_command: None,
            post_update_command: None,
        },
        providers: Providers { github: vec![], gitea: vec![] },
    }
}

#[test]
fn project_path_is_canonical_path_under_projects_dir() {
    let app = App::new(config("/home/u/git"));
    let clone = app.git_clone();
    assert_eq!(clone.project_path(&repo("github.com", "kjuulh", "gitnow")), "/home/u/git/github.com/kjuulh/gitnow");
}

#[test]
fn clone_actions() {
    let clone = GitClone::new(&config("/p/"));
    let r = repo("github.com", "kjuulh", "gitnow");
    let skip = clone.clone_repo(&r, false, true);
    assert_eq!(skip.path, "/p/github.com/kjuulh/gitnow");
    assert!(!skip.remove_existing);
    assert!(skip.git_args.is_none());
    let fresh = clone.clone_repo(&r, false, false);
    assert!(!fresh.remove_existing);
    assert_eq!(
        fresh.git_args,
        Some(vec![
            "clone".to_string(),
            "ssh://git@github.com/kjuulh/gitnow.git".to_string(),
            "/p/github.com/kjuulh/gitnow".to_string()
        ])
    );
    let forced = clone.clone_repo(&r, true, true);
    assert!(forced.remove_existing);
    assert!(forced.git_args.is_some());
    let forced_absent = clone.clone_repo(&r, true, false);
    assert!(!forced_absent.remove_existing);
    assert!(forced_absent.git_args.is_some());
}

#[test]
fn twelve_tasks_never_exceed_five_permits() {
    let mut s = CloneScheduler::new(12, CLONE_CONCURRENCY);
    let mut running: Vec<usize> = Vec::new();
    let mut started = 0;
    let mut max_seen = 0;
    loop {
        while let Some(t) = s.start_next() {
            assert_eq!(t, started);
            started += 1;
            running.push(t);
            assert!(s.running_tasks() <= 5);
            max_seen = max_seen.max(s.running_tasks());
        }
        if s.is_done() {
            break;
        }
        let t = running.remove(0);
        s.finish(t, t != 7);
    }
    assert_eq!(started, 12);
    assert_eq!(max_seen, 5);
    assert_eq!(s.outcome(), Err(7));
}

#[test]
fn scheduler_keeps_first_failure_and_succeeds_when_none() {
    let mut s = CloneScheduler::new(3, 5);
    let a = s.start_next().unwrap();
    let b = s.start_next().unwrap();
    let c = s.start_next().unwrap();
    assert!(s.start_next().is_none());
    s.finish(b, false);
    s.finish(a, false);
    s.finish(c, true);
    assert!(s.is_done());
    assert_eq!(s.outcome(), Err(1));
    let mut ok = CloneScheduler::new(0, 1);
    assert!(ok.start_next().is_none());
    assert!(ok.is_done());
    assert_eq!(ok.outcome(), Ok(()));
}

#[test]
fn clone_command_filters_by_regex() {
    let repos = vec![repo("github.com", "kjuulh", "gitnow"), repo("github.com", "kjuulh", "crunch"), repo("gitea", "x", "gitnow-client")];
    let cmd = CloneCommand { search: "gitnow".to_string() };
    let picked = cmd.select(&repos).unwrap();
    assert_eq!(picked, vec![repos[0].clone(), repos[2].clone()]);
    let anchored = CloneCommand { search: "^github\\.com/".to_string() };
    assert_eq!(anchored.select(&repos).unwrap().len(), 2);
    let bad = CloneCommand { search: "(".to_string() };
    assert!(bad.select(&repos).is_err());
}

#[test]
fn provider_hosts() {
    let gh = GitHubProvider::new();
    assert_eq!(gh.get_url(None), "github.com");
    assert_eq!(gh.get_url(Some(&"https://github.example.com/api/v3".to_string())), "github.example.com");
    assert_eq!(gh.get_url(Some(&"not a url".to_string())), "github.com");
    assert_eq!(gh.get_url(Some(&"http://127.0.0.1:3000".to_string())), "github.com");
    let gitea = GiteaProvider::new();
    assert_eq!(gitea.get_domain("https://git.front.kjuulh.io/api/v1"), "git.front.kjuulh.io");
    assert_eq!(gitea.get_domain("::"), "gitea");
}

#[test]
fn provider_records_map_to_repositories() {
    let records = vec![
        RemoteRepository { owner: Some("kjuulh".to_string()), name: Some("gitnow".to_string()), ssh_url: Some("ssh://a".to_string()) },
        RemoteRepository { owner: None, name: Some("orphan".to_string()), ssh_url: Some("ssh://b".to_string()) },
        RemoteRepository { owner: Some("kjuulh".to_string()), name: Some("nossh".to_string()), ssh_url: None },
    ];
    let gh = GitHubProvider::new().repositories_from(None, &records);
    assert_eq!(gh, vec![Repository {
        provider: "github.com".to_string(),
        owner: "kjuulh".to_string(),
        repo_name: "gitnow".to_string(),
        ssh_url: "ssh://a".to_string(),
    }]);
    let gt = GiteaProvider::new().repositories_from("https://git.front.kjuulh.io/api/v1", &records);
    assert_eq!(gt.len(), 2);
    assert_eq!(gt[1].owner, "");
    assert_eq!(gt[1].repo_name, "orphan");
    assert_eq!(gt[0].provider, "git.front.kjuulh.io");
}

#[test]
fn paging_stops_on_empty_page() {
    assert_eq!(next_page(1, 100), Some(2));
    assert_eq!(next_page(3, 0), None);
    assert_eq!(next_page(u32::MAX, 5), None);
}

#[test]
fn join_path_inserts_one_separator() {
    assert_eq!(join_path("/a", "b/c"), "/a/b/c");
    assert_eq!(join_path("/a/", "b"), "/a/b");
    assert_eq!(join_path("", "b"), "b");
}
