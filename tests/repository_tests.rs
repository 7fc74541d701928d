use gitnow::projects_list::{ListRequest, Listing, ProjectsList, ProviderKind};
use gitnow::config::{
    Gitea, GiteaOrganisation, GiteaUser, GitHub, GitHubAccessToken, GitHubOrganisation, GitHubUser,
    Providers,
};
use gitnow::repository::{Repository, VecRepositoryExt};

fn repo(provider: &str, owner: &str, name: &str) -> Repository {
    Repository {
        provider: provider.to_string(),
        owner: owner.to_string(),
        repo_name: name.to_string(),
        ssh_url: format!("ssh://git@{provider}/{owner}/{name}.git"),
    }
}

fn paths(repos: &[Repository]) -> Vec<String> {
    repos.iter().map(|r| r.to_rel_path()).collect()
}

#[test]
fn rel_path_joins_provider_owner_and_name() {
    let r = repo("github.com", "kjuulh", "gitnow");
    assert_eq!(r.to_rel_path(), "github.com/kjuulh/gitnow");
}

#[test]
fn collect_unique_sorts_by_canonical_path() {
    let mut repos = vec![
        repo("github.com", "kjuulh", "gitnow-client"),
        repo("git.front.kjuulh.io", "kjuulh", "cuddle"),
        repo("github.com", "kjuulh", "crunch"),
        repo("github.com", "kjuulh", "gitnow"),
    ];
    repos.collect_unique();
    assert_eq!(
        paths(&repos),
        vec![
            "git.front.kjuulh.io/kjuulh/cuddle",
            "github.com/kjuulh/crunch",
            "github.com/kjuulh/gitnow",
            "github.com/kjuulh/gitnow-client",
        ]
    );
}

#[test]
fn collect_unique_keeps_first_of_equal_paths() {
    let mut first = repo("github.com", "kjuulh", "gitnow");
    first.ssh_url = "first".to_string();
    let mut second = repo("github.com", "kjuulh", "gitnow");
    second.ssh_url = "second".to_string();
    let mut repos = vec![first.clone(), repo("a.io", "x", "y"), second];
    repos.collect_unique();
    assert_eq!(repos.len(), 2);
    assert_eq!(repos[0].to_rel_path(), "a.io/x/y");
    assert_eq!(repos[1], first);
}

#[test]
fn collect_unique_on_empty_list() {
    let mut repos: Vec<Repository> = Vec::new();
    repos.collect_unique();
    assert!(repos.is_empty());
}

#[test]
fn collect_unique_twice_changes_nothing() {
    let mut repos = vec![
        repo("github.com", "b", "x"),
        repo("github.com", "a", "x"),
        repo("github.com", "b", "x"),
        repo("gitea", "a", "x"),
    ];
    repos.collect_unique();
    let once = repos.clone();
    repos.collect_unique();
    assert_eq!(repos, once);
}

#[test]
fn collect_unique_orders_by_code_point() {
    let mut repos = vec![repo("a", "b", "c"), repo("a.b", "c", "d"), repo("A", "b", "c")];
    repos.collect_unique();
    assert_eq!(paths(&repos), vec!["A/b/c", "a.b/c/d", "a/b/c"]);
}

#[test]
fn overlapping_providers_give_one_entry() {
    let list = ProjectsList::new();
    let from_gitea = vec![repo("github.com", "kjuulh", "gitnow")];
    let from_github = vec![repo("github.com", "kjuulh", "gitnow")];
    let set = list.get_projects(vec![from_gitea, from_github]);
    assert_eq!(set.len(), 1);
    assert_eq!(set[0].to_rel_path(), "github.com/kjuulh/gitnow");
}

#[test]
fn aggregation_concatenates_then_deduplicates() {
    let list = ProjectsList::new();
    let set = list.get_projects(vec![
        vec![repo("h", "o", "b"), repo("h", "o", "a")],
        vec![],
        vec![repo("h", "o", "c"), repo("h", "o", "a")],
    ]);
    assert_eq!(paths(&set), vec!["h/o/a", "h/o/b", "h/o/c"]);
}

#[test]
fn request_plan_follows_configuration_order() {
    let providers = Providers {
        github: vec![GitHub {
            url: None,
            access_token: GitHubAccessToken::Direct("t".to_string()),
            current_user: None,
            users: vec![GitHubUser("other".to_string())],
            organisations: vec![GitHubOrganisation("org".to_string())],
        }],
        gitea: vec![Gitea {
            url: "https://git.front.kjuulh.io/api/v1".to_string(),
            access_token: None,
            current_user: Some("kjuulh".to_string()),
            users: vec![GiteaUser("kjuulh".to_string()), GiteaUser("b".to_string())],
            organisations: vec![GiteaOrganisation("lunarway".to_string())],
        }],
    };
    let plan = ProjectsList::new().requests(&providers);
    let expected = vec![
        ListRequest { kind: ProviderKind::Gitea, account: 0, listing: Listing::CurrentUser },
        ListRequest { kind: ProviderKind::Gitea, account: 0, listing: Listing::User(0) },
        ListRequest { kind: ProviderKind::Gitea, account: 0, listing: Listing::User(1) },
        ListRequest { kind: ProviderKind::Gitea, account: 0, listing: Listing::Organisation(0) },
        ListRequest { kind: ProviderKind::GitHub, account: 0, listing: Listing::User(0) },
        ListRequest { kind: ProviderKind::GitHub, account: 0, listing: Listing::Organisation(0) },
    ];
    assert_eq!(plan, expected);
}
