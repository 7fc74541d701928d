//! Provider adapters: the host name stamped on listed repositories, the
//! mapping from provider records to repositories, and when paging stops.
//!
//! The HTTP calls themselves are made by the caller, which hands the
//! provider's records over as plain values.

use vstd::prelude::*;

use crate::repository::{views, Repository, RepositoryView};

verus! {

/// The host of an absolute URL where that host is a domain; `None` where the
/// text does not parse as a URL or its host is not a domain.
pub uninterp spec fn url_domain(url: Seq<char>) -> Option<Seq<char>>;

/// Relies on `url::Url::parse` and `url::Url::domain`: the domain of the
/// host of the URL, if it parses and its host is a domain.
#[verifier::external_body]
fn domain_of(url: &str) -> (r: Option<String>)
    ensures
        match url_domain(url@) {
            Some(d) => r matches Some(s) && s@ == d,
            None => r is None,
        },
{
    match url::Url::parse(url) {
        Ok(u) => u.domain().map(|d| d.to_string()),
        Err(_) => None,
    }
}

/// The provider identity for an account: the domain of its configured URL,
/// or `default` where no URL is configured or it yields no domain.
pub open spec fn provider_host(url: Option<Seq<char>>, default: Seq<char>) -> Seq<char> {
    match url {
        Some(u) => match url_domain(u) {
            Some(d) => d,
            None => default,
        },
        None => default,
    }
}

fn host_or_default(url: Option<&String>, default: &str) -> (r: String)
    ensures
        r@ == provider_host(
            match url {
                Some(u) => Some(u@),
                None => None,
            },
            default@,
        ),
{
    match url {
        Some(u) => match domain_of(u.as_str()) {
            Some(d) => d,
            None => default.to_owned(),
        },
        None => default.to_owned(),
    }
}

/// A repository as a provider's listing reports it; any field may be missing.
#[derive(Debug)]
pub struct RemoteRepository {
    pub owner: Option<String>,
    pub name: Option<String>,
    pub ssh_url: Option<String>,
}

/// The text of an optional field, empty where it is missing.
pub open spec fn text_or_empty(s: Option<String>) -> Seq<char> {
    match s {
        Some(t) => t@,
        None => Seq::empty(),
    }
}

fn clone_or_empty(s: &Option<String>) -> (r: String)
    ensures
        r@ == text_or_empty(*s),
{
    match s {
        Some(t) => t.clone(),
        None => String::new(),
    }
}

/// A GitHub record as a repository: dropped where it has no owner, name or
/// SSH clone URL.
pub open spec fn github_record(provider: Seq<char>, r: RemoteRepository) -> Option<RepositoryView> {
    match (r.owner, r.name, r.ssh_url) {
        (Some(o), Some(n), Some(u)) => Some(
            RepositoryView { provider, owner: o@, repo_name: n@, ssh_url: u@ },
        ),
        _ => None,
    }
}

/// A Gitea record as a repository: a missing owner or name reads as empty;
/// dropped where it has no SSH clone URL.
pub open spec fn gitea_record(provider: Seq<char>, r: RemoteRepository) -> Option<RepositoryView> {
    match r.ssh_url {
        Some(u) => Some(
            RepositoryView {
                provider,
                owner: text_or_empty(r.owner),
                repo_name: text_or_empty(r.name),
                ssh_url: u@,
            },
        ),
        None => None,
    }
}

/// The repositories that a list of records maps to, in order, those that
/// map to none left out.
pub open spec fn mapped_records(
    gitea: bool,
    provider: Seq<char>,
    s: Seq<RemoteRepository>,
) -> Seq<RepositoryView>
    decreases s.len(),
{
    if s.len() == 0 {
        Seq::empty()
    } else {
        let rest = mapped_records(gitea, provider, s.drop_last());
        let m = if gitea {
            gitea_record(provider, s.last())
        } else {
            github_record(provider, s.last())
        };
        match m {
            Some(v) => rest.push(v),
            None => rest,
        }
    }
}

fn map_records(gitea: bool, provider: &String, records: &Vec<RemoteRepository>) -> (r: Vec<
    Repository,
>)
    ensures
        views(r@) == mapped_records(gitea, provider@, records@),
{
    let mut out: Vec<Repository> = Vec::new();
    for i in 0..records.len()
        invariant
            views(out@) == mapped_records(gitea, provider@, records@.subrange(0, i as int)),
    {
        let rec = &records[i];
        proof {
            let pre = records@.subrange(0, i + 1);
            assert(pre.drop_last() =~= records@.subrange(0, i as int));
        }
        let ghost before = views(out@);
        let mapped = if gitea {
            match &rec.ssh_url {
                Some(u) => Some(
                    Repository {
                        provider: provider.clone(),
                        owner: clone_or_empty(&rec.owner),
                        repo_name: clone_or_empty(&rec.name),
                        ssh_url: u.clone(),
                    },
                ),
                None => None,
            }
        } else {
            match (&rec.owner, &rec.name, &rec.ssh_url) {
                (Some(o), Some(n), Some(u)) => Some(
                    Repository {
                        provider: provider.clone(),
                        owner: o.clone(),
                        repo_name: n.clone(),
                        ssh_url: u.clone(),
                    },
                ),
                _ => None,
            }
        };
        if let Some(repo) = mapped {
            out.push(repo);
            proof {
                assert(views(out@) =~= before.push(out@.last()@));
            }
        }
    }
    proof {
        assert(records@.subrange(0, records@.len() as int) =~= records@);
    }
    out
}

/// The first page of a paginated listing.
pub const FIRST_PAGE: u32 = 1;

/// The number of records asked for per page.
pub const PAGE_SIZE: u8 = 100;

/// The page to fetch after `page`, which held `fetched` records: none after
/// an empty page.
pub fn next_page(page: u32, fetched: usize) -> (r: Option<u32>)
    ensures
        r == if fetched == 0 || page == u32::MAX {
            None
        } else {
            Some((page + 1) as u32)
        },
{
    if fetched == 0 || page == u32::MAX {
        None
    } else {
        Some(page + 1)
    }
}

/// The GitHub-like adapter.
pub struct GitHubProvider {}

/// The GitHub host used where an account configures no usable URL.
pub open spec fn github_default_host() -> Seq<char> {
    "github.com"@
}

impl GitHubProvider {
    pub fn new() -> Self {
        GitHubProvider {  }
    }

    /// The provider identity for an account with the configured `url`.
    pub fn get_url(&self, url: Option<&String>) -> (r: String)
        ensures
            r@ == provider_host(
                match url {
                    Some(u) => Some(u@),
                    None => None,
                },
                github_default_host(),
            ),
    {
        host_or_default(url, "github.com")
    }

    /// The repositories of a listing's records, stamped with the host of `url`.
    pub fn repositories_from(&self, url: Option<&String>, records: &Vec<RemoteRepository>) -> (r:
        Vec<Repository>)
        ensures
            views(r@) == mapped_records(
                false,
                provider_host(
                    match url {
                        Some(u) => Some(u@),
                        None => None,
                    },
                    github_default_host(),
                ),
                records@,
            ),
    {
        let provider = self.get_url(url);
        map_records(false, &provider, records)
    }
}

/// The Gitea-like adapter.
pub struct GiteaProvider {}

/// The Gitea host used where an account's URL yields no domain.
pub open spec fn gitea_default_host() -> Seq<char> {
    "gitea"@
}

impl GiteaProvider {
    pub fn new() -> Self {
        GiteaProvider {  }
    }

    /// The provider identity for an account whose API lives at `api`.
    pub fn get_domain(&self, api: &str) -> (r: String)
        ensures
            r@ == provider_host(Some(api@), gitea_default_host()),
    {
        let url = api.to_owned();
        host_or_default(Some(&url), "gitea")
    }

    /// The repositories of a listing's records, stamped with the host of `api`.
    pub fn repositories_from(&self, api: &str, records: &Vec<RemoteRepository>) -> (r: Vec<
        Repository,
    >)
        ensures
            views(r@) == mapped_records(
                true,
                provider_host(Some(api@), gitea_default_host()),
                records@,
            ),
    {
        let provider = self.get_domain(api);
        map_records(true, &provider, records)
    }
}

} // verus!
