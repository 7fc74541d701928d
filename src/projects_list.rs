//! The aggregator: which listing calls to make for the configured provider
//! accounts, and how their results become one repository set.
//!
//! The calls themselves go over the network and are made by the caller, in
//! the order of [`ProjectsList::requests`]; any failure aborts the whole pass.

use vstd::prelude::*;

use crate::config::{Gitea, GitHub, Providers};
use crate::repository::{dedup, views, Repository, RepositoryView, VecRepositoryExt};

verus! {

/// The kind of hosting provider an account lives on.
#[derive(Debug, Clone, Copy, PartialEq, Eq, Structural)]
pub enum ProviderKind {
    Gitea,
    GitHub,
}

/// What to list on an account.
#[derive(Debug, Clone, Copy, PartialEq, Eq, Structural)]
pub enum Listing {
    /// The repositories of the authenticated user.
    CurrentUser,
    /// The repositories of the account's user at this index.
    User(usize),
    /// The repositories of the account's organisation at this index.
    Organisation(usize),
}

/// One listing call: on the account at index `account` among those of `kind`.
#[derive(Debug, Clone, Copy, PartialEq, Eq, Structural)]
pub struct ListRequest {
    pub kind: ProviderKind,
    pub account: usize,
    pub listing: Listing,
}

/// The calls for one account: the current user where configured, then each
/// user, then each organisation.
pub open spec fn account_requests(
    kind: ProviderKind,
    account: nat,
    current_user: bool,
    users: nat,
    organisations: nat,
) -> Seq<ListRequest> {
    (if current_user {
        seq![ListRequest { kind, account: account as usize, listing: Listing::CurrentUser }]
    } else {
        Seq::empty()
    }) + Seq::new(
        users,
        |i: int| ListRequest { kind, account: account as usize, listing: Listing::User(i as usize) },
    ) + Seq::new(
        organisations,
        |i: int|
            ListRequest {
                kind,
                account: account as usize,
                listing: Listing::Organisation(i as usize),
            },
    )
}

/// The calls for the first `n` Gitea accounts.
pub open spec fn gitea_requests(accounts: Seq<Gitea>, n: nat) -> Seq<ListRequest>
    decreases n,
{
    if n == 0 {
        Seq::empty()
    } else {
        let a = accounts[n - 1];
        gitea_requests(accounts, (n - 1) as nat) + account_requests(
            ProviderKind::Gitea,
            (n - 1) as nat,
            a.current_user is Some,
            a.users@.len(),
            a.organisations@.len(),
        )
    }
}

/// The calls for the first `n` GitHub accounts.
pub open spec fn github_requests(accounts: Seq<GitHub>, n: nat) -> Seq<ListRequest>
    decreases n,
{
    if n == 0 {
        Seq::empty()
    } else {
        let a = accounts[n - 1];
        github_requests(accounts, (n - 1) as nat) + account_requests(
            ProviderKind::GitHub,
            (n - 1) as nat,
            a.current_user is Some,
            a.users@.len(),
            a.organisations@.len(),
        )
    }
}

/// Every call of an aggregation pass: the Gitea accounts, then the GitHub
/// accounts, each in configuration order.
pub open spec fn all_requests(p: Providers) -> Seq<ListRequest> {
    gitea_requests(p.gitea@, p.gitea@.len()) + github_requests(p.github@, p.github@.len())
}

/// The concatenation of a list of fetched lists.
pub open spec fn flatten(s: Seq<Seq<RepositoryView>>) -> Seq<RepositoryView>
    decreases s.len(),
{
    if s.len() == 0 {
        Seq::empty()
    } else {
        flatten(s.drop_last()) + s.last()
    }
}

/// The views of each fetched list.
pub open spec fn fetched_views(s: Seq<Vec<Repository>>) -> Seq<Seq<RepositoryView>> {
    s.map_values(|v: Vec<Repository>| views(v@))
}

fn push_account_requests(
    out: &mut Vec<ListRequest>,
    kind: ProviderKind,
    account: usize,
    current_user: bool,
    users: usize,
    organisations: usize,
)
    ensures
        final(out)@ == old(out)@ + account_requests(
            kind,
            account as nat,
            current_user,
            users as nat,
            organisations as nat,
        ),
{
    let ghost start = out@;
    if current_user {
        out.push(ListRequest { kind, account, listing: Listing::CurrentUser });
    }
    let ghost first = out@;
    for i in 0..users
        invariant
            out@ == first + Seq::new(
                i as nat,
                |j: int| ListRequest { kind, account, listing: Listing::User(j as usize) },
            ),
    {
        out.push(ListRequest { kind, account, listing: Listing::User(i) });
        proof {
            assert(out@ =~= first + Seq::new(
                (i + 1) as nat,
                |j: int| ListRequest { kind, account, listing: Listing::User(j as usize) },
            ));
        }
    }
    let ghost second = out@;
    for i in 0..organisations
        invariant
            out@ == second + Seq::new(
                i as nat,
                |j: int| ListRequest { kind, account, listing: Listing::Organisation(j as usize) },
            ),
    {
        out.push(ListRequest { kind, account, listing: Listing::Organisation(i) });
        proof {
            assert(out@ =~= second + Seq::new(
                (i + 1) as nat,
                |j: int| ListRequest { kind, account, listing: Listing::Organisation(j as usize) },
            ));
        }
    }
    proof {
        assert(out@ =~= start + account_requests(
            kind,
            account as nat,
            current_user,
            users as nat,
            organisations as nat,
        ));
    }
}

/// Plans and combines the listing calls of an aggregation pass.
pub struct ProjectsList {}

impl ProjectsList {
    pub fn new() -> Self {
        ProjectsList {  }
    }

    /// The listing calls to make, in order.
    pub fn requests(&self, providers: &Providers) -> (r: Vec<ListRequest>)
        ensures
            r@ == all_requests(*providers),
    {
        let mut out: Vec<ListRequest> = Vec::new();
        for a in 0..providers.gitea.len()
            invariant
                out@ == gitea_requests(providers.gitea@, a as nat),
        {
            let account = &providers.gitea[a];
            push_account_requests(
                &mut out,
                ProviderKind::Gitea,
                a,
                account.current_user.is_some(),
                account.users.len(),
                account.organisations.len(),
            );
        }
        let ghost first = out@;
        for a in 0..providers.github.len()
            invariant
                out@ == first + github_requests(providers.github@, a as nat),
        {
            let account = &providers.github[a];
            let ghost before = out@;
            push_account_requests(
                &mut out,
                ProviderKind::GitHub,
                a,
                account.current_user.is_some(),
                account.users.len(),
                account.organisations.len(),
            );
            proof {
                assert(out@ =~= first + github_requests(providers.github@, (a + 1) as nat));
            }
        }
        out
    }

    /// The repository set made of the results of all listing calls, given in
    /// the order of [`ProjectsList::requests`]: concatenated, then sorted by
    /// canonical path with the first of each canonical path kept.
    pub fn get_projects(&self, fetched: Vec<Vec<Repository>>) -> (r: Vec<Repository>)
        ensures
            views(r@) == dedup(flatten(fetched_views(fetched@))),
    {
        let mut all: Vec<Repository> = Vec::new();
        let ghost lists = fetched_views(fetched@);
        let n = fetched.len();
        for i in 0..n
            invariant
                n == fetched@.len(),
                lists == fetched_views(fetched@),
                views(all@) == flatten(lists.subrange(0, i as int)),
        {
            let batch = &fetched[i];
            let ghost before = views(all@);
            for j in 0..batch.len()
                invariant
                    views(all@) == before + views(batch@).subrange(0, j as int),
            {
                let ghost prev = views(all@);
                let item = batch[j].duplicate();
                all.push(item);
                proof {
                    assert(views(all@) =~= prev.push(batch@[j as int]@));
                    assert(views(all@) =~= before + views(batch@).subrange(0, j + 1));
                }
            }
            proof {
                let pre = lists.subrange(0, i + 1);
                assert(pre.drop_last() =~= lists.subrange(0, i as int));
                assert(pre.last() == views(batch@));
                assert(views(batch@).subrange(0, batch@.len() as int) =~= views(batch@));
            }
        }
        proof {
            assert(lists.subrange(0, n as int) =~= lists);
        }
        all.collect_unique();
        all
    }
}

} // verus!
