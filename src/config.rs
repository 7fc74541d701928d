//! The configuration that the engine reads: cache settings, the projects
//! directory, and the provider accounts to enumerate.

use vstd::prelude::*;

use crate::paths::{join_path, path_join};

verus! {

/// The whole configuration, loaded once and read-only afterwards.
#[derive(Debug)]
pub struct Config {
    pub settings: Settings,
    pub providers: Providers,
}

#[derive(Debug)]
pub struct Settings {
    pub cache: Cache,
    pub projects: Projects,
    /// Shell command run inside a repository after it has been cloned.
    pub post_clone_command: Option<String>,
    /// Shell command run inside a repository after the cache was updated.
    pub post_update_command: Option<String>,
}

/// Where the cache lives and how long it stays fresh.
#[derive(Debug)]
pub struct Cache {
    pub location: CacheLocation,
    pub duration: CacheDuration,
}

/// The directory under which repositories are cloned.
#[derive(Debug)]
pub struct Projects {
    pub directory: String,
}

/// The directory holding the cache file.
#[derive(Debug)]
pub struct CacheLocation(pub String);

impl CacheLocation {
    /// The default cache directory, `.cache/gitnow` under the home directory `home`.
    pub fn under_home(home: &str) -> (r: CacheLocation)
        ensures
            r.0@ == path_join(home@, ".cache/gitnow"@),
    {
        CacheLocation(join_path(home, ".cache/gitnow"))
    }
}

pub const SECONDS_PER_MINUTE: u64 = 60;

pub const SECONDS_PER_HOUR: u64 = 3600;

pub const SECONDS_PER_DAY: u64 = 86400;

/// How long a cache file stays fresh: switched off, the default of one day,
/// or a precise span.
#[derive(Debug)]
pub enum CacheDuration {
    Enabled(bool),
    Precise { days: u64, hours: u64, minutes: u64 },
}

/// Seconds in a span of days, hours and minutes.
pub open spec fn span_seconds(days: u64, hours: u64, minutes: u64) -> nat {
    (days * SECONDS_PER_DAY + hours * SECONDS_PER_HOUR + minutes * SECONDS_PER_MINUTE) as nat
}

impl CacheDuration {
    /// The configured time to live in seconds; `None` where caching never expires.
    pub open spec fn ttl(&self) -> Option<nat> {
        match self {
            CacheDuration::Enabled(true) => Some(SECONDS_PER_DAY as nat),
            CacheDuration::Enabled(false) => None,
            CacheDuration::Precise { days, hours, minutes } => Some(
                span_seconds(*days, *hours, *minutes),
            ),
        }
    }

    /// Whether the time to live can be counted in seconds by a `u64`.
    pub open spec fn representable(&self) -> bool {
        self.ttl() matches Some(t) ==> t <= u64::MAX
    }

    /// Tells whether [`CacheDuration::get_duration`] can count this span.
    pub fn is_representable(&self) -> (r: bool)
        ensures
            r == self.representable(),
    {
        match self {
            CacheDuration::Enabled(_) => true,
            CacheDuration::Precise { days, hours, minutes } => {
                let d = days.checked_mul(SECONDS_PER_DAY);
                let h = hours.checked_mul(SECONDS_PER_HOUR);
                let m = minutes.checked_mul(SECONDS_PER_MINUTE);
                match (d, h, m) {
                    (Some(d), Some(h), Some(m)) => match d.checked_add(h) {
                        Some(dh) => dh.checked_add(m).is_some(),
                        None => false,
                    },
                    _ => false,
                }
            },
        }
    }

    /// The time to live in seconds; `None` where the cache never expires.
    pub fn get_duration(&self) -> (r: Option<u64>)
        requires
            self.representable(),
        ensures
            match self.ttl() {
                Some(t) => r == Some(t as u64),
                None => r is None,
            },
    {
        match self {
            CacheDuration::Enabled(true) => Some(SECONDS_PER_DAY),
            CacheDuration::Enabled(false) => None,
            CacheDuration::Precise { days, hours, minutes } => {
                proof {
                    assert(*days * SECONDS_PER_DAY <= u64::MAX);
                    assert(*hours * SECONDS_PER_HOUR <= u64::MAX);
                }
                Some(days * SECONDS_PER_DAY + hours * SECONDS_PER_HOUR + minutes * SECONDS_PER_MINUTE)
            },
        }
    }
}

impl Default for CacheDuration {
    fn default() -> (r: CacheDuration)
        ensures
            r == (CacheDuration::Precise { days: 1, hours: 0, minutes: 0 }),
    {
        CacheDuration::Precise { days: 1, hours: 0, minutes: 0 }
    }
}

/// The provider accounts, by provider kind.
#[derive(Debug)]
pub struct Providers {
    pub github: Vec<GitHub>,
    pub gitea: Vec<Gitea>,
}

/// A GitHub-like account.
#[derive(Debug)]
pub struct GitHub {
    pub url: Option<String>,
    pub access_token: GitHubAccessToken,
    pub current_user: Option<String>,
    pub users: Vec<GitHubUser>,
    pub organisations: Vec<GitHubOrganisation>,
}

#[derive(Debug)]
pub struct GitHubUser(pub String);

#[derive(Debug)]
pub struct GitHubOrganisation(pub String);

/// A Gitea-like account.
#[derive(Debug)]
pub struct Gitea {
    pub url: String,
    pub access_token: Option<GiteaAccessToken>,
    pub current_user: Option<String>,
    pub users: Vec<GiteaUser>,
    pub organisations: Vec<GiteaOrganisation>,
}

/// A Gitea access token: the secret itself, or the name of the environment
/// variable holding it.
#[derive(Debug)]
pub enum GiteaAccessToken {
    Direct(String),
    Env { env: String },
}

/// A GitHub access token: the secret itself, or the name of the environment
/// variable holding it.
#[derive(Debug)]
pub enum GitHubAccessToken {
    Direct(String),
    Env { env: String },
}

#[derive(Debug)]
pub struct GiteaUser(pub String);

#[derive(Debug)]
pub struct GiteaOrganisation(pub String);

} // verus!
