//! The cache store: decides from what was read off disk whether the cached
//! repository set can be used, and produces the bytes to write back.
//!
//! Reading the file, its age, and writing it are left to the caller; this
//! module holds the decisions.

use vstd::prelude::*;

use crate::cache_codec::{decode_repositories, encode_repositories, encodable, CacheCodec};
use crate::config::Config;
use crate::paths::{join_path, path_join};
use crate::repository::{views, Repository, RepositoryView};

verus! {

/// A cache file of age `age` seconds is stale under a time to live of `ttl`
/// seconds: the boundary itself counts as expired.
pub open spec fn is_stale(age: nat, ttl: nat) -> bool {
    age >= ttl
}

/// Whether a cache file of age `age` seconds may still be used under a time
/// to live of `ttl` seconds.
pub fn cache_is_fresh(age: u64, ttl: u64) -> (r: bool)
    ensures
        r == !is_stale(age as nat, ttl as nat),
{
    age < ttl
}

/// What reading the cache gives: `file` is the cache file's content, `None`
/// where there is no such file; `age` is the time since its last
/// modification in seconds, `None` where it could not be learnt.
pub open spec fn cache_result(
    ttl: Option<nat>,
    file: Option<Seq<u8>>,
    age: Option<nat>,
) -> Option<Seq<RepositoryView>> {
    match file {
        None => None,
        Some(content) => if ttl matches Some(t) && age matches Some(a) && is_stale(a, t) {
            None
        } else if content.len() == 0 {
            None
        } else {
            decode_repositories(content)
        },
    }
}

/// The persisted repository set.
pub struct Cache {
    /// Time to live in seconds; `None` where the cache never expires.
    pub ttl: Option<u64>,
    /// The path of the cache file.
    pub file_location: String,
}

impl Cache {
    /// The cache store that `config` describes.
    pub fn new(config: &Config) -> (r: Cache)
        requires
            config.settings.cache.duration.representable(),
        ensures
            r.file_location@ == cache_file_path(config),
            match config.settings.cache.duration.ttl() {
                Some(t) => r.ttl == Some(t as u64),
                None => r.ttl is None,
            },
    {
        Cache {
            ttl: config.settings.cache.duration.get_duration(),
            file_location: config.get_cache_file_location(),
        }
    }

    /// The time to live as a mathematical value.
    pub open spec fn ttl_spec(&self) -> Option<nat> {
        match self.ttl {
            Some(t) => Some(t as nat),
            None => None,
        }
    }

    /// The cached repository set, given what was read: absent where there is
    /// no file, where it is stale, where it is empty, and where it does not
    /// decode.
    pub fn get(&self, file: Option<Vec<u8>>, age: Option<u64>) -> (r: Option<Vec<Repository>>)
        ensures
            match cache_result(
                self.ttl_spec(),
                match file {
                    Some(f) => Some(f@),
                    None => None,
                },
                match age {
                    Some(a) => Some(a as nat),
                    None => None,
                },
            ) {
                Some(s) => r matches Some(v) && views(v@) == s,
                None => r is None,
            },
    {
        let content = match file {
            None => return None,
            Some(content) => content,
        };
        if let Some(ttl) = self.ttl {
            if let Some(age) = age {
                if !cache_is_fresh(age, ttl) {
                    return None;
                }
            }
        }
        if content.len() == 0 {
            return None;
        }
        CacheCodec::new().deserialize_repositories(content)
    }

    /// The bytes that the cache file is overwritten with to hold `repositories`.
    pub fn update(&self, repositories: &[Repository]) -> (r: Vec<u8>)
        ensures
            r@ == encode_repositories(views(repositories@)),
            forall|i: int|
                0 <= i < repositories@.len() ==> #[trigger] encodable(repositories@[i]@),
    {
        CacheCodec::new().serialize_repositories(repositories)
    }
}

/// The path of the cache file under the configured cache directory.
pub open spec fn cache_file_path(config: &Config) -> Seq<char> {
    path_join(config.settings.cache.location.0@, "cache.proto"@)
}

/// Where the cache is kept.
pub trait CacheConfig {
    spec fn cache_dir_spec(&self) -> Seq<char>;

    spec fn cache_file_spec(&self) -> Seq<char>;

    /// The directory holding the cache file.
    fn get_cache_location(&self) -> (r: String)
        ensures
            r@ == self.cache_dir_spec(),
    ;

    /// The cache file itself.
    fn get_cache_file_location(&self) -> (r: String)
        ensures
            r@ == self.cache_file_spec(),
    ;
}

impl CacheConfig for Config {
    open spec fn cache_dir_spec(&self) -> Seq<char> {
        self.settings.cache.location.0@
    }

    open spec fn cache_file_spec(&self) -> Seq<char> {
        cache_file_path(self)
    }

    fn get_cache_location(&self) -> (r: String) {
        self.settings.cache.location.0.clone()
    }

    fn get_cache_file_location(&self) -> (r: String) {
        join_path(self.settings.cache.location.0.as_str(), "cache.proto")
    }
}

/// A file written by [`Cache::update`] and read back at once, with its age
/// not past the time to live, gives the same repository set.
pub proof fn lemma_update_then_get(
    ttl: Option<nat>,
    repositories: Seq<RepositoryView>,
    age: Option<nat>,
)
    requires
        forall|i: int| 0 <= i < repositories.len() ==> #[trigger] encodable(repositories[i]),
        repositories.len() > 0,
        ttl matches Some(t) ==> age matches Some(a) && a < t,
    ensures
        cache_result(ttl, Some(encode_repositories(repositories)), age) == Some(repositories),
{
    crate::cache_codec::lemma_decode_encode(repositories);
    crate::cache_codec::lemma_encode_nonempty(repositories);
}

} // verus!
