use gitnow::cache::{cache_is_fresh, Cache, CacheConfig};
use gitnow::cache_codec::CacheCodec;
use gitnow::config::{
    Cache as CacheSettings, CacheDuration, CacheLocation, Config, Projects, Providers, Settings,
};
use gitnow::repository::Repository;

fn repo(provider: &str, owner: &str, name: &str, ssh: &str) -> Repository {
    Repository {
        provider: provider.to_string(),
        owner: owner.to_string(),
        repo_name: name.to_string(),
        ssh_url: ssh.to_string(),
    }
}

fn config(duration: CacheDuration) -> Config {
    Config {
        settings: Settings {
            cache: CacheSettings { location: CacheLocation("/home/u/.cache/gitnow".to_string()), duration },
            projects: Projects { directory: "/home/u/git".to_string() },
            post_clone_command: None,
            post_update_command: None,
        },
        providers: Providers { github: vec![], gitea: vec![] },
    }
}

#[test]
fn encodes_one_record_exactly() {
    let bytes = CacheCodec::new().serialize_repositories(&[repo("a", "b", "c", "d")]);
    assert_eq!(
        bytes,
        vec![0x0a, 12, 0x0a, 1, b'a', 0x12, 1, b'b', 0x1a, 1, b'c', 0x22, 1, b'd']
    );
}

#[test]
fn empty_fields_are_left_out() {
    let bytes = CacheCodec::new().serialize_repositories(&[repo("", "o", "", "")]);
    assert_eq!(bytes, vec![0x0a, 3, 0x12, 1, b'o']);
    let bytes = CacheCodec::new().serialize_repositories(&[repo("", "", "", "")]);
    assert_eq!(bytes, vec![0x0a, 0]);
}

#[test]
fn long_fields_get_two_byte_lengths() {
    let long = "x".repeat(200);
    let bytes = CacheCodec::new().serialize_repositories(&[repo(&long, "", "", "")]);
    assert_eq!(&bytes[0..5], &[0x0a, 203, 0x01, 0x0a, 200]);
    assert_eq!(bytes[5], 0x01);
    assert_eq!(bytes.len(), 3 + 3 + 200);
}

#[test]
fn empty_set_encodes_to_nothing() {
    let codec = CacheCodec::new();
    assert_eq!(codec.serialize_repositories(&[]), Vec::<u8>::new());
    assert_eq!(codec.deserialize_repositories(vec![]), Some(vec![]));
}

#[test]
fn decode_of_encode_gives_back_the_set() {
    let codec = CacheCodec::new();
    let set = vec![
        repo("github.com", "kjuulh", "gitnow", "ssh://git@github.com/kjuulh/gitnow.git"),
        repo("git.front.kjuulh.io", "kjuulh", "cuddle", "ssh://git@git.front.kjuulh.io/kjuulh/cuddle.git"),
        repo("gitea", "", "ünïcödé-名前", ""),
        repo(&"p".repeat(300), "o", "n", "s"),
    ];
    let bytes = codec.serialize_repositories(&set);
    assert_eq!(codec.deserialize_repositories(bytes), Some(set));
}

#[test]
fn decodes_a_record_with_an_empty_field_present() {
    let bytes = vec![0x0a, 5, 0x0a, 0, 0x12, 1, b'o'];
    assert_eq!(
        CacheCodec::new().deserialize_repositories(bytes),
        Some(vec![repo("", "o", "", "")])
    );
}

#[test]
fn rejects_malformed_content() {
    let codec = CacheCodec::new();
    assert_eq!(codec.deserialize_repositories(vec![0x08, 0x01]), None);
    assert_eq!(codec.deserialize_repositories(vec![0x0a, 5, 0x0a, 1]), None);
    assert_eq!(codec.deserialize_repositories(vec![0x0a, 3, 0x0a, 1, 0xff]), None);
    assert_eq!(codec.deserialize_repositories(vec![0x0a, 2, 0x12, 1, b'o']), None);
    assert_eq!(codec.deserialize_repositories(vec![0x0a, 3, 0x12, 1, b'o', 0x0a]), None);
    assert_eq!(codec.deserialize_repositories(vec![0x0a, 0x80]), None);
    assert_eq!(codec.deserialize_repositories(b"garbage".to_vec()), None);
}

#[test]
fn rejects_fields_out_of_order() {
    let bytes = vec![0x0a, 6, 0x12, 1, b'o', 0x0a, 1, b'p'];
    assert_eq!(CacheCodec::new().deserialize_repositories(bytes), None);
}

#[test]
fn ttl_boundary_is_expired() {
    assert!(!cache_is_fresh(86400, 86400));
    assert!(cache_is_fresh(86399, 86400));
    assert!(!cache_is_fresh(86401, 86400));
    assert!(cache_is_fresh(0, 1));
    assert!(!cache_is_fresh(0, 0));
}

#[test]
fn cache_get_decides_by_age() {
    let cache = Cache::new(&config(CacheDuration::Enabled(true)));
    assert_eq!(cache.ttl, Some(86400));
    let set = vec![repo("h", "o", "n", "s")];
    let bytes = cache.update(&set);
    assert_eq!(cache.get(Some(bytes.clone()), Some(86400)), None);
    assert_eq!(cache.get(Some(bytes.clone()), Some(86399)), Some(set.clone()));
    assert_eq!(cache.get(Some(bytes.clone()), None), Some(set.clone()));
    assert_eq!(cache.get(None, Some(0)), None);
    assert_eq!(cache.get(Some(vec![]), Some(0)), None);
    assert_eq!(cache.get(Some(vec![0xff, 0x00]), Some(0)), None);
}

#[test]
fn disabled_ttl_never_expires() {
    let cache = Cache::new(&config(CacheDuration::Enabled(false)));
    assert_eq!(cache.ttl, None);
    let set = vec![repo("h", "o", "n", "s")];
    let bytes = cache.update(&set);
    assert_eq!(cache.get(Some(bytes), Some(u64::MAX)), Some(set));
}

#[test]
fn written_cache_reads_back_without_aggregation() {
    let cache = Cache::new(&config(CacheDuration::Precise { days: 0, hours: 1, minutes: 0 }));
    assert_eq!(cache.get(None, None), None);
    let set = vec![
        repo("github.com", "kjuulh", "gitnow", "ssh://git@github.com/kjuulh/gitnow.git"),
        repo("github.com", "kjuulh", "crunch", "ssh://git@github.com/kjuulh/crunch.git"),
    ];
    let written = cache.update(&set);
    assert!(!written.is_empty());
    assert_eq!(cache.get(Some(written), Some(0)), Some(set));
}

#[test]
fn cache_file_location_is_under_cache_dir() {
    let c = config(CacheDuration::Enabled(true));
    assert_eq!(c.get_cache_location(), "/home/u/.cache/gitnow");
    assert_eq!(c.get_cache_file_location(), "/home/u/.cache/gitnow/cache.proto");
    let cache = Cache::new(&c);
    assert_eq!(cache.file_location, "/home/u/.cache/gitnow/cache.proto");
}

#[test]
fn durations_in_seconds() {
    assert_eq!(CacheDuration::Enabled(true).get_duration(), Some(86400));
    assert_eq!(CacheDuration::Enabled(false).get_duration(), None);
    assert_eq!(CacheDuration::Precise { days: 2, hours: 0, minutes: 0 }.get_duration(), Some(172800));
    assert_eq!(CacheDuration::Precise { days: 0, hours: 1, minutes: 30 }.get_duration(), Some(5400));
    assert_eq!(CacheDuration::default().get_duration(), Some(86400));
}

#[test]
fn representable_durations() {
    assert!(CacheDuration::Precise { days: 1, hours: 2, minutes: 3 }.is_representable());
    assert!(!CacheDuration::Precise { days: u64::MAX, hours: 0, minutes: 0 }.is_representable());
    assert!(!CacheDuration::Precise { days: 0, hours: u64::MAX / 3600, minutes: u64::MAX / 60 }
        .is_representable());
    assert!(CacheDuration::Enabled(true).is_representable());
}

#[test]
fn cache_location_under_home() {
    assert_eq!(CacheLocation::under_home("/home/u").0, "/home/u/.cache/gitnow");
    assert_eq!(CacheLocation::under_home("/home/u/").0, "/home/u/.cache/gitnow");
    assert_eq!(CacheLocation::under_home("").0, ".cache/gitnow");
}
