//! Configuration of the storage for responses.

use crate::text;
use crate::text::{owned, parse_unsigned, text_eq};
use crate::time::{Duration, NANOS_PER_SEC};
use vstd::prelude::*;

verus! {

/// The time to live by default: a day.
pub const DEFAULT_TTL_SECS: u64 = 86_400;

/// The longest time to live: a week.
pub const MAX_TTL_SECS: u64 = 604_800;

/// How many responses a session holds at most, by default.
pub const DEFAULT_MAX_PER_SESSION: usize = 1000;

/// How the storage for responses behaves.
#[derive(Debug, Clone, PartialEq, Eq)]
pub struct StorageConfig {
    /// The time to live of a response by default.
    pub default_ttl: Duration,
    /// The longest time to live.
    pub max_ttl: Duration,
    /// Whether a response is stored where the request does not say.
    pub store_by_default: bool,
    /// How many responses a session holds at most; zero is no limit.
    pub max_responses_per_session: usize,
    /// Where responses are stored.
    pub backend: StorageBackend,
}

/// Where responses are stored.
#[derive(Debug, Clone, PartialEq, Eq)]
pub enum StorageBackend {
    /// In memory, for tests and a single instance.
    InMemory,
    /// In Redis, for production and several instances.
    Redis {
        /// Where Redis is.
        url: String,
    },
}

impl StorageBackend {
    /// Whether this is Redis at the given place.
    pub open spec fn is_redis_at(self, place: Seq<char>) -> bool {
        self matches StorageBackend::Redis { url } && url@ == place
    }
}

impl Default for StorageConfig {
    fn default() -> (res: Self)
        ensures
            res.default_ttl@ == DEFAULT_TTL_SECS * NANOS_PER_SEC,
            res.max_ttl@ == MAX_TTL_SECS * NANOS_PER_SEC,
            !res.store_by_default,
            res.max_responses_per_session == DEFAULT_MAX_PER_SESSION,
            res.backend is InMemory,
    {
        StorageConfig {
            default_ttl: Duration::from_secs(DEFAULT_TTL_SECS),
            max_ttl: Duration::from_secs(MAX_TTL_SECS),
            store_by_default: false,
            max_responses_per_session: DEFAULT_MAX_PER_SESSION,
            backend: StorageBackend::InMemory,
        }
    }
}

/// The number that a setting spells, or the default where it is missing or
/// spells none.
pub open spec fn number_setting(value: Option<Seq<char>>, max: nat, default: nat) -> nat {
    match value {
        Some(s) => match text::unsigned_value(s, max) {
            Some(n) => n,
            None => default,
        },
        None => default,
    }
}

/// The characters of an optional text.
pub open spec fn opt_chars(s: Option<&str>) -> Option<Seq<char>> {
    match s {
        Some(t) => Some(t@),
        None => None,
    }
}

/// The number that a setting spells, or the default.
pub fn read_number(value: Option<&str>, max: u64, default: u64) -> (res: u64)
    requires
        default <= max,
    ensures
        res == number_setting(opt_chars(value), max as nat, default as nat),
        res <= max,
{
    match value {
        Some(s) => match parse_unsigned(s, max) {
            Some(n) => n,
            None => default,
        },
        None => default,
    }
}

/// Whether a setting says yes: it is `true` in any case, or `1`. `lowered` is
/// the setting in lower case.
pub open spec fn says_yes(value: Seq<char>, lowered: Seq<char>) -> bool {
    lowered == "true"@ || value == "1"@
}

/// Whether a setting says yes, given also in lower case.
pub fn is_yes(value: &str, lowered: &str) -> (res: bool)
    ensures
        res == says_yes(value@, lowered@),
{
    text_eq(lowered, "true") || text_eq(value, "1")
}

/// Where Redis is if nothing is said.
pub open spec fn redis_place(url: Option<Seq<char>>) -> Seq<char> {
    match url {
        Some(u) => u,
        None => "redis://localhost:6379"@,
    }
}

/// The backend that a setting in lower case names: Redis where it is `redis`,
/// memory otherwise.
pub fn select_backend(lowered: &str, redis_url: Option<&str>) -> (res: StorageBackend)
    ensures
        if lowered@ == "redis"@ {
            res.is_redis_at(redis_place(opt_chars(redis_url)))
        } else {
            res is InMemory
        },
{
    if text_eq(lowered, "redis") {
        match redis_url {
            Some(url) => StorageBackend::Redis { url: owned(url) },
            None => StorageBackend::Redis { url: owned("redis://localhost:6379") },
        }
    } else {
        StorageBackend::InMemory
    }
}

impl StorageConfig {
    /// The configuration that settings spell out: the default time to live and
    /// the longest one in seconds, whether to store by default, how many
    /// responses a session holds, the backend and where Redis is.
    pub fn from_values(
        default_ttl_secs: Option<&str>,
        max_ttl_secs: Option<&str>,
        store_by_default: Option<&str>,
        max_per_session: Option<&str>,
        backend: Option<&str>,
        redis_url: Option<&str>,
    ) -> (res: Self)
        ensures
            res.default_ttl@ == number_setting(
                opt_chars(default_ttl_secs),
                u64::MAX as nat,
                DEFAULT_TTL_SECS as nat,
            ) * NANOS_PER_SEC,
            res.max_ttl@ == number_setting(
                opt_chars(max_ttl_secs),
                u64::MAX as nat,
                MAX_TTL_SECS as nat,
            ) * NANOS_PER_SEC,
            res.store_by_default == (store_by_default matches Some(s) && says_yes(
                s@,
                text::lowercase(s@),
            )),
            res.max_responses_per_session == number_setting(
                opt_chars(max_per_session),
                usize::MAX as nat,
                DEFAULT_MAX_PER_SESSION as nat,
            ),
            backend is None ==> res.backend is InMemory,
            backend matches Some(b) ==> if text::lowercase(b@) == "redis"@ {
                res.backend.is_redis_at(redis_place(opt_chars(redis_url)))
            } else {
                res.backend is InMemory
            },
            store_by_default matches Some(s) ==> text::all_ascii(s@) ==> res.store_by_default
                == says_yes(s@, text::ascii_lower(s@)),
            backend matches Some(b) ==> text::all_ascii(b@) ==> (res.backend is Redis
                <==> text::ascii_lower(b@) == "redis"@),
    {
        let default_ttl = Duration::from_secs(
            read_number(default_ttl_secs, u64::MAX, DEFAULT_TTL_SECS),
        );
        let max_ttl = Duration::from_secs(read_number(max_ttl_secs, u64::MAX, MAX_TTL_SECS));
        let store_by_default = match store_by_default {
            Some(s) => is_yes(s, text::to_lowercase(s).as_str()),
            None => false,
        };
        let max_responses_per_session: usize = read_number(
            max_per_session,
            usize::MAX as u64,
            DEFAULT_MAX_PER_SESSION as u64,
        ) as usize;
        let backend = match backend {
            Some(b) => select_backend(text::to_lowercase(b).as_str(), redis_url),
            None => StorageBackend::InMemory,
        };
        StorageConfig { default_ttl, max_ttl, store_by_default, max_responses_per_session, backend }
    }

    /// The time to live that a request gets: what it asks for, or else the
    /// default, but never more than the longest one.
    pub fn validate_ttl(&self, requested: Option<Duration>) -> (res: Duration)
        ensures
            res == ({
                let wanted = match requested {
                    Some(ttl) => ttl,
                    None => self.default_ttl,
                };
                if wanted@ <= self.max_ttl@ {
                    wanted
                } else {
                    self.max_ttl
                }
            }),
            res@ <= self.max_ttl@,
    {
        match requested {
            Some(ttl) => ttl.min(self.max_ttl),
            None => self.default_ttl.min(self.max_ttl),
        }
    }
}

} // verus!
