//! What holds of settings and of locks, stated on what goes in and what comes out.

use crate::storage::config::{is_yes, read_number, select_backend, StorageBackend, StorageConfig};
use crate::storage::redis_lock::{
    after_attempt, lock_key, lock_ttl_millis, single_attempt, was_released, AttemptStep,
};
use crate::storage::session_lock::{
    is_no, AcquireStep, InMemorySessionLock, LockConfig, LockError, LockGuard,
};
use crate::text;
use crate::text_laws::digits;
use crate::time::Duration;
use vstd::prelude::*;

verus! {

/// A setting that spells a number within the limit is that number; one that is
/// missing, empty, too large, or has anything but digits behind an optional plus
/// sign, leaves the default.
pub proof fn number_or_default(value: Option<&str>, max: u64, default: u64, res: u64, n: nat)
    requires
        default <= max,
        call_ensures(read_number, (value, max, default), res),
    ensures
        value is None ==> res == default,
        value matches Some(s) ==> s@ == digits(n) ==> res == (if n <= max {
            n
        } else {
            default as nat
        }),
        value matches Some(s) ==> s@.len() == 0 ==> res == default,
        value matches Some(s) ==> (exists|i: int|
            0 <= i < s@.len() && !('0' <= #[trigger] s@[i] <= '9') && (i > 0 || s@[i] != '+'))
            ==> res == default,
{
    if let Some(s) = value {
        crate::text_laws::digits_are_read(n, max as nat);
        if exists|i: int|
            0 <= i < s@.len() && !('0' <= #[trigger] s@[i] <= '9') && (i > 0 || s@[i] != '+') {
            let i = choose|i: int|
                0 <= i < s@.len() && !('0' <= #[trigger] s@[i] <= '9') && (i > 0 || s@[i] != '+');
            crate::text_laws::stray_character_spells_nothing(s@, max as nat, i);
        }
    }
}

/// Settings say yes by `true` in lower case or by `1`, and no by `false` in lower case
/// or by `0`; nothing else is either.
pub proof fn yes_and_no(value: &str, lowered: &str, yes: bool, no: bool)
    requires
        call_ensures(is_yes, (value, lowered), yes),
        call_ensures(is_no, (value, lowered), no),
    ensures
        yes <==> lowered@ == "true"@ || value@ == "1"@,
        no <==> lowered@ == "false"@ || value@ == "0"@,
{
}

/// Responses are kept in Redis where the setting is `redis`, at the place that is
/// given or else on this machine, and in memory otherwise.
pub proof fn backend_by_name(lowered: &str, url: Option<&str>, res: StorageBackend)
    requires
        call_ensures(select_backend, (lowered, url), res),
    ensures
        lowered@ == "redis"@ ==> (res matches StorageBackend::Redis { url: place } && place@ == (
        match url {
            Some(given) => given@,
            None => "redis://localhost:6379"@,
        })),
        lowered@ != "redis"@ ==> res is InMemory,
{
}

/// A time to live is what is asked for, or the default where nothing is, but never
/// more than the longest.
pub proof fn ttl_is_bounded(config: &StorageConfig, requested: Option<Duration>, res: Duration)
    requires
        call_ensures(StorageConfig::validate_ttl, (config, requested), res),
    ensures
        requested matches Some(ttl) ==> res@ == (if ttl@ < config.max_ttl@ {
            ttl@
        } else {
            config.max_ttl@
        }),
        requested is None ==> res@ == (if config.default_ttl@ < config.max_ttl@ {
            config.default_ttl@
        } else {
            config.max_ttl@
        }),
{
}

/// Without settings responses are kept in memory for a day, at most for a week, a
/// thousand for each session, and only where a request asks for it.
pub proof fn storage_defaults(config: StorageConfig, made: StorageConfig)
    requires
        call_ensures(
            StorageConfig::from_values,
            (
                None::<&str>,
                None::<&str>,
                None::<&str>,
                None::<&str>,
                None::<&str>,
                None::<&str>,
            ),
            config,
        ),
        call_ensures(<StorageConfig as Default>::default, (), made),
    ensures
        config.default_ttl@ == 86_400 * 1_000_000_000,
        config.max_ttl@ == 604_800 * 1_000_000_000,
        !config.store_by_default,
        config.max_responses_per_session == 1000,
        config.backend is InMemory,
        made.default_ttl@ == config.default_ttl@,
        made.max_ttl@ == config.max_ttl@,
        made.store_by_default == config.store_by_default,
        made.max_responses_per_session == config.max_responses_per_session,
        made.backend is InMemory,
{
}

/// Each setting decides its own part of the configuration: numbers that are spelled
/// are taken, as seconds and as a count.
pub proof fn storage_by_settings(
    default_ttl_secs: &str,
    max_ttl_secs: &str,
    store_by_default: Option<&str>,
    max_per_session: &str,
    backend: Option<&str>,
    redis_url: Option<&str>,
    config: StorageConfig,
    a: u64,
    b: u64,
    c: usize,
)
    requires
        default_ttl_secs@ == digits(a as nat),
        max_ttl_secs@ == digits(b as nat),
        max_per_session@ == digits(c as nat),
        call_ensures(
            StorageConfig::from_values,
            (
                Some(default_ttl_secs),
                Some(max_ttl_secs),
                store_by_default,
                Some(max_per_session),
                backend,
                redis_url,
            ),
            config,
        ),
    ensures
        config.default_ttl@ == a * 1_000_000_000,
        config.max_ttl@ == b * 1_000_000_000,
        config.max_responses_per_session == c,
        store_by_default is None ==> !config.store_by_default,
        store_by_default matches Some(s) ==> s@ == "1"@ || s@ == "true"@ || s@ == "TRUE"@
            ==> config.store_by_default,
        store_by_default matches Some(s) ==> s@ == "0"@ || s@ == "false"@ || s@ == ""@
            ==> !config.store_by_default,
        backend is None ==> config.backend is InMemory,
        backend matches Some(s) ==> s@ == "memory"@ ==> config.backend is InMemory,
        backend matches Some(s) ==> s@ == "redis"@ || s@ == "REDIS"@ ==> (
        config.backend matches StorageBackend::Redis { url } && url@ == (match redis_url {
            Some(given) => given@,
            None => "redis://localhost:6379"@,
        })),
{
    crate::text_laws::digits_are_read(a as nat, u64::MAX as nat);
    crate::text_laws::digits_are_read(b as nat, u64::MAX as nat);
    crate::text_laws::digits_are_read(c as nat, usize::MAX as nat);
    words_in_lower_case();
}

proof fn words_in_lower_case()
    ensures
        text::all_ascii("1"@) && text::ascii_lower("1"@) == "1"@,
        text::all_ascii("0"@) && text::ascii_lower("0"@) == "0"@ && "0"@ != "1"@ && "0"@ != "true"@,
        text::all_ascii(""@) && text::ascii_lower(""@) == ""@ && ""@ != "1"@ && ""@ != "true"@,
        ""@ != "0"@ && ""@ != "false"@ && "1"@ != "0"@ && "1"@ != "false"@,
        text::all_ascii("true"@) && text::ascii_lower("true"@) == "true"@ && "true"@ != "false"@
            && "true"@ != "0"@,
        text::all_ascii("TRUE"@) && text::ascii_lower("TRUE"@) == "true"@,
        text::all_ascii("false"@) && text::ascii_lower("false"@) == "false"@ && "false"@ != "true"@
            && "false"@ != "1"@,
        text::all_ascii("FALSE"@) && text::ascii_lower("FALSE"@) == "false"@,
        text::all_ascii("redis"@) && text::ascii_lower("redis"@) == "redis"@,
        text::all_ascii("REDIS"@) && text::ascii_lower("REDIS"@) == "redis"@,
        text::all_ascii("memory"@) && text::ascii_lower("memory"@) == "memory"@ && "memory"@
            != "redis"@,
{
    reveal_strlit("1");
    reveal_strlit("0");
    reveal_strlit("");
    reveal_strlit("true");
    reveal_strlit("TRUE");
    reveal_strlit("false");
    reveal_strlit("FALSE");
    reveal_strlit("redis");
    reveal_strlit("REDIS");
    reveal_strlit("memory");
    assert("0"@[0] != "1"@[0]);
    assert("true"@[0] != "false"@[0]);
    assert("memory"@[0] != "redis"@[0]);
    assert(text::ascii_lower("1"@) =~= "1"@);
    assert(text::ascii_lower("0"@) =~= "0"@);
    assert(text::ascii_lower(""@) =~= ""@);
    assert(text::ascii_lower("true"@) =~= "true"@);
    assert(text::ascii_lower("TRUE"@) =~= "true"@);
    assert(text::ascii_lower("false"@) =~= "false"@);
    assert(text::ascii_lower("FALSE"@) =~= "false"@);
    assert(text::ascii_lower("redis"@) =~= "redis"@);
    assert(text::ascii_lower("REDIS"@) =~= "redis"@);
    assert(text::ascii_lower("memory"@) =~= "memory"@);
}

/// Without settings a lock is needed and waited for half a minute.
pub proof fn lock_defaults(config: LockConfig, made: LockConfig)
    requires
        call_ensures(LockConfig::from_values, (None::<&str>, None::<&str>), config),
        call_ensures(<LockConfig as Default>::default, (), made),
    ensures
        config.default_timeout@ == 30 * 1_000_000_000,
        config.require_lock,
        made.default_timeout@ == config.default_timeout@,
        made.require_lock,
{
}

/// A lock is waited for as many seconds as the setting spells, and is needed unless
/// the other setting says no.
pub proof fn lock_by_settings(
    timeout_secs: &str,
    required: Option<&str>,
    config: LockConfig,
    n: u64,
)
    requires
        timeout_secs@ == digits(n as nat),
        call_ensures(LockConfig::from_values, (Some(timeout_secs), required), config),
    ensures
        config.default_timeout@ == n * 1_000_000_000,
        required is None ==> config.require_lock,
        required matches Some(s) ==> s@ == "0"@ || s@ == "false"@ || s@ == "FALSE"@
            ==> !config.require_lock,
        required matches Some(s) ==> s@ == "1"@ || s@ == "true"@ || s@ == ""@
            ==> config.require_lock,
{
    crate::text_laws::digits_are_read(n as nat, u64::MAX as nat);
    words_in_lower_case();
}

/// A lock that was taken is held and cannot be taken again; once it is released it is
/// free, and every other lock is as it was.
pub proof fn taken_then_released(
    first: &mut InMemorySessionLock,
    second: &mut InMemorySessionLock,
    third: &mut InMemorySessionLock,
    key: &str,
    guard: LockGuard,
    held: bool,
    again: Result<LockGuard, LockError>,
    other: Seq<char>,
)
    requires
        call_ensures(
            InMemorySessionLock::try_acquire,
            (first, key),
            Ok::<LockGuard, LockError>(guard),
        ),
        call_ensures(InMemorySessionLock::is_locked, (&*final(first), key), held),
        final(first)@ == old(second)@,
        call_ensures(InMemorySessionLock::try_acquire, (second, key), again),
        final(second)@ == old(third)@,
        call_ensures(InMemorySessionLock::release, (third, guard), ()),
    ensures
        !old(first)@.contains(key@),
        held,
        again == Err::<LockGuard, LockError>(LockError::AlreadyHeld),
        final(second)@ == old(second)@,
        !final(third)@.contains(key@),
        other != key@ ==> final(third)@.contains(other) == old(first)@.contains(other),
{
}

/// A lock that is waited for is taken once it is free, however long that took; one
/// that is held is given up when the time is up, with the time that was waited, and
/// not before.
pub proof fn waited_for_lock(
    locks: &mut InMemorySessionLock,
    key: &str,
    waited: Duration,
    timeout: Duration,
    step: AcquireStep,
)
    requires
        call_ensures(InMemorySessionLock::acquire_step, (locks, key, waited, timeout), step),
    ensures
        !old(locks)@.contains(key@) ==> step is Acquired && final(locks)@.contains(key@),
        old(locks)@.contains(key@) ==> final(locks)@ == old(locks)@,
        old(locks)@.contains(key@) && waited@ >= timeout@ ==> step == AcquireStep::Failed(
            LockError::Timeout(waited),
        ),
        old(locks)@.contains(key@) && waited@ < timeout@ ==> step is Wait,
{
}

/// A lock in Redis has its own key. An attempt that took it ends the wait; one that
/// did not is made again after fifty milliseconds, until the time is up.
pub proof fn redis_lock_attempts(
    key: &str,
    name: String,
    taken: Option<String>,
    waited: Duration,
    timeout: Duration,
    step: AttemptStep,
    once: Result<String, LockError>,
)
    requires
        call_ensures(lock_key, (key,), name),
        call_ensures(after_attempt, (taken, waited, timeout), step),
        call_ensures(single_attempt, (taken,), once),
    ensures
        name@ == "lock:"@ + key@,
        taken matches Some(id) ==> step == AttemptStep::Acquired(id) && once == Ok::<
            String,
            LockError,
        >(id),
        taken is None ==> once == Err::<String, LockError>(LockError::AlreadyHeld),
        taken is None && waited@ >= timeout@ ==> step == AttemptStep::Failed(
            LockError::Timeout(waited),
        ),
        taken is None && waited@ < timeout@ ==> (step matches AttemptStep::RetryAfter(delay)
            && delay@ == 50 * 1_000_000),
{
}

/// A lock in Redis lives for the whole milliseconds of its time, and was released
/// where one key was deleted.
pub proof fn redis_lock_ends(ttl: Duration, millis: u64, answer: i32, released: bool)
    requires
        call_ensures(lock_ttl_millis, (ttl,), millis),
        ttl@ / 1_000_000 <= u64::MAX,
        call_ensures(was_released, (answer,), released),
    ensures
        millis == ttl@ / 1_000_000,
        released <==> answer == 1,
{
}

/// At first every lock is free.
pub proof fn locks_start_free(
    locks: InMemorySessionLock,
    made: bool,
    key: &str,
    held: bool,
)
    requires
        made ==> call_ensures(InMemorySessionLock::new, (), locks),
        !made ==> call_ensures(<InMemorySessionLock as Default>::default, (), locks),
        call_ensures(InMemorySessionLock::is_locked, (&locks, key), held),
    ensures
        !held,
{
}

} // verus!
