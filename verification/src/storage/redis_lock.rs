//! The rules of locks on sessions in Redis.
//!
//! A lock is a key that is set only where it is not there, to an identifier
//! that nobody else has, for a limited time. Releasing it deletes the key only
//! where it still holds that identifier.

use crate::ids;
use crate::storage::session_lock::LockError;
use crate::text;
use crate::time::{Duration, NANOS_PER_MILLI};
use vstd::prelude::*;

verus! {

/// After how many milliseconds a lock releases itself, by default.
pub const DEFAULT_LOCK_TTL_MS: u64 = 30_000;

/// After how many milliseconds a lock that is held is tried again.
pub const LOCK_RETRY_DELAY_MS: u64 = 50;

/// Deletes a lock's key where it holds the given identifier, in one step.
pub const RELEASE_LOCK_SCRIPT: &'static str = r#"
if redis.call("get", KEYS[1]) == ARGV[1] then
    return redis.call("del", KEYS[1])
else
    return 0
end
"#;

/// The key of a lock.
pub fn lock_key(key: &str) -> (res: String)
    ensures
        res@ == "lock:"@ + key@,
{
    text::join2("lock:", key)
}

/// Keys tell locks apart.
pub proof fn lock_keys_differ(a: Seq<char>, b: Seq<char>)
    requires
        a != b,
    ensures
        "lock:"@ + a != "lock:"@ + b,
{
    let n = "lock:"@.len() as int;
    assert(("lock:"@ + a).skip(n) =~= a);
    assert(("lock:"@ + b).skip(n) =~= b);
}

/// A fresh identifier for one who wants a lock.
pub fn new_lock_id() -> (res: String)
    ensures
        ids::hyphenated_uuid(res@),
{
    ids::new_id()
}

/// After how many milliseconds a lock releases itself: what fits of the span.
pub fn lock_ttl_millis(ttl: Duration) -> (res: u64)
    ensures
        res == (ttl@ / (NANOS_PER_MILLI as nat)) as u64,
{
    #[verifier::truncate]
    let millis: u64 = ttl.as_millis() as u64;
    millis
}

/// What to do after an attempt to take a lock.
#[derive(Debug, PartialEq, Eq)]
pub enum AttemptStep {
    /// The lock is taken, under the given identifier.
    Acquired(String),
    /// The lock is held and the time is up.
    Failed(LockError),
    /// The lock is held: try again after so long.
    RetryAfter(Duration),
}

/// What to do after an attempt to take a lock: `taken` is the identifier under
/// which it was taken, if it was. `waited` says how long it has been tried.
pub fn after_attempt(taken: Option<String>, waited: Duration, timeout: Duration) -> (res:
    AttemptStep)
    ensures
        match taken {
            Some(id) => res == AttemptStep::Acquired(id),
            None => if waited@ >= timeout@ {
                res == AttemptStep::Failed(LockError::Timeout(waited))
            } else {
                res matches AttemptStep::RetryAfter(delay) && delay@ == LOCK_RETRY_DELAY_MS
                    * NANOS_PER_MILLI
            },
        },
{
    match taken {
        Some(id) => AttemptStep::Acquired(id),
        None => {
            if waited.at_least(timeout) {
                AttemptStep::Failed(LockError::Timeout(waited))
            } else {
                AttemptStep::RetryAfter(Duration::from_millis(LOCK_RETRY_DELAY_MS))
            }
        },
    }
}

/// The answer to a single attempt: the identifier under which the lock was
/// taken, or that it is held.
pub fn single_attempt(taken: Option<String>) -> (res: Result<String, LockError>)
    ensures
        match taken {
            Some(id) => res == Ok::<String, LockError>(id),
            None => res == Err::<String, LockError>(LockError::AlreadyHeld),
        },
{
    match taken {
        Some(id) => Ok(id),
        None => Err(LockError::AlreadyHeld),
    }
}

/// Whether the script's answer says that the lock was released.
pub fn was_released(answer: i32) -> (res: bool)
    ensures
        res == (answer == 1),
{
    answer == 1
}

} // verus!
