//! Locks on sessions, so that of several requests that go on from the same
//! response only one is at work at a time.

use crate::storage::config::{number_setting, opt_chars, read_number};
use crate::text;
use crate::text::{owned, text_eq};
use crate::time::{Duration, NANOS_PER_SEC};
use vstd::prelude::*;

verus! {

/// What can go wrong with a lock.
#[derive(Debug, PartialEq, Eq)]
pub enum LockError {
    /// The lock did not come free in time; how long it was waited for.
    Timeout(Duration),
    /// The lock is held by another request.
    AlreadyHeld,
    /// The locks behind failed.
    BackendError(String),
}

/// Proof that a lock is held. It is made by taking the lock only, and given up
/// by releasing it.
#[derive(Debug)]
pub struct LockGuard {
    key: String,
}

impl LockGuard {
    /// The lock's key, as mathematics.
    pub closed spec fn lock(&self) -> Seq<char> {
        self.key@
    }

    /// The lock's key.
    pub fn key(&self) -> (res: &str)
        ensures
            res@ == self.lock(),
    {
        self.key.as_str()
    }
}

/// The locks of one process: which keys are held.
#[derive(Debug)]
pub struct InMemorySessionLock {
    held: Vec<String>,
}

/// What to do about a lock that is wanted.
#[derive(Debug)]
pub enum AcquireStep {
    /// The lock is taken.
    Acquired(LockGuard),
    /// The lock is held and the time is up.
    Failed(LockError),
    /// The lock is held: wait and try again.
    Wait,
}

impl InMemorySessionLock {
    /// The keys that are held.
    pub closed spec fn view(&self) -> Set<Seq<char>> {
        text::texts(self.held@).to_set()
    }

    #[verifier::type_invariant]
    spec fn once_each(&self) -> bool {
        text::texts(self.held@).no_duplicates()
    }

    /// Locks of which none is held.
    pub fn new() -> (res: Self)
        ensures
            res@ == Set::<Seq<char>>::empty(),
    {
        let res = InMemorySessionLock { held: Vec::new() };
        assert(res@ =~= Set::empty());
        res
    }

    fn find(&self, key: &str) -> (res: Option<usize>)
        ensures
            match res {
                Some(i) => i < self.held@.len() && text::texts(self.held@)[i as int] == key@
                    && self@.contains(key@),
                None => !self@.contains(key@),
            },
    {
        let ghost all = text::texts(self.held@);
        let mut i: usize = 0;
        while i < self.held.len()
            invariant
                i <= self.held.len(),
                all == text::texts(self.held@),
                forall|j: int| 0 <= j < i ==> #[trigger] all[j] != key@,
            decreases self.held.len() - i,
        {
            if text_eq(self.held[i].as_str(), key) {
                assert(all[i as int] == key@);
                return Some(i);
            }
            i = i + 1;
        }
        None
    }

    /// Takes a lock, without waiting.
    pub fn try_acquire(&mut self, key: &str) -> (res: Result<LockGuard, LockError>)
        ensures
            match res {
                Ok(guard) => {
                    &&& !old(self)@.contains(key@)
                    &&& guard.lock() == key@
                    &&& final(self)@ == old(self)@.insert(key@)
                },
                Err(e) => {
                    &&& e is AlreadyHeld
                    &&& old(self)@.contains(key@)
                    &&& final(self)@ == old(self)@
                },
            },
    {
        proof {
            use_type_invariant(&*self);
        }
        match self.find(key) {
            Some(_) => Err(LockError::AlreadyHeld),
            None => {
                let ghost before = text::texts(self.held@);
                let mut held: Vec<String> = Vec::new();
                std::mem::swap(&mut held, &mut self.held);
                held.push(owned(key));
                proof {
                    let after = text::texts(held@);
                    assert(after =~= before.push(key@));
                    assert(after.no_duplicates());
                    assert(after.to_set() =~= before.to_set().insert(key@)) by {
                        assert forall|s: Seq<char>| #[trigger] after.to_set().contains(
                            s,
                        ) == before.to_set().insert(key@).contains(s) by {
                            if before.contains(s) {
                                let i = choose|i: int| 0 <= i < before.len() && before[i] == s;
                                assert(after[i] == s);
                            }
                            assert(after[before.len() as int] == key@);
                        }
                    }
                }
                self.held = held;
                Ok(LockGuard { key: owned(key) })
            },
        }
    }

    /// Whether a lock is held.
    pub fn is_locked(&self, key: &str) -> (res: bool)
        ensures
            res == self@.contains(key@),
    {
        self.find(key).is_some()
    }

    /// Releases a lock.
    pub fn release(&mut self, guard: LockGuard)
        ensures
            final(self)@ == old(self)@.remove(guard.lock()),
    {
        proof {
            use_type_invariant(&*self);
        }
        let ghost before = text::texts(self.held@);
        match self.find(guard.key.as_str()) {
            Some(i) => {
                let mut held: Vec<String> = Vec::new();
                std::mem::swap(&mut held, &mut self.held);
                let _key = held.remove(i);
                proof {
                    let after = text::texts(held@);
                    let lock = guard.lock();
                    assert(after =~= before.remove(i as int));
                    assert forall|s: Seq<char>| #[trigger] after.to_set().contains(s)
                        == before.to_set().remove(lock).contains(s) by {
                        if after.contains(s) {
                            let j = choose|j: int| 0 <= j < after.len() && after[j] == s;
                            let k = if j < i {
                                j
                            } else {
                                j + 1
                            };
                            assert(before[k] == s);
                        }
                        if before.contains(s) && s != lock {
                            let j = choose|j: int| 0 <= j < before.len() && before[j] == s;
                            let k = if j < i {
                                j
                            } else {
                                j - 1
                            };
                            assert(after[k] == s);
                        }
                    }
                    assert(after.to_set() =~= before.to_set().remove(lock));
                }
                self.held = held;
            },
            None => {
                assert(self@ =~= old(self)@.remove(guard.lock()));
            },
        }
    }

    /// Tries for a lock that has been waited for, and says what to do next: a
    /// lock that is free is taken, whatever the time; one that is held is given
    /// up once it has been waited for long enough.
    pub fn acquire_step(&mut self, key: &str, waited: Duration, timeout: Duration) -> (res:
        AcquireStep)
        ensures
            match res {
                AcquireStep::Acquired(guard) => {
                    &&& !old(self)@.contains(key@)
                    &&& guard.lock() == key@
                    &&& final(self)@ == old(self)@.insert(key@)
                },
                AcquireStep::Failed(e) => {
                    &&& old(self)@.contains(key@)
                    &&& waited@ >= timeout@
                    &&& e == LockError::Timeout(waited)
                    &&& final(self)@ == old(self)@
                },
                AcquireStep::Wait => {
                    &&& old(self)@.contains(key@)
                    &&& waited@ < timeout@
                    &&& final(self)@ == old(self)@
                },
            },
    {
        match self.try_acquire(key) {
            Ok(guard) => AcquireStep::Acquired(guard),
            Err(_) => {
                if waited.at_least(timeout) {
                    AcquireStep::Failed(LockError::Timeout(waited))
                } else {
                    AcquireStep::Wait
                }
            },
        }
    }
}

impl Default for InMemorySessionLock {
    fn default() -> (res: Self)
        ensures
            res@ == Set::<Seq<char>>::empty(),
    {
        Self::new()
    }
}

/// A lock that is taken cannot be taken again; every other lock is as it was;
/// and once released, it is free again and all is as before.
pub proof fn lock_excludes(held: Set<Seq<char>>, key: Seq<char>, other: Seq<char>)
    requires
        !held.contains(key),
        other != key,
    ensures
        held.insert(key).contains(key),
        held.insert(key).contains(other) == held.contains(other),
        held.insert(key).remove(key) == held,
{
    assert(held.insert(key).remove(key) =~= held);
}

/// How long a lock is waited for, by default, in seconds.
pub const DEFAULT_LOCK_TIMEOUT_SECS: u64 = 30;

/// How sessions are locked.
#[derive(Debug, Clone, Copy, PartialEq, Eq, Structural)]
pub struct LockConfig {
    /// How long a lock is waited for, by default.
    pub default_timeout: Duration,
    /// Whether going on from a response needs the lock.
    pub require_lock: bool,
}

impl Default for LockConfig {
    fn default() -> (res: Self)
        ensures
            res.default_timeout@ == DEFAULT_LOCK_TIMEOUT_SECS * NANOS_PER_SEC,
            res.require_lock,
    {
        LockConfig {
            default_timeout: Duration::from_secs(DEFAULT_LOCK_TIMEOUT_SECS),
            require_lock: true,
        }
    }
}

/// Whether a setting says no: it is `false` in any case, or `0`. `lowered` is
/// the setting in lower case.
pub open spec fn says_no(value: Seq<char>, lowered: Seq<char>) -> bool {
    lowered == "false"@ || value == "0"@
}

/// Whether a setting says no, given also in lower case.
pub fn is_no(value: &str, lowered: &str) -> (res: bool)
    ensures
        res == says_no(value@, lowered@),
{
    text_eq(lowered, "false") || text_eq(value, "0")
}

impl LockConfig {
    /// The configuration that settings spell out: the time to wait in seconds,
    /// and whether the lock is needed.
    pub fn from_values(timeout_secs: Option<&str>, required: Option<&str>) -> (res: Self)
        ensures
            res.default_timeout@ == number_setting(
                opt_chars(timeout_secs),
                u64::MAX as nat,
                DEFAULT_LOCK_TIMEOUT_SECS as nat,
            ) * NANOS_PER_SEC,
            res.require_lock == !(required matches Some(s) && says_no(s@, text::lowercase(s@))),
            required matches Some(s) ==> text::all_ascii(s@) ==> res.require_lock == !says_no(
                s@,
                text::ascii_lower(s@),
            ),
    {
        let default_timeout = Duration::from_secs(
            read_number(timeout_secs, u64::MAX, DEFAULT_LOCK_TIMEOUT_SECS),
        );
        let require_lock = match required {
            Some(s) => !is_no(s, text::to_lowercase(s).as_str()),
            None => true,
        };
        LockConfig { default_timeout, require_lock }
    }
}

} // verus!
