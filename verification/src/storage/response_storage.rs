//! The interface of a storage for responses, and how a session is forked.
//!
//! Storages other than the ones here (Postgres, S3 and the like) implement the
//! [`ResponseStorage`] trait.

use crate::json::{Json, JsonValue};
use crate::storage::records;
use crate::storage::records::{
    find_response, live_copy, opt_chars, page, position, preferred, Key, Record, StoredResponse,
};
use crate::time::{Duration, NANOS_PER_SEC};
use vstd::prelude::*;

verus! {

/// What can go wrong in a storage.
#[derive(Debug, PartialEq, Eq)]
pub enum StorageError {
    /// The response does not exist: it may have expired, or never existed.
    NotFound,
    /// The response belongs to a different session.
    SessionMismatch,
    /// The response belongs to a different tenant.
    TenantMismatch,
    /// The storage behind failed.
    BackendError(String),
    /// A response could not be written or read as text.
    SerializationError(String),
}

/// What a storage holds, by tenant, session and response identifier. A store
/// leaves one entry per tenant and identifier; a response that has been forked
/// stands in each session that has a copy.
pub type Contents = Map<Key, Record>;

/// The whole seconds of a time to live.
pub open spec fn ttl_seconds(ttl: Option<Duration>) -> Option<nat> {
    match ttl {
        Some(d) => Some(d@ / (NANOS_PER_SEC as nat)),
        None => None,
    }
}

/// Whether the time at which something stored at `now` expires is a number that
/// can be held.
pub open spec fn expiry_fits(now: u64, ttl: Option<Duration>) -> bool {
    ttl_seconds(ttl) matches Some(secs) ==> now + secs <= u64::MAX
}

/// When something stored at `now` expires.
pub open spec fn expiry(now: u64, ttl: Option<Duration>) -> Option<u64> {
    match ttl_seconds(ttl) {
        Some(secs) => Some((now + secs) as u64),
        None => None,
    }
}

/// When something stored at `now` expires.
pub fn expires_at(now: u64, ttl: Option<Duration>) -> (res: Option<u64>)
    requires
        expiry_fits(now, ttl),
    ensures
        res == expiry(now, ttl),
{
    match ttl {
        Some(d) => Some(now + d.as_secs()),
        None => None,
    }
}

/// Whether the time at which something stored at `now` expires can be held.
pub fn expiry_can_be_held(now: u64, ttl: Option<Duration>) -> (res: bool)
    ensures
        res == expiry_fits(now, ttl),
{
    match ttl {
        Some(d) => d.as_secs() <= u64::MAX - now,
        None => true,
    }
}

/// The record of a response stored at `now`.
pub open spec fn new_record(
    tenant_id: Seq<char>,
    session_id: Seq<char>,
    response_id: Seq<char>,
    response: Json,
    ttl: Option<Duration>,
    now: u64,
) -> Record {
    Record {
        response_id,
        tenant_id,
        session_id,
        response,
        created_at: now,
        expires_at: expiry(now, ttl),
    }
}

/// The contents without a tenant's response, in whatever session.
pub open spec fn without_response(
    contents: Contents,
    tenant_id: Seq<char>,
    response_id: Seq<char>,
) -> Contents {
    Map::new(
        |key: Key| contents.contains_key(key) && !(key.0 == tenant_id && key.2 == response_id),
        |key: Key| contents[key],
    )
}

/// The contents after a record is stored: it takes the place of whatever the
/// tenant had under its identifier, in whatever session.
pub open spec fn with_record(contents: Contents, record: Record) -> Contents {
    without_response(contents, record.tenant_id, record.response_id).insert(record.key(), record)
}

/// The contents after a record is put beside the copies of other sessions.
pub open spec fn with_copy(contents: Contents, record: Record) -> Contents {
    contents.insert(record.key(), record)
}

/// Whether a copy of a response was put in a session, whatever the time.
pub open spec fn copied_at_some_time(
    before: Contents,
    tenant_id: Seq<char>,
    session_id: Seq<char>,
    response_id: Seq<char>,
    response: Json,
    after: Contents,
) -> bool {
    exists|now: u64|
        after == with_copy(
            before,
            #[trigger] new_record(tenant_id, session_id, response_id, response, None, now),
        )
}

/// Whether a response was stored, whatever the time.
pub open spec fn stored_at_some_time(
    before: Contents,
    tenant_id: Seq<char>,
    session_id: Seq<char>,
    response_id: Seq<char>,
    response: Json,
    ttl: Option<Duration>,
    after: Contents,
) -> bool {
    exists|now: u64|
        expiry_fits(now, ttl) && after == with_record(
            before,
            #[trigger] new_record(tenant_id, session_id, response_id, response, ttl, now),
        )
}

/// Whether each record stands under its own key.
pub open spec fn keyed(contents: Contents) -> bool {
    forall|key: Key| #[trigger] contents.contains_key(key) ==> contents[key].key() == key
}

/// Whether a key holds a copy of a tenant's response, not past its time.
pub open spec fn copy_under(
    contents: Contents,
    tenant_id: Seq<char>,
    response_id: Seq<char>,
    now: u64,
    key: Key,
) -> bool {
    contents.contains_key(key) && live_copy(contents[key], tenant_id, response_id, now)
}

/// Whether a key holds the copy that is shown to a session: a live one to which
/// no other is preferred.
pub open spec fn shown_under(
    contents: Contents,
    tenant_id: Seq<char>,
    session_id: Seq<char>,
    response_id: Seq<char>,
    now: u64,
    key: Key,
) -> bool {
    &&& copy_under(contents, tenant_id, response_id, now, key)
    &&& forall|other: Key| #[trigger]
        copy_under(contents, tenant_id, response_id, now, other) ==> !preferred(
            contents[other],
            contents[key],
            session_id,
        )
}

/// The record that a session finds at `now`: its own copy, else that of another
/// session of the tenant.
pub open spec fn lookup(
    contents: Contents,
    tenant_id: Seq<char>,
    session_id: Seq<char>,
    response_id: Seq<char>,
    now: u64,
) -> Option<Record> {
    if exists|key: Key| #[trigger]
        shown_under(contents, tenant_id, session_id, response_id, now, key) {
        Some(
            contents[choose|key: Key| #[trigger]
                shown_under(contents, tenant_id, session_id, response_id, now, key)],
        )
    } else {
        None
    }
}

/// What is shown to a session is what it finds.
pub proof fn shown_is_found(
    contents: Contents,
    tenant_id: Seq<char>,
    session_id: Seq<char>,
    response_id: Seq<char>,
    now: u64,
    key: Key,
)
    requires
        keyed(contents),
        shown_under(contents, tenant_id, session_id, response_id, now, key),
    ensures
        lookup(contents, tenant_id, session_id, response_id, now) == Some(contents[key]),
{
    let other = choose|key: Key| #[trigger]
        shown_under(contents, tenant_id, session_id, response_id, now, key);
    assert(shown_under(contents, tenant_id, session_id, response_id, now, other));
    assert(copy_under(contents, tenant_id, response_id, now, key));
    assert(copy_under(contents, tenant_id, response_id, now, other));
    assert(contents[key].key() == key);
    assert(contents[other].key() == other);
    if key != other {
        records::preferred_decides(contents[key], contents[other], session_id);
    }
}

/// Whether a tenant has a response, in whatever session and whatever the time.
pub open spec fn has_response(
    contents: Contents,
    tenant_id: Seq<char>,
    response_id: Seq<char>,
) -> bool {
    exists|session_id: Seq<char>| #[trigger]
        contents.contains_key((tenant_id, session_id, response_id))
}

/// Whether a list holds only what belongs to a tenant's session.
pub open spec fn of_session(
    list: Seq<Record>,
    contents: Contents,
    tenant_id: Seq<char>,
    session_id: Seq<char>,
) -> bool {
    forall|i: int|
        0 <= i < list.len() ==> {
            let r = #[trigger] list[i];
            &&& r.tenant_id == tenant_id
            &&& r.session_id == session_id
            &&& contents.contains_key(r.key())
            &&& contents[r.key()] == r
        }
}

/// Whether no record was stored before one that stands in front of it.
pub open spec fn by_time(list: Seq<Record>) -> bool {
    forall|i: int, j: int|
        0 <= i < j < list.len() ==> (#[trigger] list[i]).created_at <= (
        #[trigger] list[j]).created_at
}

/// Whether a list shows a tenant's session by time, each record once.
pub open spec fn session_list(
    all: Seq<Record>,
    contents: Contents,
    tenant_id: Seq<char>,
    session_id: Seq<char>,
) -> bool {
    &&& of_session(all, contents, tenant_id, session_id)
    &&& by_time(all)
    &&& all.no_duplicates()
}

/// Whether a list is a page of one that shows a tenant's session: at most
/// `limit` records, after the one whose identifier is `after`.
pub open spec fn session_page(
    list: Seq<Record>,
    contents: Contents,
    tenant_id: Seq<char>,
    session_id: Seq<char>,
    limit: Option<usize>,
    after: Option<Seq<char>>,
) -> bool {
    exists|all: Seq<Record>|
        session_list(all, contents, tenant_id, session_id) && list == #[trigger] page(
            all,
            limit,
            after,
        )
}

/// The responses of a list that a fork copies: those up to and with the given
/// one, or all where none is given or none has that identifier.
pub open spec fn fork_selection(all: Seq<Record>, up_to: Option<Seq<char>>) -> Seq<Record> {
    match up_to {
        Some(id) => match position(all, id) {
            Some(p) => all.take(p + 1),
            None => all,
        },
        None => all,
    }
}

/// The contents once responses have been stored again, one after the other, in
/// a session, without a time to live.
pub open spec fn copied(
    contents: Contents,
    selection: Seq<Record>,
    tenant_id: Seq<char>,
    session_id: Seq<char>,
    times: Seq<u64>,
) -> Contents
    decreases selection.len(),
{
    if selection.len() == 0 {
        contents
    } else {
        let before = copied(
            contents,
            selection.drop_last(),
            tenant_id,
            session_id,
            times.drop_last(),
        );
        with_copy(
            before,
            new_record(
                tenant_id,
                session_id,
                selection.last().response_id,
                selection.last().response,
                None,
                times.last(),
            ),
        )
    }
}

/// Whether a selection has been stored again, whatever the times.
pub open spec fn all_copied(
    before: Contents,
    selection: Seq<Record>,
    tenant_id: Seq<char>,
    session_id: Seq<char>,
    after: Contents,
) -> bool {
    exists|times: Seq<u64>|
        times.len() == selection.len() && after == #[trigger] copied(
            before,
            selection,
            tenant_id,
            session_id,
            times,
        )
}

/// Whether the first `n` of a selection, and not all, have been stored again,
/// whatever the times.
pub open spec fn first_copied(
    before: Contents,
    selection: Seq<Record>,
    tenant_id: Seq<char>,
    session_id: Seq<char>,
    n: int,
    after: Contents,
) -> bool {
    0 <= n < selection.len() && all_copied(
        before,
        selection.take(n),
        tenant_id,
        session_id,
        after,
    )
}

/// Whether the first of a selection, and not all, have been stored again.
pub open spec fn copy_stopped(
    before: Contents,
    selection: Seq<Record>,
    tenant_id: Seq<char>,
    session_id: Seq<char>,
    after: Contents,
) -> bool {
    exists|n: int| #[trigger]
        first_copied(before, selection, tenant_id, session_id, n, after)
}

/// Whether the first of a selection, and not all, have been stored again, and
/// one more was tried, of which only other tenants' records are known not to
/// have changed.
pub open spec fn copy_failed(
    before: Contents,
    selection: Seq<Record>,
    tenant_id: Seq<char>,
    session_id: Seq<char>,
    after: Contents,
) -> bool {
    exists|middle: Contents|
        #[trigger] copy_stopped(before, selection, tenant_id, session_id, middle)
            && same_for_others(middle, after, tenant_id)
}

/// Whether a response is the first of a selection that has not been stored again,
/// under its identifier.
pub open spec fn next_copy(
    before: Contents,
    selection: Seq<Record>,
    tenant_id: Seq<char>,
    session_id: Seq<char>,
    reached: Contents,
    response_id: Seq<char>,
    response: Json,
) -> bool {
    exists|n: int|
        #[trigger] first_copied(before, selection, tenant_id, session_id, n, reached)
            && response_id == selection[n].response_id && response == selection[n].response
}

/// Whether `n` responses of a list, those up to and with the given one, have
/// been stored again in a session.
pub open spec fn fork_of(
    before: Contents,
    all: Seq<Record>,
    tenant_id: Seq<char>,
    session_id: Seq<char>,
    up_to: Option<Seq<char>>,
    n: int,
    after: Contents,
) -> bool {
    let selection = fork_selection(all, up_to);
    n == selection.len() && all_copied(
        before,
        selection,
        tenant_id,
        session_id,
        after,
    )
}

/// Whether `n` responses of one session have been stored again in another.
pub open spec fn some_fork(
    before: Contents,
    tenant_id: Seq<char>,
    source_session_id: Seq<char>,
    target_session_id: Seq<char>,
    up_to: Option<Seq<char>>,
    n: int,
    after: Contents,
) -> bool {
    exists|all: Seq<Record>|
        #[trigger] session_list(all, before, tenant_id, source_session_id) && fork_of(
            before,
            all,
            tenant_id,
            target_session_id,
            up_to,
            n,
            after,
        )
}

/// Whether `a` and `b` hold the same for every tenant but one.
pub open spec fn same_for_others(a: Contents, b: Contents, tenant_id: Seq<char>) -> bool {
    forall|key: Key| #![trigger a.contains_key(key)] #![trigger b.contains_key(key)]
        key.0 != tenant_id ==> a.contains_key(key) == b.contains_key(key) && (a.contains_key(key)
            ==> a[key] == b[key])
}

/// A storage for responses.
///
/// Tenants are kept apart: `get_response` and `delete_response` answer
/// `NotFound`, not `TenantMismatch`, for what belongs to another tenant, and
/// nothing that is done for one tenant changes what another one sees. The
/// session is metadata: within a tenant it does not bar access. A session finds
/// its own copy of a response, and where it has none that of another session.
///
/// A storage provides `store_response`, `get_response`, `delete_response` and,
/// for forks, `store_copy`. The others have defaults; without a list of its own
/// a storage has nothing to fork.
pub trait ResponseStorage: Sized {
    /// What the storage holds.
    spec fn contents(&self) -> Contents;

    /// What must hold of the storage for its operations to work.
    spec fn well_formed(&self) -> bool;

    /// Stores a response in a session and returns its identifier: the given
    /// one, or a fresh one where none is given. It takes the place of whatever
    /// the tenant had under that identifier, in whatever session.
    fn store_response(
        &mut self,
        tenant_id: &str,
        session_id: &str,
        response_id: Option<&str>,
        response: JsonValue,
        ttl: Option<Duration>,
    ) -> (res: Result<String, StorageError>)
        requires
            old(self).well_formed(),
        ensures
            final(self).well_formed(),
            same_for_others(old(self).contents(), final(self).contents(), tenant_id@),
            match res {
                Ok(id) => {
                    &&& response_id matches Some(given) ==> id@ == given@
                    &&& stored_at_some_time(
                        old(self).contents(),
                        tenant_id@,
                        session_id@,
                        id@,
                        response@,
                        ttl,
                        final(self).contents(),
                    )
                },
                Err(e) => e is BackendError || e is SerializationError,
            },
    ;

    /// The response of a tenant with the given identifier.
    fn get_response(&self, tenant_id: &str, session_id: &str, response_id: &str) -> (res: Result<
        StoredResponse,
        StorageError,
    >)
        requires
            self.well_formed(),
        ensures
            match res {
                Ok(found) => exists|now: u64|
                    #[trigger] lookup(
                        self.contents(),
                        tenant_id@,
                        session_id@,
                        response_id@,
                        now,
                    ) == Some(found@),
                Err(e) => !(e is TenantMismatch),
            },
    ;

    /// Deletes the response of a tenant with the given identifier, in whatever
    /// sessions it has copies.
    fn delete_response(&mut self, tenant_id: &str, session_id: &str, response_id: &str) -> (res:
        Result<(), StorageError>)
        requires
            old(self).well_formed(),
        ensures
            final(self).well_formed(),
            same_for_others(old(self).contents(), final(self).contents(), tenant_id@),
            match res {
                Ok(_) => {
                    &&& has_response(old(self).contents(), tenant_id@, response_id@)
                    &&& final(self).contents() == without_response(
                        old(self).contents(),
                        tenant_id@,
                        response_id@,
                    )
                },
                Err(e) => !(e is TenantMismatch),
            },
    ;

    /// The responses of a session by time, at most `limit` of them, after the
    /// one whose identifier is `after`.
    fn list_responses(
        &self,
        tenant_id: &str,
        session_id: &str,
        limit: Option<usize>,
        after: Option<&str>,
    ) -> (res: Result<Vec<StoredResponse>, StorageError>)
        requires
            self.well_formed(),
        ensures
            match res {
                Ok(list) => session_page(
                    records::records(list@),
                    self.contents(),
                    tenant_id@,
                    session_id@,
                    limit,
                    opt_chars(after),
                ),
                Err(e) => !(e is TenantMismatch),
            },
        default_ensures
            res matches Ok(list) && list@.len() == 0,
    {
        let list: Vec<StoredResponse> = Vec::new();
        proof {
            let none: Seq<Record> = Seq::empty();
            assert(records::records(list@) =~= page(none, limit, opt_chars(after)));
            assert(session_list(none, self.contents(), tenant_id@, session_id@));
        }
        Ok(list)
    }

    /// Puts a copy of a response in a session, under its identifier and without a
    /// time to live, beside the copies of other sessions.
    fn store_copy(
        &mut self,
        tenant_id: &str,
        session_id: &str,
        response_id: &str,
        response: JsonValue,
    ) -> (res: Result<(), StorageError>)
        requires
            old(self).well_formed(),
        ensures
            final(self).well_formed(),
            same_for_others(old(self).contents(), final(self).contents(), tenant_id@),
            match res {
                Ok(_) => copied_at_some_time(
                    old(self).contents(),
                    tenant_id@,
                    session_id@,
                    response_id@,
                    response@,
                    final(self).contents(),
                ),
                Err(e) => e is BackendError || e is SerializationError,
            },
    ;

    /// Stores responses again, one after the other, in a session, each under
    /// its identifier and without a time to live, and returns how many. The
    /// first that cannot be stored ends it. Each is put beside the copies of other
    /// sessions.
    fn store_copies(
        &mut self,
        tenant_id: &str,
        session_id: &str,
        selection: &Vec<StoredResponse>,
    ) -> (res: Result<usize, StorageError>)
        requires
            old(self).well_formed(),
        ensures
            final(self).well_formed(),
            same_for_others(old(self).contents(), final(self).contents(), tenant_id@),
            match res {
                Ok(n) => n == selection@.len() && all_copied(
                    old(self).contents(),
                    records::records(selection@),
                    tenant_id@,
                    session_id@,
                    final(self).contents(),
                ),
                Err(e) => (e is BackendError || e is SerializationError) && copy_failed(
                    old(self).contents(),
                    records::records(selection@),
                    tenant_id@,
                    session_id@,
                    final(self).contents(),
                ),
            },
        default_ensures
            res matches Err(e) ==> exists|store: &mut Self, response_id: &str, response: JsonValue|
                {
                    &&& #[trigger] call_ensures(
                        Self::store_copy,
                        (store, tenant_id, session_id, response_id, response),
                        Err::<(), StorageError>(e),
                    )
                    &&& next_copy(
                        old(self).contents(),
                        records::records(selection@),
                        tenant_id@,
                        session_id@,
                        store.contents(),
                        response_id@,
                        response@,
                    )
                    &&& final(store).contents() == final(self).contents()
                },
    {
        let ghost before = self.contents();
        let ghost selected = records::records(selection@);
        let ghost mut times: Seq<u64> = Seq::empty();
        let mut i: usize = 0;
        while i < selection.len()
            invariant
                i <= selection.len(),
                before == old(self).contents(),
                selected == records::records(selection@),
                self.well_formed(),
                times.len() == i,
                same_for_others(before, self.contents(), tenant_id@),
                self.contents() == copied(
                    before,
                    selected.take(i as int),
                    tenant_id@,
                    session_id@,
                    times,
                ),
            decreases selection.len() - i,
        {
            let ghost prior = self.contents();
            let item = &selection[i];
            match self.store_copy(
                tenant_id,
                session_id,
                item.response_id.as_str(),
                item.response.duplicate(),
            ) {
                Ok(_) => {
                    proof {
                        let now = choose|now: u64|
                            self.contents() == with_copy(
                                prior,
                                #[trigger] new_record(
                                    tenant_id@,
                                    session_id@,
                                    item@.response_id,
                                    item@.response,
                                    None,
                                    now,
                                ),
                            );
                        assert(selected.take(i + 1).drop_last() =~= selected.take(i as int));
                        assert(times.push(now).drop_last() =~= times);
                        times = times.push(now);
                    }
                },
                Err(e) => {
                    proof {
                        assert(first_copied(
                            before,
                            selected,
                            tenant_id@,
                            session_id@,
                            i as int,
                            prior,
                        ));
                        assert(copy_stopped(
                            before,
                            selected,
                            tenant_id@,
                            session_id@,
                            prior,
                        ));
                    }
                    return Err(e);
                },
            }
            i = i + 1;
        }
        assert(selected.take(i as int) =~= selected);
        Ok(i)
    }

    /// Forks a session: stores the responses of one session, up to and with
    /// the given one, in another, and returns how many.
    fn fork_session(
        &mut self,
        tenant_id: &str,
        source_session_id: &str,
        target_session_id: &str,
        up_to_response_id: Option<&str>,
    ) -> (res: Result<usize, StorageError>)
        requires
            old(self).well_formed(),
        ensures
            final(self).well_formed(),
            same_for_others(old(self).contents(), final(self).contents(), tenant_id@),
            match res {
                Ok(n) => some_fork(
                    old(self).contents(),
                    tenant_id@,
                    source_session_id@,
                    target_session_id@,
                    opt_chars(up_to_response_id),
                    n as int,
                    final(self).contents(),
                ),
                Err(e) => !(e is TenantMismatch),
            },
        default_ensures
            exists|listed: Result<Vec<StoredResponse>, StorageError>|
                {
                    &&& #[trigger] call_ensures(
                        Self::list_responses,
                        (&*old(self), tenant_id, source_session_id, None::<usize>, None::<&str>),
                        listed,
                    )
                    &&& match (listed, res) {
                        (Ok(list), Ok(n)) => fork_of(
                            old(self).contents(),
                            records::records(list@),
                            tenant_id@,
                            target_session_id@,
                            opt_chars(up_to_response_id),
                            n as int,
                            final(self).contents(),
                        ),
                        (Ok(list), Err(e)) => (e is BackendError || e is SerializationError)
                            && copy_failed(
                            old(self).contents(),
                            fork_selection(
                                records::records(list@),
                                opt_chars(up_to_response_id),
                            ),
                            tenant_id@,
                            target_session_id@,
                            final(self).contents(),
                        ),
                        (Err(why), Ok(n)) => false,
                        (Err(why), Err(e)) => e == why && final(self).contents() == old(
                            self,
                        ).contents(),
                    }
                    &&& listed matches Ok(list) ==> exists|
                        store: &mut Self,
                        selection: &Vec<StoredResponse>,
                    |
                        {
                            &&& #[trigger] call_ensures(
                                Self::store_copies,
                                (store, tenant_id, target_session_id, selection),
                                res,
                            )
                            &&& records::records(selection@) == fork_selection(
                                records::records(list@),
                                opt_chars(up_to_response_id),
                            )
                            &&& store.contents() == old(self).contents()
                            &&& final(store).contents() == final(self).contents()
                        }
                },
    {
        let listed = self.list_responses(tenant_id, source_session_id, None, None);
        let ghost answer = listed;
        assert(call_ensures(
            Self::list_responses,
            (&*self, tenant_id, source_session_id, None::<usize>, None::<&str>),
            answer,
        ));
        match listed {
            Ok(list) => {
                let ghost all = records::records(list@);
                assert(session_list(all, self.contents(), tenant_id@, source_session_id@));
                let selection = select_for_fork(list, up_to_response_id);
                self.store_copies(tenant_id, target_session_id, &selection)
            },
            Err(e) => Err(e),
        }
    }
}

/// What a fork does next.
#[derive(Debug, PartialEq, Eq)]
pub enum ForkStep {
    /// Store the response at this place of the selection.
    Store(usize),
    /// All so many responses are stored.
    Done(usize),
    /// A response could not be stored.
    Failed(StorageError),
}

/// What a fork does once the first `stored` responses of its selection have been
/// stored and, where there is an error, the next one could not be.
pub fn fork_step(
    selection: &Vec<StoredResponse>,
    stored: usize,
    failed: Option<StorageError>,
) -> (res: ForkStep)
    ensures
        res == (match failed {
            Some(e) => ForkStep::Failed(e),
            None => if stored < selection@.len() {
                ForkStep::Store(stored)
            } else {
                ForkStep::Done(selection@.len() as usize)
            },
        }),
{
    match failed {
        Some(e) => ForkStep::Failed(e),
        None => if stored < selection.len() {
            ForkStep::Store(stored)
        } else {
            ForkStep::Done(selection.len())
        },
    }
}

/// The responses of a list that a fork copies.
pub fn select_for_fork(list: Vec<StoredResponse>, up_to: Option<&str>) -> (res: Vec<StoredResponse>)
    ensures
        records::records(res@) == fork_selection(records::records(list@), opt_chars(up_to)),
{
    let ghost all = records::records(list@);
    let mut v: Vec<StoredResponse> = list;
    match up_to {
        Some(id) => match find_response(&v, id) {
            Some(p) => {
                proof {
                    records::position_is_first(all, id@);
                }
                assert(p < v.len());
                v.truncate(p + 1);
                assert(records::records(v@) =~= all.take(p + 1));
            },
            None => {},
        },
        None => {},
    }
    v
}

/// Storing for one tenant changes nothing for another.
pub proof fn store_is_isolated(contents: Contents, record: Record)
    ensures
        same_for_others(contents, with_record(contents, record), record.tenant_id),
{
}

/// What is the same for every tenant but one is found alike by each of those.
pub proof fn isolated_lookup(
    a: Contents,
    b: Contents,
    tenant_id: Seq<char>,
    other: Seq<char>,
    session_id: Seq<char>,
    response_id: Seq<char>,
    now: u64,
)
    requires
        same_for_others(a, b, tenant_id),
        other != tenant_id,
        keyed(a),
        keyed(b),
    ensures
        lookup(a, other, session_id, response_id, now) == lookup(
            b,
            other,
            session_id,
            response_id,
            now,
        ),
{
    assert forall|key: Key| #[trigger]
        copy_under(a, other, response_id, now, key) == copy_under(
            b,
            other,
            response_id,
            now,
            key,
        ) by {
        assert(a.contains_key(key) ==> a[key].key() == key);
        assert(b.contains_key(key) ==> b[key].key() == key);
    }
    if exists|key: Key| #[trigger] shown_under(a, other, session_id, response_id, now, key) {
        let key = choose|key: Key| #[trigger]
            shown_under(a, other, session_id, response_id, now, key);
        assert(copy_under(a, other, response_id, now, key));
        assert forall|k: Key| #[trigger] copy_under(b, other, response_id, now, k) implies !preferred(
            b[k],
            b[key],
            session_id,
        ) by {
            assert(copy_under(a, other, response_id, now, k));
        }
        assert(shown_under(b, other, session_id, response_id, now, key));
        shown_is_found(a, other, session_id, response_id, now, key);
        shown_is_found(b, other, session_id, response_id, now, key);
    } else if exists|key: Key| #[trigger]
        shown_under(b, other, session_id, response_id, now, key) {
        let key = choose|key: Key| #[trigger]
            shown_under(b, other, session_id, response_id, now, key);
        assert(copy_under(b, other, response_id, now, key));
        assert(copy_under(a, other, response_id, now, key));
        assert forall|k: Key| #[trigger] copy_under(a, other, response_id, now, k) implies !preferred(
            a[k],
            a[key],
            session_id,
        ) by {
            assert(copy_under(b, other, response_id, now, k));
        }
        assert(shown_under(a, other, session_id, response_id, now, key));
    }
}

/// A response that was stored is found by every session of the tenant, with the
/// session it was stored in, until it expires; then by none.
pub proof fn stored_is_found(
    contents: Contents,
    tenant_id: Seq<char>,
    session_id: Seq<char>,
    response_id: Seq<char>,
    response: Json,
    ttl: Option<Duration>,
    stored: u64,
    reader: Seq<char>,
    now: u64,
)
    requires
        keyed(contents),
        expiry_fits(stored, ttl),
    ensures
        ({
            let record = new_record(tenant_id, session_id, response_id, response, ttl, stored);
            lookup(with_record(contents, record), tenant_id, reader, response_id, now) == (
            match ttl_seconds(ttl) {
                Some(secs) => if now <= stored + secs {
                    Some(record)
                } else {
                    None
                },
                None => Some(record),
            })
        }),
{
    let record = new_record(tenant_id, session_id, response_id, response, ttl, stored);
    let after = with_record(contents, record);
    stored_stays_keyed(contents, record);
    found_across_sessions(after, tenant_id, session_id, response_id, reader, now);
}

/// Storing keeps each record under its own key.
pub proof fn stored_stays_keyed(contents: Contents, record: Record)
    requires
        keyed(contents),
    ensures
        keyed(with_record(contents, record)),
{
    let after = with_record(contents, record);
    assert forall|key: Key| #[trigger] after.contains_key(key) implies after[key].key() == key by {
        assert(key == record.key() || contents.contains_key(key));
    }
}

/// A store leaves one entry for its tenant and identifier, and every entry of
/// another tenant or another identifier as it was.
pub proof fn store_replaces(contents: Contents, record: Record, key: Key)
    ensures
        ({
            let after = with_record(contents, record);
            if key.0 == record.tenant_id && key.2 == record.response_id {
                &&& after.contains_key(key) <==> key == record.key()
                &&& after.contains_key(key) ==> after[key] == record
            } else {
                &&& after.contains_key(key) == contents.contains_key(key)
                &&& contents.contains_key(key) ==> after[key] == contents[key]
            }
        }),
{
}

/// A response that stands in one session alone is found by every session of the
/// tenant, with the session it stands in, until it expires; then by none.
pub proof fn found_across_sessions(
    contents: Contents,
    tenant_id: Seq<char>,
    session_id: Seq<char>,
    response_id: Seq<char>,
    reader: Seq<char>,
    now: u64,
)
    requires
        keyed(contents),
        contents.contains_key((tenant_id, session_id, response_id)),
        forall|other: Seq<char>|
            other != session_id ==> !(#[trigger] contents.contains_key(
                (tenant_id, other, response_id),
            )),
    ensures
        ({
            let record = contents[(tenant_id, session_id, response_id)];
            lookup(contents, tenant_id, reader, response_id, now) == (if record.expired(now) {
                None
            } else {
                Some(record)
            })
        }),
{
    let key = (tenant_id, session_id, response_id);
    assert forall|k: Key| #[trigger] copy_under(contents, tenant_id, response_id, now, k) implies k
        == key by {
        assert(contents[k].key() == k);
        assert(contents.contains_key((tenant_id, k.1, response_id)));
    }
    assert(contents[key].key() == key);
    crate::text::lex_less_irreflexive(session_id);
    if !contents[key].expired(now) {
        assert(copy_under(contents, tenant_id, response_id, now, key));
        assert(shown_under(contents, tenant_id, reader, response_id, now, key));
        shown_is_found(contents, tenant_id, reader, response_id, now, key);
    }
}

/// No tenant finds a record of another one.
pub proof fn lookup_keeps_tenants_apart(
    contents: Contents,
    tenant_id: Seq<char>,
    session_id: Seq<char>,
    response_id: Seq<char>,
    now: u64,
)
    ensures
        lookup(contents, tenant_id, session_id, response_id, now) matches Some(r) ==> r.tenant_id
            == tenant_id && r.response_id == response_id && !r.expired(now),
{
}

/// A response that was deleted is found by no session.
pub proof fn deleted_is_not_found(
    contents: Contents,
    tenant_id: Seq<char>,
    session_id: Seq<char>,
    response_id: Seq<char>,
    now: u64,
)
    requires
        keyed(contents),
    ensures
        lookup(
            without_response(contents, tenant_id, response_id),
            tenant_id,
            session_id,
            response_id,
            now,
        ) is None,
{
    let after = without_response(contents, tenant_id, response_id);
    assert forall|key: Key| !#[trigger] shown_under(
        after,
        tenant_id,
        session_id,
        response_id,
        now,
        key,
    ) by {
        if copy_under(after, tenant_id, response_id, now, key) {
            assert(contents.contains_key(key));
            assert(contents[key].key() == key);
        }
    }
}

/// Whether a selection holds a response.
pub open spec fn selects(selection: Seq<Record>, response_id: Seq<char>) -> bool {
    exists|i: int| 0 <= i < selection.len() && (#[trigger] selection[i]).response_id == response_id
}

/// After a fork that copies, the target session has a copy of every response of
/// the selection, with the same identifier and content, that does not expire; every
/// other record, those of the source session among them, is as it was.
pub proof fn fork_fills_target(
    contents: Contents,
    selection: Seq<Record>,
    tenant_id: Seq<char>,
    session_id: Seq<char>,
    times: Seq<u64>,
)
    requires
        times.len() == selection.len(),
        forall|i: int, j: int|
            0 <= i < j < selection.len() ==> (#[trigger] selection[i]).response_id != (
            #[trigger] selection[j]).response_id,
    ensures
        ({
            let after = copied(
                contents,
                selection,
                tenant_id,
                session_id,
                times,
            );
            &&& forall|i: int|
                0 <= i < selection.len() ==> {
                    let key = (tenant_id, session_id, (#[trigger] selection[i]).response_id);
                    &&& after.contains_key(key)
                    &&& after[key] == new_record(
                        tenant_id,
                        session_id,
                        selection[i].response_id,
                        selection[i].response,
                        None,
                        times[i],
                    )
                }
            &&& forall|key: Key|
                !(key.0 == tenant_id && key.1 == session_id && selects(selection, key.2)) ==> (
                #[trigger] after.contains_key(key)) == contents.contains_key(key) && (
                contents.contains_key(key) ==> after[key] == contents[key])
        }),
    decreases selection.len(),
{
    if selection.len() > 0 {
        let rest = selection.drop_last();
        fork_fills_target(contents, rest, tenant_id, session_id, times.drop_last());
        let before = copied(
            contents,
            rest,
            tenant_id,
            session_id,
            times.drop_last(),
        );
        let after = copied(
                contents,
                selection,
                tenant_id,
                session_id,
                times,
            );
        let n = selection.len() - 1;
        assert forall|i: int| 0 <= i < selection.len() implies ({
            let key = (tenant_id, session_id, (#[trigger] selection[i]).response_id);
            &&& after.contains_key(key)
            &&& after[key] == new_record(
                tenant_id,
                session_id,
                selection[i].response_id,
                selection[i].response,
                None,
                times[i],
            )
        }) by {
            if i < n {
                assert(rest[i] == selection[i]);
                assert(selection[i].response_id != selection[n].response_id);
            }
        }
        assert forall|key: Key|
            !(key.0 == tenant_id && key.1 == session_id && selects(selection, key.2)) implies (
        #[trigger] after.contains_key(key)) == contents.contains_key(key) && (contents.contains_key(
            key,
        ) ==> after[key] == contents[key]) by {
            if key.0 == tenant_id && key.1 == session_id {
                assert(selection[n].response_id != key.2);
                if selects(rest, key.2) {
                    let i = choose|i: int|
                        0 <= i < rest.len() && (#[trigger] rest[i]).response_id == key.2;
                    assert(selection[i].response_id == key.2);
                }
            }
            assert(before.contains_key(key) == contents.contains_key(key));
        }
    }
}

/// Putting copies in a session changes no other session, and no other tenant.
pub proof fn copies_stay_in_session(
    contents: Contents,
    selection: Seq<Record>,
    tenant_id: Seq<char>,
    session_id: Seq<char>,
    times: Seq<u64>,
)
    requires
        times.len() == selection.len(),
    ensures
        ({
            let after = copied(
                contents,
                selection,
                tenant_id,
                session_id,
                times,
            );
            &&& forall|key: Key|
                !(key.0 == tenant_id && key.1 == session_id) ==> (#[trigger] after.contains_key(
                    key,
                )) == contents.contains_key(key) && (contents.contains_key(key) ==> after[key]
                    == contents[key])
            &&& keyed(contents) ==> keyed(after)
        }),
    decreases selection.len(),
{
    if selection.len() > 0 {
        copies_stay_in_session(
            contents,
            selection.drop_last(),
            tenant_id,
            session_id,
            times.drop_last(),
        );
        let before = copied(
            contents,
            selection.drop_last(),
            tenant_id,
            session_id,
            times.drop_last(),
        );
        let after = copied(
                contents,
                selection,
                tenant_id,
                session_id,
                times,
            );
        assert forall|key: Key| !(key.0 == tenant_id && key.1 == session_id) implies (
        #[trigger] after.contains_key(key)) == contents.contains_key(key) && (contents.contains_key(
            key,
        ) ==> after[key] == contents[key]) by {
            assert(before.contains_key(key) == contents.contains_key(key));
        }
        if keyed(contents) {
            assert forall|key: Key| #[trigger] after.contains_key(key) implies after[key].key()
                == key by {
                assert(before.contains_key(key) ==> before[key].key() == key);
            }
        }
    }
}

} // verus!
