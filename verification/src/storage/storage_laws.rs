//! What holds of a storage in memory over several calls, one after the other.

use crate::json::JsonValue;
use crate::storage::list_laws::{comes_before, ids_differ, is_part, same_stored};
use crate::storage::manager;
use crate::storage::manager::InMemoryResponseStorage;
use crate::storage::records;
use crate::storage::records::{Key, StoredResponse};
use crate::storage::response_storage;
use crate::storage::response_storage::{
    expires_at, expiry_can_be_held, keyed, lookup, Contents, ResponseStorage, StorageError,
};
use crate::time::Duration;
use vstd::prelude::*;

verus! {

/// The whole seconds of a span.
pub open spec fn seconds_in(span: Duration) -> nat {
    span@ / 1_000_000_000
}

/// What is stored expires so many whole seconds later as its time to live has, and
/// not at all without one.
pub proof fn expires_after_ttl(now: u64, ttl: Option<Duration>, res: Option<u64>)
    requires
        call_ensures(expires_at, (now, ttl), res),
        ttl matches Some(span) ==> now + seconds_in(span) <= u64::MAX,
    ensures
        ttl is None ==> res is None,
        ttl matches Some(span) ==> (res matches Some(end) && end == now + seconds_in(span)),
{
}

/// The end of what is stored can be held where it is a number of the clock.
pub proof fn end_can_be_held(now: u64, ttl: Option<Duration>, res: bool)
    requires
        call_ensures(expiry_can_be_held, (now, ttl), res),
    ensures
        ttl is None ==> res,
        ttl matches Some(span) ==> res == (now + seconds_in(span) <= u64::MAX),
{
}

/// Whether a stored response is what was stored at a time.
pub open spec fn is_stored(
    found: StoredResponse,
    tenant_id: Seq<char>,
    session_id: Seq<char>,
    response_id: Seq<char>,
    response: JsonValue,
    ttl: Option<Duration>,
    at: u64,
) -> bool {
    &&& found.tenant_id@ == tenant_id
    &&& found.session_id@ == session_id
    &&& found.response_id@ == response_id
    &&& found.response@ == response@
    &&& found.created_at == at
    &&& ttl is None ==> found.expires_at is None
    &&& ttl matches Some(span) ==> (found.expires_at matches Some(end) && end == at + seconds_in(
        span,
    ))
}

/// What was stored is given back to every session of its tenant as it was stored,
/// with the session it was stored in, until its time to live has passed; then it is
/// not found.
pub proof fn store_then_get(
    storage: &mut InMemoryResponseStorage,
    tenant_id: &str,
    session_id: &str,
    response_id: &str,
    response: JsonValue,
    ttl: Option<Duration>,
    at: u64,
    reader: &str,
    now: u64,
    res: Result<StoredResponse, StorageError>,
)
    requires
        old(storage).well_formed(),
        ttl matches Some(span) ==> at + seconds_in(span) <= u64::MAX,
        call_ensures(
            InMemoryResponseStorage::store_response_at,
            (storage, tenant_id, session_id, response_id, response, ttl, at),
            (),
        ),
        call_ensures(
            InMemoryResponseStorage::get_response_at,
            (&*final(storage), tenant_id, reader, response_id, now),
            res,
        ),
    ensures
        (ttl matches Some(span) ==> now <= at + seconds_in(span)) ==> (res matches Ok(found)
            && is_stored(
            found,
            tenant_id@,
            session_id@,
            response_id@,
            response,
            ttl,
            at,
        )),
        (ttl matches Some(span) && now > at + seconds_in(span)) ==> (res matches Err(e)
            && e is NotFound),
{
    manager::contents_keyed(*storage);
    response_storage::stored_is_found(
        storage.contents(),
        tenant_id@,
        session_id@,
        response_id@,
        response@,
        ttl,
        at,
        reader@,
        now,
    );
}

/// Whether two lookups came to the same.
pub open spec fn same_answer(
    a: Result<StoredResponse, StorageError>,
    b: Result<StoredResponse, StorageError>,
) -> bool {
    match (a, b) {
        (Ok(x), Ok(y)) => same_stored(x, y),
        (Err(x), Err(y)) => x is NotFound && y is NotFound,
        _ => false,
    }
}

/// Whether two storages hold the same under a tenant and an identifier.
pub open spec fn alike_under(
    a: Contents,
    b: Contents,
    tenant_id: Seq<char>,
    response_id: Seq<char>,
) -> bool {
    forall|key: Key|
        #![trigger a.contains_key(key)]
        #![trigger b.contains_key(key)]
        key.0 == tenant_id && key.2 == response_id ==> a.contains_key(key) == b.contains_key(key)
            && (a.contains_key(key) ==> a[key] == b[key])
}

proof fn shown_carries(
    a: Contents,
    b: Contents,
    tenant_id: Seq<char>,
    session_id: Seq<char>,
    response_id: Seq<char>,
    now: u64,
    key: Key,
)
    requires
        keyed(a),
        keyed(b),
        alike_under(a, b, tenant_id, response_id),
        response_storage::shown_under(a, tenant_id, session_id, response_id, now, key),
    ensures
        response_storage::shown_under(b, tenant_id, session_id, response_id, now, key),
        a[key] == b[key],
{
    assert(a[key].key() == key);
    assert(a.contains_key(key));
    assert forall|k: Key| #[trigger]
        response_storage::copy_under(b, tenant_id, response_id, now, k) implies !records::preferred(
        b[k],
        b[key],
        session_id,
    ) by {
        assert(b[k].key() == k);
        assert(b.contains_key(k));
        assert(response_storage::copy_under(a, tenant_id, response_id, now, k));
    }
}

proof fn lookup_is_local(
    a: Contents,
    b: Contents,
    tenant_id: Seq<char>,
    session_id: Seq<char>,
    response_id: Seq<char>,
    now: u64,
)
    requires
        keyed(a),
        keyed(b),
        alike_under(a, b, tenant_id, response_id),
    ensures
        lookup(a, tenant_id, session_id, response_id, now) == lookup(
            b,
            tenant_id,
            session_id,
            response_id,
            now,
        ),
{
    if exists|key: Key| #[trigger]
        response_storage::shown_under(a, tenant_id, session_id, response_id, now, key) {
        let key = choose|key: Key| #[trigger]
            response_storage::shown_under(a, tenant_id, session_id, response_id, now, key);
        shown_carries(a, b, tenant_id, session_id, response_id, now, key);
        response_storage::shown_is_found(a, tenant_id, session_id, response_id, now, key);
        response_storage::shown_is_found(b, tenant_id, session_id, response_id, now, key);
    } else if exists|key: Key| #[trigger]
        response_storage::shown_under(b, tenant_id, session_id, response_id, now, key) {
        let key = choose|key: Key| #[trigger]
            response_storage::shown_under(b, tenant_id, session_id, response_id, now, key);
        shown_carries(b, a, tenant_id, session_id, response_id, now, key);
    }
}

/// Storing a response changes nothing of what is found of any other response, of
/// the same tenant or of another one.
pub proof fn store_keeps_others(
    storage: &mut InMemoryResponseStorage,
    tenant_id: &str,
    session_id: &str,
    response_id: &str,
    response: JsonValue,
    ttl: Option<Duration>,
    at: u64,
    other_tenant: &str,
    reader: &str,
    other_id: &str,
    now: u64,
    before: Result<StoredResponse, StorageError>,
    after: Result<StoredResponse, StorageError>,
)
    requires
        old(storage).well_formed(),
        other_tenant@ != tenant_id@ || other_id@ != response_id@,
        call_ensures(
            InMemoryResponseStorage::get_response_at,
            (&*old(storage), other_tenant, reader, other_id, now),
            before,
        ),
        call_ensures(
            InMemoryResponseStorage::store_response_at,
            (storage, tenant_id, session_id, response_id, response, ttl, at),
            (),
        ),
        call_ensures(
            InMemoryResponseStorage::get_response_at,
            (&*final(storage), other_tenant, reader, other_id, now),
            after,
        ),
    ensures
        same_answer(before, after),
{
    manager::contents_keyed(*storage);
    manager::contents_keyed(*final(storage));
    lookup_is_local(
        storage.contents(),
        final(storage).contents(),
        other_tenant@,
        reader@,
        other_id@,
        now,
    );
}

/// What was deleted is found by no session at any time, whatever sessions had it.
pub proof fn delete_then_get(
    storage: &mut InMemoryResponseStorage,
    tenant_id: &str,
    session_id: &str,
    response_id: &str,
    deleted: Result<(), StorageError>,
    reader: &str,
    now: u64,
    res: Result<StoredResponse, StorageError>,
)
    requires
        old(storage).well_formed(),
        call_ensures(
            <InMemoryResponseStorage as ResponseStorage>::delete_response,
            (storage, tenant_id, session_id, response_id),
            deleted,
        ),
        call_ensures(
            InMemoryResponseStorage::get_response_at,
            (&*final(storage), tenant_id, reader, response_id, now),
            res,
        ),
    ensures
        res matches Err(e) && e is NotFound,
{
    manager::contents_keyed(*storage);
    manager::contents_keyed(*final(storage));
    response_storage::deleted_is_not_found(
        storage.contents(),
        tenant_id@,
        reader@,
        response_id@,
        now,
    );
    if deleted is Err {
        let contents = storage.contents();
        assert forall|key: Key| !#[trigger] response_storage::shown_under(
            contents,
            tenant_id@,
            reader@,
            response_id@,
            now,
            key,
        ) by {
            if response_storage::copy_under(contents, tenant_id@, response_id@, now, key) {
                assert(contents[key].key() == key);
                assert(contents.contains_key((tenant_id@, key.1, response_id@)));
            }
        }
    }
}

/// A response that some session finds can be deleted from every session of its
/// tenant; to another tenant it is not there.
pub proof fn found_can_be_deleted(
    storage: &mut InMemoryResponseStorage,
    tenant_id: &str,
    reader: &str,
    response_id: &str,
    now: u64,
    found: StoredResponse,
    session_id: &str,
    deleted: Result<(), StorageError>,
)
    requires
        old(storage).well_formed(),
        call_ensures(
            InMemoryResponseStorage::get_response_at,
            (&*old(storage), tenant_id, reader, response_id, now),
            Ok::<StoredResponse, StorageError>(found),
        ),
        call_ensures(
            <InMemoryResponseStorage as ResponseStorage>::delete_response,
            (storage, tenant_id, session_id, response_id),
            deleted,
        ),
    ensures
        deleted is Ok,
{
    manager::contents_keyed(*storage);
    let contents = storage.contents();
    let key = choose|key: Key| #[trigger]
        response_storage::shown_under(
            contents,
            tenant_id@,
            reader@,
            response_id@,
            now,
            key,
        );
    assert(response_storage::shown_under(
        contents,
        tenant_id@,
        reader@,
        response_id@,
        now,
        key,
    ));
    assert(contents[key].key() == key);
    assert(contents.contains_key((tenant_id@, key.1, response_id@)));
}

/// Deleting a response changes nothing of what is found of any other response, and
/// so nothing for another tenant.
pub proof fn delete_keeps_others(
    storage: &mut InMemoryResponseStorage,
    tenant_id: &str,
    session_id: &str,
    response_id: &str,
    deleted: Result<(), StorageError>,
    other_tenant: &str,
    reader: &str,
    other_id: &str,
    now: u64,
    before: Result<StoredResponse, StorageError>,
    after: Result<StoredResponse, StorageError>,
)
    requires
        old(storage).well_formed(),
        other_tenant@ != tenant_id@ || other_id@ != response_id@,
        call_ensures(
            InMemoryResponseStorage::get_response_at,
            (&*old(storage), other_tenant, reader, other_id, now),
            before,
        ),
        call_ensures(
            <InMemoryResponseStorage as ResponseStorage>::delete_response,
            (storage, tenant_id, session_id, response_id),
            deleted,
        ),
        call_ensures(
            InMemoryResponseStorage::get_response_at,
            (&*final(storage), other_tenant, reader, other_id, now),
            after,
        ),
    ensures
        same_answer(before, after),
        deleted matches Err(e) ==> e is NotFound,
{
    manager::contents_keyed(*storage);
    manager::contents_keyed(*final(storage));
    lookup_is_local(
        storage.contents(),
        final(storage).contents(),
        other_tenant@,
        reader@,
        other_id@,
        now,
    );
}

/// What is found is of the tenant that asks, under the identifier that was asked
/// for, and not past its end; where the session that asks has a live copy of its
/// own, it is that one.
pub proof fn found_is_asked_for(
    storage: &InMemoryResponseStorage,
    tenant_id: &str,
    session_id: &str,
    response_id: &str,
    now: u64,
    res: Result<StoredResponse, StorageError>,
)
    requires
        storage.well_formed(),
        call_ensures(
            InMemoryResponseStorage::get_response_at,
            (storage, tenant_id, session_id, response_id, now),
            res,
        ),
    ensures
        res matches Ok(found) ==> {
            &&& found.tenant_id@ == tenant_id@
            &&& found.response_id@ == response_id@
            &&& found.expires_at matches Some(end) ==> now <= end
            &&& ({
                let own = (tenant_id@, session_id@, response_id@);
                storage.contents().contains_key(own) && (
                storage.contents()[own].expires_at matches Some(end) ==> now <= end)
                    ==> found.session_id@ == session_id@
            })
        },
        res matches Err(e) ==> e is NotFound,
{
    let contents = storage.contents();
    let own = (tenant_id@, session_id@, response_id@);
    manager::contents_keyed(*storage);
    if res is Ok {
        let key = choose|key: Key| #[trigger]
            response_storage::shown_under(
                contents,
                tenant_id@,
                session_id@,
                response_id@,
                now,
                key,
            );
        assert(response_storage::shown_under(
            contents,
            tenant_id@,
            session_id@,
            response_id@,
            now,
            key,
        ));
        if contents.contains_key(own) && !contents[own].expired(now) {
            assert(contents[own].key() == own);
            assert(response_storage::copy_under(contents, tenant_id@, response_id@, now, own));
        }
    }
}

/// Whether a list is a session's in full: all that a storage holds for a tenant in
/// that session and nothing else, one before the other.
pub open spec fn is_full_list(
    contents: Contents,
    tenant_id: Seq<char>,
    session_id: Seq<char>,
    list: Seq<StoredResponse>,
) -> bool {
    &&& forall|i: int|
        0 <= i < list.len() ==> {
            let key = (tenant_id, session_id, (#[trigger] list[i]).response_id@);
            &&& list[i].tenant_id@ == tenant_id
            &&& list[i].session_id@ == session_id
            &&& contents.contains_key(key)
            &&& contents[key].response == list[i].response@
            &&& contents[key].created_at == list[i].created_at
            &&& contents[key].expires_at == list[i].expires_at
        }
    &&& forall|id: Seq<char>| #[trigger]
        contents.contains_key((tenant_id, session_id, id)) ==> lists(list, id)
    &&& forall|i: int, j: int|
        0 <= i < j < list.len() ==> comes_before(#[trigger] list[i], #[trigger] list[j])
    &&& ids_differ(list)
}

/// Whether a list has a response with an identifier.
pub open spec fn lists(list: Seq<StoredResponse>, response_id: Seq<char>) -> bool {
    exists|i: int| 0 <= i < list.len() && (#[trigger] list[i]).response_id@ == response_id
}

/// Without a limit and a cursor, a session's list is all that it has, by time and
/// then by identifier, each identifier once. It never fails.
pub proof fn list_is_full(
    storage: &InMemoryResponseStorage,
    tenant_id: &str,
    session_id: &str,
    res: Result<Vec<StoredResponse>, StorageError>,
)
    requires
        storage.well_formed(),
        call_ensures(
            <InMemoryResponseStorage as ResponseStorage>::list_responses,
            (storage, tenant_id, session_id, None::<usize>, None::<&str>),
            res,
        ),
    ensures
        res matches Ok(list) && is_full_list(
            storage.contents(),
            tenant_id@,
            session_id@,
            list@,
        ),
{
    let contents = storage.contents();
    let all = manager::listing(contents, tenant_id@, session_id@);
    let list = res->Ok_0@;
    let views = records::records(list);
    manager::contents_keyed(*storage);
    manager::listing_ids_distinct(contents, tenant_id@, session_id@, all);
    assert(views =~= all);
    assert forall|i: int| 0 <= i < list.len() implies views[i] == (#[trigger] list[i])@ by {}
    assert forall|i: int| 0 <= i < list.len() implies ({
        let key = (tenant_id@, session_id@, (#[trigger] list[i]).response_id@);
        &&& list[i].tenant_id@ == tenant_id@
        &&& list[i].session_id@ == session_id@
        &&& contents.contains_key(key)
        &&& contents[key].response == list[i].response@
        &&& contents[key].created_at == list[i].created_at
        &&& contents[key].expires_at == list[i].expires_at
    }) by {
        assert(all[i] == list[i]@);
    }
    assert forall|id: Seq<char>| #[trigger]
        contents.contains_key((tenant_id@, session_id@, id)) implies lists(list, id) by {
        let key = (tenant_id@, session_id@, id);
        assert(contents[key].key() == key);
        assert(all.contains(contents[key]));
        let i = choose|i: int| 0 <= i < all.len() && all[i] == contents[key];
        assert(list[i].response_id@ == id);
    }
    assert forall|i: int, j: int| 0 <= i < j < list.len() implies comes_before(
        #[trigger] list[i],
        #[trigger] list[j],
    ) && list[i].response_id@ != list[j].response_id@ by {
        assert(records::earlier(all[i], all[j]));
        assert(all[i].response_id != all[j].response_id);
    }
}

/// A page of a session is a part of its full list: it starts right behind the
/// response that the cursor names, or at the start where none has that name, and
/// ends at the limit or, without one, with the list.
pub proof fn page_of_full_list(
    storage: &InMemoryResponseStorage,
    tenant_id: &str,
    session_id: &str,
    limit: Option<usize>,
    after: Option<&str>,
    full: Vec<StoredResponse>,
    res: Result<Vec<StoredResponse>, StorageError>,
)
    requires
        storage.well_formed(),
        call_ensures(
            <InMemoryResponseStorage as ResponseStorage>::list_responses,
            (storage, tenant_id, session_id, None::<usize>, None::<&str>),
            Ok::<Vec<StoredResponse>, StorageError>(full),
        ),
        call_ensures(
            <InMemoryResponseStorage as ResponseStorage>::list_responses,
            (storage, tenant_id, session_id, limit, after),
            res,
        ),
    ensures
        res matches Ok(page) && {
            &&& forall|p: int|
                0 <= p < full@.len() && after is Some && (#[trigger] full@[p]).response_id@
                    == after->0@ ==> is_part(page@, full@, p + 1, limit)
            &&& (after matches Some(id) ==> !lists(full@, id@)) ==> is_part(
                page@,
                full@,
                0,
                limit,
            )
        },
{
    let contents = storage.contents();
    let all = manager::listing(contents, tenant_id@, session_id@);
    let views = records::records(full@);
    let page = res->Ok_0@;
    manager::listing_ids_distinct(contents, tenant_id@, session_id@, all);
    assert(views =~= all);
    assert forall|i: int| 0 <= i < full@.len() implies all[i] == (#[trigger] full@[i])@ by {}
    if let Some(id) = after {
        records::position_is_first(all, id@);
        match records::position(all, id@) {
            Some(q) => {
                assert(full@[q].response_id@ == id@);
                assert forall|p: int|
                    0 <= p < full@.len() && (#[trigger] full@[p]).response_id@
                        == id@ implies p == q by {
                    if p < q {
                        assert(all[p].response_id != all[q].response_id);
                    }
                    if q < p {
                        assert(all[q].response_id != all[p].response_id);
                    }
                }
                crate::storage::list_laws::page_is_part(full@, page, q + 1, limit);
            },
            None => {
                assert(all.skip(0) =~= all);
                crate::storage::list_laws::page_is_part(full@, page, 0, limit);
            },
        }
    } else {
        assert(all.skip(0) =~= all);
        crate::storage::list_laws::page_is_part(full@, page, 0, limit);
    }
}

/// A response that was stored in a session is in that session's list, and all else
/// that the session listed is still there.
pub proof fn store_then_list(
    storage: &mut InMemoryResponseStorage,
    tenant_id: &str,
    session_id: &str,
    response_id: &str,
    response: JsonValue,
    ttl: Option<Duration>,
    at: u64,
    before: Vec<StoredResponse>,
    after: Vec<StoredResponse>,
)
    requires
        old(storage).well_formed(),
        ttl matches Some(span) ==> at + seconds_in(span) <= u64::MAX,
        call_ensures(
            <InMemoryResponseStorage as ResponseStorage>::list_responses,
            (&*old(storage), tenant_id, session_id, None::<usize>, None::<&str>),
            Ok::<Vec<StoredResponse>, StorageError>(before),
        ),
        call_ensures(
            InMemoryResponseStorage::store_response_at,
            (storage, tenant_id, session_id, response_id, response, ttl, at),
            (),
        ),
        call_ensures(
            <InMemoryResponseStorage as ResponseStorage>::list_responses,
            (&*final(storage), tenant_id, session_id, None::<usize>, None::<&str>),
            Ok::<Vec<StoredResponse>, StorageError>(after),
        ),
    ensures
        exists|i: int|
            0 <= i < after@.len() && is_stored(
                #[trigger] after@[i],
                tenant_id@,
                session_id@,
                response_id@,
                response,
                ttl,
                at,
            ),
        forall|id: Seq<char>|
            #![trigger lists(after@, id)]
            #![trigger lists(before@, id)]
            id != response_id@ ==> lists(after@, id) == lists(before@, id),
{
    list_is_full(storage, tenant_id, session_id, Ok(before));
    list_is_full(final(storage), tenant_id, session_id, Ok(after));
    let a = storage.contents();
    let b = final(storage).contents();
    let key = (tenant_id@, session_id@, response_id@);
    assert(b.contains_key(key));
    assert(lists(after@, response_id@));
    let i = choose|i: int|
        0 <= i < after@.len() && (#[trigger] after@[i]).response_id@ == response_id@;
    assert(b[key].response == after@[i].response@);
    assert(is_stored(
        after@[i],
        tenant_id@,
        session_id@,
        response_id@,
        response,
        ttl,
        at,
    ));
    assert forall|id: Seq<char>|
        #![trigger lists(after@, id)]
        #![trigger lists(before@, id)]
        id != response_id@ implies lists(after@, id) == lists(before@, id) by {
        let k = (tenant_id@, session_id@, id);
        assert(a.contains_key(k) == b.contains_key(k));
        if lists(after@, id) {
            let j = choose|j: int| 0 <= j < after@.len() && (#[trigger] after@[j]).response_id@ == id;
            assert(b.contains_key(k));
        }
        if lists(before@, id) {
            let j = choose|j: int|
                0 <= j < before@.len() && (#[trigger] before@[j]).response_id@ == id;
            assert(a.contains_key(k));
        }
    }
}

/// A response that was deleted is in no list of its tenant.
pub proof fn delete_then_list(
    storage: &mut InMemoryResponseStorage,
    tenant_id: &str,
    session_id: &str,
    response_id: &str,
    deleted: Result<(), StorageError>,
    reader: &str,
    after: Vec<StoredResponse>,
)
    requires
        old(storage).well_formed(),
        call_ensures(
            <InMemoryResponseStorage as ResponseStorage>::delete_response,
            (storage, tenant_id, session_id, response_id),
            deleted,
        ),
        call_ensures(
            <InMemoryResponseStorage as ResponseStorage>::list_responses,
            (&*final(storage), tenant_id, reader, None::<usize>, None::<&str>),
            Ok::<Vec<StoredResponse>, StorageError>(after),
        ),
    ensures
        !lists(after@, response_id@),
{
    list_is_full(final(storage), tenant_id, reader, Ok(after));
    if lists(after@, response_id@) {
        let j = choose|j: int|
            0 <= j < after@.len() && (#[trigger] after@[j]).response_id@ == response_id@;
        assert(final(storage).contents().contains_key((tenant_id@, reader@, response_id@)));
    }
}

/// A fork gives the target session a copy of each response of the source, up to and
/// with the named one: under the same identifier, with the same content, and without
/// an end. It says how many these are. Where the two sessions differ, the source
/// still lists what it did.
pub proof fn fork_copies_list(
    storage: &mut InMemoryResponseStorage,
    tenant_id: &str,
    source: &str,
    target: &str,
    up_to: Option<&str>,
    n: usize,
    before: Vec<StoredResponse>,
    copies: Vec<StoredResponse>,
    after: Vec<StoredResponse>,
)
    requires
        old(storage).well_formed(),
        call_ensures(
            <InMemoryResponseStorage as ResponseStorage>::list_responses,
            (&*old(storage), tenant_id, source, None::<usize>, None::<&str>),
            Ok::<Vec<StoredResponse>, StorageError>(before),
        ),
        call_ensures(
            <InMemoryResponseStorage as ResponseStorage>::fork_session,
            (storage, tenant_id, source, target, up_to),
            Ok::<usize, StorageError>(n),
        ),
        call_ensures(
            <InMemoryResponseStorage as ResponseStorage>::list_responses,
            (&*final(storage), tenant_id, target, None::<usize>, None::<&str>),
            Ok::<Vec<StoredResponse>, StorageError>(copies),
        ),
        call_ensures(
            <InMemoryResponseStorage as ResponseStorage>::list_responses,
            (&*final(storage), tenant_id, source, None::<usize>, None::<&str>),
            Ok::<Vec<StoredResponse>, StorageError>(after),
        ),
    ensures
        n <= before@.len(),
        up_to is None || !lists(before@, up_to->0@) ==> n == before@.len(),
        up_to is Some && lists(before@, up_to->0@) ==> n > 0 && before@[n - 1].response_id@
            == up_to->0@,
        forall|i: int|
            0 <= i < n ==> is_copied(copies@, (#[trigger] before@[i]).response_id@, before@[i]),
        source@ != target@ ==> is_part(after@, before@, 0, None),
{
    let a = storage.contents();
    let b = final(storage).contents();
    let all = manager::listing(a, tenant_id@, source@);
    let selection = response_storage::fork_selection(all, records::opt_chars(up_to));
    list_is_full(storage, tenant_id, source, Ok(before));
    list_is_full(final(storage), tenant_id, target, Ok(copies));
    list_is_full(final(storage), tenant_id, source, Ok(after));
    manager::listing_ids_distinct(a, tenant_id@, source@, all);
    let views = records::records(before@);
    assert(views =~= all);
    assert forall|i: int| 0 <= i < before@.len() implies all[i] == (#[trigger] before@[i])@ by {}
    if let Some(id) = up_to {
        records::position_is_first(all, id@);
        match records::position(all, id@) {
            Some(q) => {
                assert(before@[q].response_id@ == id@);
            },
            None => {
                if lists(before@, id@) {
                    let j = choose|j: int|
                        0 <= j < before@.len() && (#[trigger] before@[j]).response_id@ == id@;
                    assert(all[j].response_id == id@);
                }
            },
        }
    }
    let times = choose|times: Seq<u64>|
        times.len() == selection.len() && b == #[trigger] response_storage::copied(
            a,
            selection,
            tenant_id@,
            target@,
            times,
        );
    assert forall|i: int, j: int| 0 <= i < j < selection.len() implies (
    #[trigger] selection[i]).response_id != (#[trigger] selection[j]).response_id by {
        assert(all[i].response_id != all[j].response_id);
    }
    response_storage::fork_fills_target(a, selection, tenant_id@, target@, times);
    assert forall|i: int| 0 <= i < n implies is_copied(
        copies@,
        (#[trigger] before@[i]).response_id@,
        before@[i],
    ) by {
        let id = before@[i].response_id@;
        let key = (tenant_id@, target@, id);
        assert(selection[i] == all[i]);
        assert(b.contains_key(key));
        assert(lists(copies@, id));
        let k = choose|k: int| 0 <= k < copies@.len() && (#[trigger] copies@[k]).response_id@ == id;
        assert(b[key].response == copies@[k].response@);
    }
    if source@ != target@ {
        assert(records::records(after@) =~= all);
        assert(all.skip(0) =~= all);
        crate::storage::list_laws::page_is_part(before@, after@, 0, None);
    }
}

/// Whether a list has a copy of a response: with the same content and without an
/// end.
pub open spec fn is_copied(
    list: Seq<StoredResponse>,
    response_id: Seq<char>,
    original: StoredResponse,
) -> bool {
    exists|k: int|
        0 <= k < list.len() && (#[trigger] list[k]).response_id@ == response_id
            && list[k].response@ == original.response@ && list[k].expires_at is None
}

/// At what a clock says, a response is stored just as at that time; a clock before
/// the Unix epoch, or an end that cannot be held, is an error of the backend, and
/// then nothing is stored.
pub proof fn store_by_clock_holds(
    storage: &mut InMemoryResponseStorage,
    tenant_id: &str,
    session_id: &str,
    response_id: &str,
    response: JsonValue,
    ttl: Option<Duration>,
    reading: Option<u64>,
    stored: Result<(), StorageError>,
    reader: &str,
    now: u64,
    res: Result<StoredResponse, StorageError>,
)
    requires
        old(storage).well_formed(),
        call_ensures(
            InMemoryResponseStorage::store_response_by_clock,
            (storage, tenant_id, session_id, response_id, response, ttl, reading),
            stored,
        ),
        call_ensures(
            InMemoryResponseStorage::get_response_at,
            (&*final(storage), tenant_id, reader, response_id, now),
            res,
        ),
    ensures
        stored is Ok <==> reading is Some && (ttl matches Some(span) ==> reading->0 + seconds_in(
            span,
        ) <= u64::MAX),
        stored matches Err(e) ==> final(storage).contents() == old(storage).contents() && (
        e matches StorageError::BackendError(why) && why@ == if reading is Some {
            "time to live is too long to be held"@
        } else {
            "System time error: the clock stands before the Unix epoch"@
        }),
        stored is Ok && (ttl matches Some(span) ==> now <= reading->0 + seconds_in(span)) ==> (
        res matches Ok(found) && is_stored(
            found,
            tenant_id@,
            session_id@,
            response_id@,
            response,
            ttl,
            reading->0,
        )),
{
    manager::contents_keyed(*storage);
    if stored is Ok {
        response_storage::stored_is_found(
            storage.contents(),
            tenant_id@,
            session_id@,
            response_id@,
            response@,
            ttl,
            reading->0,
            reader@,
            now,
        );
    }
}

/// At what a clock says, a copy of a response stands in its session: with what it was
/// given and without an end, beside all that stood under other keys. At a clock before
/// the Unix epoch nothing is copied.
pub proof fn copy_by_clock_holds(
    storage: &mut InMemoryResponseStorage,
    tenant_id: &str,
    session_id: &str,
    response_id: &str,
    response: JsonValue,
    reading: Option<u64>,
    res: Result<(), StorageError>,
)
    requires
        old(storage).well_formed(),
        call_ensures(
            InMemoryResponseStorage::store_copy_by_clock,
            (storage, tenant_id, session_id, response_id, response, reading),
            res,
        ),
    ensures
        res is Ok <==> reading is Some,
        res matches Err(e) ==> final(storage).contents() == old(storage).contents() && (
        e matches StorageError::BackendError(why) && why@
            == "System time error: the clock stands before the Unix epoch"@),
        reading matches Some(now) ==> {
            let key = (tenant_id@, session_id@, response_id@);
            let copy = final(storage).contents()[key];
            &&& final(storage).contents().contains_key(key)
            &&& copy.tenant_id == tenant_id@
            &&& copy.session_id == session_id@
            &&& copy.response_id == response_id@
            &&& copy.response == response@
            &&& copy.created_at == now
            &&& copy.expires_at is None
            &&& forall|other: (Seq<char>, Seq<char>, Seq<char>)|
                other != key ==> #[trigger] final(storage).contents().contains_key(other) == old(
                    storage,
                ).contents().contains_key(other)
            &&& forall|other: (Seq<char>, Seq<char>, Seq<char>)|
                other != key && #[trigger] final(storage).contents().contains_key(other)
                    ==> final(storage).contents()[other] == old(storage).contents()[other]
        },
{
}

/// At what a clock says, just that is found which is found at that time. A clock before
/// the Unix epoch finds what has no end anywhere, and otherwise is an error.
pub proof fn found_by_clock_holds(
    storage: &InMemoryResponseStorage,
    tenant_id: &str,
    session_id: &str,
    response_id: &str,
    reading: Option<u64>,
    now: u64,
    res: Result<StoredResponse, StorageError>,
    at: Result<StoredResponse, StorageError>,
)
    requires
        storage.well_formed(),
        reading is Some ==> now == reading->0,
        reading is None ==> now == 0,
        call_ensures(
            InMemoryResponseStorage::get_response_by_clock,
            (storage, tenant_id, session_id, response_id, reading),
            res,
        ),
        call_ensures(
            InMemoryResponseStorage::get_response_at,
            (storage, tenant_id, session_id, response_id, now),
            at,
        ),
    ensures
        reading is Some ==> same_answer(res, at),
        reading is None && (forall|session: Seq<char>|
            #[trigger] storage.contents().contains_key((tenant_id@, session, response_id@))
                ==> storage.contents()[(tenant_id@, session, response_id@)].expires_at is None)
            ==> same_answer(res, at),
        reading is None && (exists|session: Seq<char>|
            #[trigger] storage.contents().contains_key((tenant_id@, session, response_id@))
                && storage.contents()[(tenant_id@, session, response_id@)].expires_at is Some)
            ==> (res matches Err(e) && (e matches StorageError::BackendError(why) && why@
            == "System time error: the clock stands before the Unix epoch"@)),
{
    let all = storage.contents();
    if exists|session: Seq<char>|
        #[trigger] all.contains_key((tenant_id@, session, response_id@)) && all[(
            tenant_id@,
            session,
            response_id@,
        )].expires_at is Some {
        let session = choose|session: Seq<char>|
            #[trigger] all.contains_key((tenant_id@, session, response_id@)) && all[(
                tenant_id@,
                session,
                response_id@,
            )].expires_at is Some;
        assert(manager::expires_in(all, tenant_id@, session, response_id@));
        assert(manager::can_expire(all, tenant_id@, response_id@));
    }
    if manager::can_expire(all, tenant_id@, response_id@) {
        let session = choose|session: Seq<char>| #[trigger]
            manager::expires_in(all, tenant_id@, session, response_id@);
        assert(manager::expires_in(all, tenant_id@, session, response_id@));
        assert(all.contains_key((tenant_id@, session, response_id@)));
    }
}

/// A response that was stored without a time to live is given back to every session
/// of its tenant, under the identifier that was given or returned, whatever the
/// clock says.
pub proof fn store_then_get_any_time(
    storage: &mut InMemoryResponseStorage,
    tenant_id: &str,
    session_id: &str,
    response_id: Option<&str>,
    response: JsonValue,
    id: String,
    reader: &str,
    asked: &str,
    res: Result<StoredResponse, StorageError>,
)
    requires
        old(storage).well_formed(),
        call_ensures(
            <InMemoryResponseStorage as ResponseStorage>::store_response,
            (storage, tenant_id, session_id, response_id, response, None::<Duration>),
            Ok::<String, StorageError>(id),
        ),
        asked@ == id@,
        call_ensures(
            <InMemoryResponseStorage as ResponseStorage>::get_response,
            (&*final(storage), tenant_id, reader, asked),
            res,
        ),
    ensures
        response_id matches Some(given) ==> id@ == given@,
        res matches Ok(found) && {
            &&& found.tenant_id@ == tenant_id@
            &&& found.session_id@ == session_id@
            &&& found.response_id@ == id@
            &&& found.response@ == response@
            &&& found.expires_at is None
        },
{
    manager::contents_keyed(*storage);
    let a = storage.contents();
    let b = final(storage).contents();
    assert(response_storage::stored_at_some_time(
        a,
        tenant_id@,
        session_id@,
        id@,
        response@,
        None,
        b,
    ));
    let at = choose|at: u64|
        response_storage::expiry_fits(at, None) && b == response_storage::with_record(
            a,
            #[trigger] response_storage::new_record(
                tenant_id@,
                session_id@,
                id@,
                response@,
                None,
                at,
            ),
        );
    response_storage::stored_is_found(
        a,
        tenant_id@,
        session_id@,
        id@,
        response@,
        None,
        at,
        reader@,
        0,
    );
    assert forall|session: Seq<char>| !#[trigger] manager::expires_in(
        b,
        tenant_id@,
        session,
        id@,
    ) by {
        let key = (tenant_id@, session, id@);
        if b.contains_key(key) {
            assert(session == session_id@);
        }
    }
}

/// A key of one text is the tenant, the word between colons, and the identifier.
pub proof fn key_is_tenant_and_identifier(tenant_id: &str, response_id: &str, res: String)
    requires
        call_ensures(InMemoryResponseStorage::make_key, (tenant_id, response_id), res),
    ensures
        res@ == tenant_id@ + ":responses:"@ + response_id@,
{
}

/// In a new storage nothing is found.
pub proof fn new_storage_is_empty(
    storage: InMemoryResponseStorage,
    made: bool,
    tenant_id: &str,
    session_id: &str,
    response_id: &str,
    now: u64,
    res: Result<StoredResponse, StorageError>,
)
    requires
        made ==> call_ensures(InMemoryResponseStorage::new, (), storage),
        !made ==> call_ensures(<InMemoryResponseStorage as Default>::default, (), storage),
        call_ensures(
            InMemoryResponseStorage::get_response_at,
            (&storage, tenant_id, session_id, response_id, now),
            res,
        ),
    ensures
        storage.well_formed(),
        forall|key: Key| !#[trigger] storage.contents().contains_key(key),
        res matches Err(e) && e is NotFound,
{
}

} // verus!
