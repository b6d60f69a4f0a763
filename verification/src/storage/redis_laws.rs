//! What holds of a storage in Redis: its keys, the commands that it gives, and what it
//! makes of the replies. Stated on what goes in and what comes out.

use crate::storage::list_laws::{comes_before, is_live, is_part, same_stored};
use crate::storage::records;
use crate::storage::records::{Record, StoredResponse};
use crate::storage::redis_storage;
use crate::storage::redis_storage::{
    accept_retrieved, assemble_list, commands_from, copy_keys, first_command, first_command_of,
    index_key, next_command, response_key, response_keys, sessions_key, sessions_to_clear,
    sessions_to_read, StoreCommand, StoreReply,
};
use crate::storage::response_storage::StorageError;
use crate::text;
use vstd::prelude::*;

verus! {

/// Keys are made of tenant, session and identifier by fixed patterns.
pub proof fn keys_by_pattern(
    tenant_id: &str,
    session_id: &str,
    response_id: &str,
    response: String,
    index: String,
    sessions: String,
)
    requires
        call_ensures(response_key, (tenant_id, session_id, response_id), response),
        call_ensures(index_key, (tenant_id, session_id), index),
        call_ensures(sessions_key, (tenant_id, response_id), sessions),
    ensures
        response@ == tenant_id@ + ":"@ + session_id@ + ":responses:"@ + response_id@,
        index@ == tenant_id@ + ":"@ + session_id@ + ":response_ids"@,
        sessions@ == tenant_id@ + ":responses:"@ + response_id@ + ":in:sessions"@,
{
}

/// The keys of several responses, and of the copies in several sessions, are those of
/// each, in order.
pub proof fn keys_of_each(
    tenant_id: &str,
    session_id: &str,
    ids: &Vec<String>,
    keys: Vec<String>,
    sessions: &Vec<String>,
    response_id: &str,
    copies: Vec<String>,
)
    requires
        call_ensures(response_keys, (tenant_id, session_id, ids), keys),
        call_ensures(copy_keys, (tenant_id, sessions, response_id), copies),
    ensures
        keys@.len() == ids@.len(),
        forall|i: int|
            0 <= i < ids@.len() ==> (#[trigger] keys@[i])@ == tenant_id@ + ":"@ + session_id@
                + ":responses:"@ + ids@[i]@,
        copies@.len() == sessions@.len(),
        forall|i: int|
            0 <= i < sessions@.len() ==> (#[trigger] copies@[i])@ == tenant_id@ + ":"@
                + sessions@[i]@ + ":responses:"@ + response_id@,
{
}

/// Whether a text is among others.
pub open spec fn has_text(list: Seq<String>, s: Seq<char>) -> bool {
    exists|i: int| 0 <= i < list.len() && (#[trigger] list[i])@ == s
}

proof fn texts_has(list: Seq<String>, s: Seq<char>)
    ensures
        text::texts(list).contains(s) == has_text(list, s),
{
    let all = text::texts(list);
    if all.contains(s) {
        let i = choose|i: int| 0 <= i < all.len() && all[i] == s;
        assert(list[i]@ == s);
    }
    if has_text(list, s) {
        let i = choose|i: int| 0 <= i < list.len() && (#[trigger] list[i])@ == s;
        assert(all[i] == s);
    }
}

/// A response is looked for in every session that is known to have a copy, and in the
/// one that asks, and nowhere else.
pub proof fn read_where_known_or_asked(
    known: Vec<String>,
    session_id: &str,
    res: Vec<String>,
    s: Seq<char>,
)
    requires
        call_ensures(sessions_to_read, (known, session_id), res),
    ensures
        has_text(res@, s) <==> has_text(known@, s) || s == session_id@,
{
    texts_has(res@, s);
    texts_has(known@, s);
    let a = text::texts(known@);
    if !a.contains(session_id@) {
        let b = a.push(session_id@);
        if a.contains(s) {
            let i = choose|i: int| 0 <= i < a.len() && a[i] == s;
            assert(b[i] == s);
        }
        assert(b[a.len() as int] == session_id@);
        if b.contains(s) {
            let i = choose|i: int| 0 <= i < b.len() && b[i] == s;
            if i < a.len() {
                assert(a[i] == s);
            }
        }
    }
}

/// A store clears every session that is known to have a copy but its own, and no
/// other.
pub proof fn cleared_but_own(
    known: &Vec<String>,
    session_id: &str,
    res: Vec<String>,
    s: Seq<char>,
)
    requires
        call_ensures(sessions_to_clear, (known, session_id), res),
    ensures
        has_text(res@, s) <==> has_text(known@, s) && s != session_id@,
{
    texts_has(res@, s);
    texts_has(known@, s);
    let a = text::texts(known@);
    let is_other = |other: Seq<char>| other != session_id@;
    let b = a.filter(is_other);
    if a.contains(s) && s != session_id@ {
        let i = choose|i: int| 0 <= i < a.len() && a[i] == s;
        a.lemma_filter_contains(is_other, i);
    }
    if b.contains(s) {
        let i = choose|i: int| 0 <= i < b.len() && b[i] == s;
        a.lemma_filter_pred(is_other, i);
        filtered_is_from(a, is_other, i);
    }
}

proof fn filtered_is_from(a: Seq<Seq<char>>, keep: spec_fn(Seq<char>) -> bool, i: int)
    requires
        0 <= i < a.filter(keep).len(),
    ensures
        a.contains(a.filter(keep)[i]),
    decreases a.len(),
{
    reveal(Seq::filter);
    if a.len() > 0 {
        let rest = a.drop_last();
        if i < rest.filter(keep).len() {
            filtered_is_from(rest, keep, i);
            let j = choose|j: int| 0 <= j < rest.len() && rest[j] == rest.filter(keep)[i];
            assert(a[j] == a.filter(keep)[i]);
        } else {
            assert(a[a.len() - 1] == a.filter(keep)[i]);
        }
    }
}

/// A store starts by writing the response: for its time to live, or for good.
pub proof fn store_starts_with_write(ttl: Option<u64>, command: StoreCommand)
    requires
        call_ensures(first_command, (ttl,), command),
    ensures
        ttl matches Some(seconds) ==> command == (StoreCommand::WriteFor { seconds }),
        ttl is None ==> command == StoreCommand::Write,
{
}

/// Without a time to live a store writes the response, adds it to the session's index
/// and the session to its own, and keeps both for good.
pub proof fn store_for_good(index: i64, sessions: i64)
    ensures
        commands_from(None, first_command_of(None), index, sessions) == seq![
            StoreCommand::Write,
            StoreCommand::AddToIndex { end: None },
            StoreCommand::PersistIndex,
            StoreCommand::AddToSessions { end: None },
            StoreCommand::PersistSessions,
        ],
{
    redis_storage::store_commands(None, index, sessions);
    assert(commands_from(None, first_command_of(None), index, sessions) =~= seq![
        StoreCommand::Write,
        StoreCommand::AddToIndex { end: None },
        StoreCommand::PersistIndex,
        StoreCommand::AddToSessions { end: None },
        StoreCommand::PersistSessions,
    ]);
}

/// Whether a set is to end so many seconds from now: it is not there yet, or would
/// end earlier.
pub open spec fn ends_later(seconds: u64, left: i64) -> bool {
    left == -2 || (0 <= left && left < seconds)
}

/// The commands that add to a set, and those that also give it an end.
pub open spec fn index_part(seconds: u64, left: i64) -> Seq<StoreCommand> {
    if ends_later(seconds, left) {
        seq![
            StoreCommand::ReadIndexTtl,
            StoreCommand::AddToIndex { end: Some(seconds as i64) },
            StoreCommand::ExpireIndex { seconds: seconds as i64 },
        ]
    } else {
        seq![StoreCommand::ReadIndexTtl, StoreCommand::AddToIndex { end: None }]
    }
}

/// The same for the set of a response's sessions.
pub open spec fn sessions_part(seconds: u64, left: i64) -> Seq<StoreCommand> {
    if ends_later(seconds, left) {
        seq![
            StoreCommand::ReadSessionsTtl,
            StoreCommand::AddToSessions { end: Some(seconds as i64) },
            StoreCommand::ExpireSessions { seconds: seconds as i64 },
        ]
    } else {
        seq![StoreCommand::ReadSessionsTtl, StoreCommand::AddToSessions { end: None }]
    }
}

/// With a time to live a store writes the response for that time, adds it to the
/// session's index and the session to its own, and lets each of the two live as long
/// unless it lives longer.
pub proof fn store_for_a_time(seconds: u64, index: i64, sessions: i64)
    requires
        seconds <= i64::MAX,
        index >= -2,
        sessions >= -2,
    ensures
        commands_from(Some(seconds), first_command_of(Some(seconds)), index, sessions) == seq![
            StoreCommand::WriteFor { seconds },
        ] + index_part(seconds, index) + sessions_part(seconds, sessions),
{
    redis_storage::store_commands(Some(seconds), index, sessions);
}

/// A command that fails ends the store with the words for it and the reason, unless
/// it only reads how long a set lives; otherwise there is a next command.
pub proof fn failure_ends_store(
    ttl: Option<u64>,
    command: StoreCommand,
    reply: &StoreReply,
    res: Result<StoreCommand, StorageError>,
)
    requires
        call_ensures(next_command, (ttl, command, reply), res),
    ensures
        res is Err <==> *reply is Failed && !(command is ReadIndexTtl) && !(
        command is ReadSessionsTtl) && !(command is Finish),
        res matches Err(e) ==> (e matches StorageError::BackendError(words) && (
        reply matches StoreReply::Failed(why) && {
            &&& command is Write || command is WriteFor ==> words@ == "Failed to store response: "@
                + why@
            &&& command is AddToIndex ==> words@ == "Failed to add to index: "@ + why@
            &&& command is ExpireIndex ==> words@ == "Failed to set index TTL: "@ + why@
            &&& command is PersistIndex ==> words@ == "Failed to persist index: "@ + why@
            &&& command is AddToSessions ==> words@ == "Failed to add to sessions: "@ + why@
            &&& command is ExpireSessions ==> words@ == "Failed to set sessions TTL: "@ + why@
            &&& command is PersistSessions ==> words@ == "Failed to persist sessions: "@ + why@
        })),
{
}

/// How long a set lives is taken to be for good where it could not be read: then the
/// set is given no end.
pub proof fn unread_end_is_kept(
    ttl: Option<u64>,
    reply: &StoreReply,
    index: Result<StoreCommand, StorageError>,
    sessions: Result<StoreCommand, StorageError>,
)
    requires
        reply is Failed,
        call_ensures(next_command, (ttl, StoreCommand::ReadIndexTtl, reply), index),
        call_ensures(next_command, (ttl, StoreCommand::ReadSessionsTtl, reply), sessions),
    ensures
        index == Ok::<StoreCommand, StorageError>(StoreCommand::AddToIndex { end: None }),
        sessions == Ok::<StoreCommand, StorageError>(StoreCommand::AddToSessions { end: None }),
{
}

/// What is accepted of the copies that were read is a live copy of the tenant's
/// response: of the session that asks where that has one, else the one stored last.
/// Where none is live, it is not found.
pub proof fn accepted_is_live(
    copies: &Vec<StoredResponse>,
    tenant_id: &str,
    session_id: &str,
    response_id: &str,
    now: u64,
    res: Result<StoredResponse, StorageError>,
)
    requires
        call_ensures(
            accept_retrieved,
            (copies, tenant_id, session_id, response_id, Ok::<u64, String>(now)),
            res,
        ),
    ensures
        match res {
            Ok(found) => {
                &&& is_live(found, tenant_id@, response_id@, now)
                &&& exists|p: int| 0 <= p < copies@.len() && same_stored(#[trigger] copies@[p], found)
                &&& found.session_id@ != session_id@ ==> forall|i: int|
                    0 <= i < copies@.len() && is_live(
                        #[trigger] copies@[i],
                        tenant_id@,
                        response_id@,
                        now,
                    ) ==> copies@[i].session_id@ != session_id@ && copies@[i].created_at
                        <= found.created_at
            },
            Err(e) => e is NotFound && forall|i: int|
                0 <= i < copies@.len() ==> !is_live(
                    #[trigger] copies@[i],
                    tenant_id@,
                    response_id@,
                    now,
                ),
        },
{
    let all = records::records(copies@);
    records::shown_copy_is_best(all, tenant_id@, session_id@, response_id@, now);
    assert forall|i: int| 0 <= i < copies@.len() implies is_live(
        #[trigger] copies@[i],
        tenant_id@,
        response_id@,
        now,
    ) == records::live_copy(all[i], tenant_id@, response_id@, now) by {}
    if let Ok(found) = res {
        let p = records::shown_copy(all, tenant_id@, session_id@, response_id@, now)->0;
        assert(all[p] == copies@[p]@);
        assert(same_stored(copies@[p], found));
        assert forall|i: int|
            0 <= i < copies@.len() && is_live(#[trigger] copies@[i], tenant_id@, response_id@, now)
                && found.session_id@ != session_id@ implies copies@[i].session_id@ != session_id@
            && copies@[i].created_at <= found.created_at by {
            assert(!records::preferred(all[i], all[p], session_id@));
        }
    }
}

/// Without a clock a response is accepted where it cannot expire; where a copy of it
/// can, the clock's error is passed on.
pub proof fn accepted_without_clock(
    copies: &Vec<StoredResponse>,
    tenant_id: &str,
    session_id: &str,
    response_id: &str,
    why: String,
    res: Result<StoredResponse, StorageError>,
)
    requires
        call_ensures(
            accept_retrieved,
            (copies, tenant_id, session_id, response_id, Err::<u64, String>(why)),
            res,
        ),
    ensures
        (exists|i: int|
            0 <= i < copies@.len() && (#[trigger] copies@[i]).tenant_id@ == tenant_id@
                && copies@[i].response_id@ == response_id@ && copies@[i].expires_at is Some) ==> (
        res matches Err(e) && (e matches StorageError::BackendError(words) && words@
            == "System time error: "@ + why@)),
        (forall|i: int|
            0 <= i < copies@.len() ==> (#[trigger] copies@[i]).expires_at is None) ==> (res is Ok
            <==> exists|i: int|
            0 <= i < copies@.len() && (#[trigger] copies@[i]).tenant_id@ == tenant_id@
                && copies@[i].response_id@ == response_id@),
{
    let all = records::records(copies@);
    assert forall|i: int| 0 <= i < copies@.len() implies all[i] == (#[trigger] copies@[i])@ by {}
    if exists|i: int|
        0 <= i < copies@.len() && (#[trigger] copies@[i]).tenant_id@ == tenant_id@
            && copies@[i].response_id@ == response_id@ && copies@[i].expires_at is Some {
        let i = choose|i: int|
            0 <= i < copies@.len() && (#[trigger] copies@[i]).tenant_id@ == tenant_id@
                && copies@[i].response_id@ == response_id@ && copies@[i].expires_at is Some;
        assert(all[i].expires_at is Some);
        assert(redis_storage::some_copy_ends(all, tenant_id@, response_id@));
    }
    if forall|i: int| 0 <= i < copies@.len() ==> (#[trigger] copies@[i]).expires_at is None {
        assert(!redis_storage::some_copy_ends(all, tenant_id@, response_id@)) by {
            if redis_storage::some_copy_ends(all, tenant_id@, response_id@) {
                let i = choose|i: int|
                    0 <= i < all.len() && (#[trigger] all[i]).tenant_id == tenant_id@
                        && all[i].response_id == response_id@ && all[i].expires_at is Some;
                assert(copies@[i].expires_at is None);
            }
        }
        records::shown_copy_is_best(all, tenant_id@, session_id@, response_id@, 0);
        match records::shown_copy(all, tenant_id@, session_id@, response_id@, 0) {
            Some(p) => {
                assert(copies@[p].tenant_id@ == tenant_id@);
            },
            None => {
                assert forall|i: int| 0 <= i < copies@.len() implies !((
                #[trigger] copies@[i]).tenant_id@ == tenant_id@ && copies@[i].response_id@
                    == response_id@) by {
                    assert(copies@[i].expires_at is None);
                    assert(!records::live_copy(all[i], tenant_id@, response_id@, 0));
                }
            },
        }
    }
}

/// Whether a stored response belongs in a session's list at a time.
pub open spec fn belongs(
    stored: StoredResponse,
    tenant_id: Seq<char>,
    session_id: Seq<char>,
    now: u64,
) -> bool {
    &&& stored.tenant_id@ == tenant_id
    &&& stored.session_id@ == session_id
    &&& stored.expires_at matches Some(end) ==> now <= end
}

proof fn live_keeps(
    all: Seq<Record>,
    tenant_id: Seq<char>,
    session_id: Seq<char>,
    now: u64,
    i: int,
)
    requires
        0 <= i < all.len(),
        all[i].tenant_id == tenant_id,
        all[i].session_id == session_id,
        !all[i].expired(now),
    ensures
        redis_storage::live(all, tenant_id, session_id, now).contains(all[i]),
    decreases all.len(),
{
    let kept = redis_storage::live(all, tenant_id, session_id, now);
    if i == all.len() - 1 {
        assert(kept[kept.len() - 1] == all[i]);
    } else {
        let rest = all.drop_last();
        live_keeps(rest, tenant_id, session_id, now, i);
        let before = redis_storage::live(rest, tenant_id, session_id, now);
        let k = choose|k: int| 0 <= k < before.len() && before[k] == rest[i];
        assert(kept[k] == all[i]);
    }
}

proof fn live_is_from(
    all: Seq<Record>,
    tenant_id: Seq<char>,
    session_id: Seq<char>,
    now: u64,
    r: Record,
)
    requires
        redis_storage::live(all, tenant_id, session_id, now).contains(r),
    ensures
        all.contains(r),
        r.tenant_id == tenant_id,
        r.session_id == session_id,
        !r.expired(now),
    decreases all.len(),
{
    let kept = redis_storage::live(all, tenant_id, session_id, now);
    let k = choose|k: int| 0 <= k < kept.len() && kept[k] == r;
    if all.len() > 0 {
        let rest = all.drop_last();
        let before = redis_storage::live(rest, tenant_id, session_id, now);
        if k < before.len() {
            assert(before[k] == r);
            live_is_from(rest, tenant_id, session_id, now, r);
            let j = choose|j: int| 0 <= j < rest.len() && rest[j] == r;
            assert(all[j] == r);
        } else {
            assert(all[all.len() - 1] == r);
        }
    }
}

/// A full list is what belongs to the tenant's session of what was read, by time and
/// then by identifier, and all of that.
pub proof fn list_of_what_belongs(
    read: Vec<StoredResponse>,
    tenant_id: &str,
    session_id: &str,
    now: u64,
    list: Vec<StoredResponse>,
)
    requires
        call_ensures(
            assemble_list,
            (read, tenant_id, session_id, now, None::<usize>, None::<&str>),
            list,
        ),
    ensures
        forall|k: int|
            0 <= k < list@.len() ==> belongs(
                #[trigger] list@[k],
                tenant_id@,
                session_id@,
                now,
            ) && is_among(read@, list@[k]),
        forall|i: int|
            0 <= i < read@.len() && belongs(#[trigger] read@[i], tenant_id@, session_id@, now)
                ==> is_among(list@, read@[i]),
        forall|i: int, j: int|
            0 <= i < j < list@.len() ==> !comes_before(#[trigger] list@[j], #[trigger] list@[i]),
{
    broadcast use vstd::seq_lib::group_to_multiset_ensures;

    let all = records::records(read@);
    let kept = redis_storage::live(all, tenant_id@, session_id@, now);
    let sorted = records::in_order(kept);
    let out = records::records(list@);
    records::in_order_sorts(kept);
    assert(out =~= sorted);
    assert forall|k: int| 0 <= k < list@.len() implies belongs(
        #[trigger] list@[k],
        tenant_id@,
        session_id@,
        now,
    ) && is_among(read@, list@[k]) by {
        assert(out[k] == list@[k]@);
        assert(sorted.contains(out[k]));
        assert(sorted.to_multiset().count(out[k]) > 0);
        assert(kept.to_multiset().count(out[k]) > 0);
        assert(kept.contains(out[k]));
        live_is_from(all, tenant_id@, session_id@, now, out[k]);
        let j = choose|j: int| 0 <= j < all.len() && all[j] == out[k];
        assert(same_stored(read@[j], list@[k]));
    }
    assert forall|i: int|
        0 <= i < read@.len() && belongs(
            #[trigger] read@[i],
            tenant_id@,
            session_id@,
            now,
        ) implies is_among(list@, read@[i]) by {
        live_keeps(all, tenant_id@, session_id@, now, i);
        assert(kept.to_multiset().count(all[i]) > 0);
        assert(sorted.to_multiset().count(all[i]) > 0);
        assert(sorted.contains(all[i]));
        let k = choose|k: int| 0 <= k < sorted.len() && sorted[k] == all[i];
        assert(out[k] == list@[k]@);
        assert(same_stored(list@[k], read@[i]));
    }
    assert forall|i: int, j: int| 0 <= i < j < list@.len() implies !comes_before(
        #[trigger] list@[j],
        #[trigger] list@[i],
    ) by {
        assert(!records::earlier(sorted[j], sorted[i]));
    }
}

/// Whether a list has a stored response.
pub open spec fn is_among(list: Seq<StoredResponse>, stored: StoredResponse) -> bool {
    exists|k: int| 0 <= k < list.len() && same_stored(#[trigger] list[k], stored)
}

/// A page is a part of the full list: from right behind the response that the cursor
/// names, or from the start, as far as the limit allows.
pub proof fn page_of_what_belongs(
    read: Vec<StoredResponse>,
    tenant_id: &str,
    session_id: &str,
    now: u64,
    limit: Option<usize>,
    after: Option<&str>,
    full: Vec<StoredResponse>,
    page: Vec<StoredResponse>,
)
    requires
        call_ensures(
            assemble_list,
            (read, tenant_id, session_id, now, None::<usize>, None::<&str>),
            full,
        ),
        call_ensures(
            assemble_list,
            (read, tenant_id, session_id, now, limit, after),
            page,
        ),
    ensures
        forall|p: int|
            0 <= p < full@.len() && after is Some && (#[trigger] full@[p]).response_id@
                == after->0@ && (forall|i: int|
                0 <= i < p ==> (#[trigger] full@[i]).response_id@ != after->0@) ==> is_part(
                page@,
                full@,
                p + 1,
                limit,
            ),
        (after matches Some(id) ==> forall|i: int|
            0 <= i < full@.len() ==> (#[trigger] full@[i]).response_id@ != id@) ==> is_part(
            page@,
            full@,
            0,
            limit,
        ),
{
    let all = records::in_order(
        redis_storage::live(records::records(read@), tenant_id@, session_id@, now),
    );
    let views = records::records(full@);
    assert(views =~= all);
    assert forall|i: int| 0 <= i < full@.len() implies all[i] == (#[trigger] full@[i])@ by {}
    match after {
        Some(id) => {
            records::position_is_first(all, id@);
            match records::position(all, id@) {
                Some(q) => {
                    assert(full@[q].response_id@ == id@);
                    assert forall|p: int|
                        0 <= p < full@.len() && (#[trigger] full@[p]).response_id@ == id@ && (
                        forall|i: int|
                            0 <= i < p ==> (#[trigger] full@[i]).response_id@
                                != id@) implies p == q by {
                        if p < q {
                            assert(all[p].response_id != id@);
                        }
                        if q < p {
                            assert(full@[q].response_id@ != id@);
                        }
                    }
                    crate::storage::list_laws::page_is_part(full@, page@, q + 1, limit);
                },
                None => {
                    assert(all.skip(0) =~= all);
                    crate::storage::list_laws::page_is_part(full@, page@, 0, limit);
                    assert forall|p: int| 0 <= p < full@.len() implies (
                    #[trigger] full@[p]).response_id@ != id@ by {
                        assert(all[p].response_id != id@);
                    }
                },
            }
        },
        None => {
            assert(all.skip(0) =~= all);
            crate::storage::list_laws::page_is_part(full@, page@, 0, limit);
        },
    }
}

} // verus!
