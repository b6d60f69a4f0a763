//! A storage for responses in memory.

use crate::clock::read_unix_seconds;
use crate::ids;
use crate::json::{Json, JsonValue};
use crate::storage::records;
use crate::storage::records::{
    earlier, find_copy, in_order, opt_chars, page, paged, shown_copy, sort_responses, take_page, Key,
    Record, StoredResponse,
};
use crate::storage::response_storage;
use crate::storage::response_storage::{
    all_copied, copied, copies_stay_in_session, copy_stopped, copy_under, expires_at,
    expiry_can_be_held, expiry_fits, first_copied, fork_of, fork_selection, has_response, keyed,
    lookup, new_record, of_session, same_for_others, select_for_fork, selects, session_list,
    shown_under, with_copy, with_record, without_response, Contents, ResponseStorage, StorageError,
};
use crate::text;
use crate::text::{owned, text_eq};
use crate::time::Duration;
use vstd::prelude::*;

verus! {

/// A storage for responses in memory, for development and tests: one process,
/// nothing that outlasts it.
///
/// A store leaves one entry per tenant and identifier. A fork puts its copies
/// beside the entries it copies, so that the session it copies from stays as it
/// was.
#[derive(Debug)]
pub struct InMemoryResponseStorage {
    items: Vec<StoredResponse>,
}

/// Whether no two records stand under the same key.
pub open spec fn keys_distinct(s: Seq<Record>) -> bool {
    forall|i: int, j: int|
        0 <= i < j < s.len() ==> (#[trigger] s[i]).key() != (#[trigger] s[j]).key()
}

/// Whether a record with the given key is at place `i`.
pub open spec fn at(s: Seq<Record>, key: Key, i: int) -> bool {
    0 <= i < s.len() && s[i].key() == key
}

/// Records by their keys.
pub open spec fn contents_of(s: Seq<Record>) -> Contents {
    Map::new(
        |key: Key| exists|i: int| #[trigger] at(s, key, i),
        |key: Key| s[choose|i: int| #[trigger] at(s, key, i)],
    )
}

proof fn contents_at(s: Seq<Record>, i: int)
    requires
        keys_distinct(s),
        0 <= i < s.len(),
    ensures
        contents_of(s).contains_key(s[i].key()),
        contents_of(s)[s[i].key()] == s[i],
{
    let key = s[i].key();
    assert(at(s, key, i));
    let j = choose|j: int| #[trigger] at(s, key, j);
    assert(at(s, key, j));
    if i < j {
        assert(s[i].key() != s[j].key());
    }
    if j < i {
        assert(s[j].key() != s[i].key());
    }
}

proof fn contents_without(s: Seq<Record>, key: Key)
    requires
        forall|i: int| 0 <= i < s.len() ==> (#[trigger] s[i]).key() != key,
    ensures
        !contents_of(s).contains_key(key),
{
    if contents_of(s).contains_key(key) {
        let j = choose|j: int| #[trigger] at(s, key, j);
        assert(at(s, key, j));
    }
}

proof fn contents_from(s: Seq<Record>, key: Key) -> (i: int)
    requires
        keys_distinct(s),
        contents_of(s).contains_key(key),
    ensures
        0 <= i < s.len(),
        s[i].key() == key,
        contents_of(s)[key] == s[i],
{
    let i = choose|i: int| #[trigger] at(s, key, i);
    assert(at(s, key, i));
    i
}

/// What a storage in memory holds under a key is a record with that key.
pub proof fn contents_keyed(storage: InMemoryResponseStorage)
    requires
        storage.well_formed(),
    ensures
        keyed(storage.contents()),
{
    keyed_by_place(storage.held());
}

proof fn keyed_by_place(s: Seq<Record>)
    requires
        keys_distinct(s),
    ensures
        keyed(contents_of(s)),
{
    assert forall|key: Key| #[trigger] contents_of(s).contains_key(key) implies contents_of(
        s,
    )[key].key() == key by {
        let i = contents_from(s, key);
    }
}

/// The copy that a sequence shows is the one that is found by its contents.
proof fn shown_is_looked_up(
    s: Seq<Record>,
    tenant_id: Seq<char>,
    session_id: Seq<char>,
    response_id: Seq<char>,
    now: u64,
)
    requires
        keys_distinct(s),
    ensures
        lookup(contents_of(s), tenant_id, session_id, response_id, now) == (match shown_copy(
            s,
            tenant_id,
            session_id,
            response_id,
            now,
        ) {
            Some(p) => Some(s[p]),
            None => None,
        }),
{
    let contents = contents_of(s);
    records::shown_copy_is_best(s, tenant_id, session_id, response_id, now);
    keyed_by_place(s);
    match shown_copy(s, tenant_id, session_id, response_id, now) {
        Some(p) => {
            let key = s[p].key();
            contents_at(s, p);
            assert forall|k: Key| #[trigger]
                copy_under(contents, tenant_id, response_id, now, k) implies !records::preferred(
                contents[k],
                contents[key],
                session_id,
            ) by {
                let i = contents_from(s, k);
                assert(records::live_copy(s[i], tenant_id, response_id, now));
            }
            assert(shown_under(contents, tenant_id, session_id, response_id, now, key));
            response_storage::shown_is_found(
                contents,
                tenant_id,
                session_id,
                response_id,
                now,
                key,
            );
        },
        None => {
            assert forall|k: Key| !#[trigger] shown_under(
                contents,
                tenant_id,
                session_id,
                response_id,
                now,
                k,
            ) by {
                if copy_under(contents, tenant_id, response_id, now, k) {
                    let i = contents_from(s, k);
                    assert(records::live_copy(s[i], tenant_id, response_id, now));
                }
            }
        },
    }
}

/// A storage in memory that holds a live copy of a response finds one from every
/// session of its tenant, and finds none where it holds none.
pub proof fn held_is_found(
    storage: InMemoryResponseStorage,
    tenant_id: Seq<char>,
    session_id: Seq<char>,
    response_id: Seq<char>,
    now: u64,
)
    requires
        storage.well_formed(),
    ensures
        lookup(storage.contents(), tenant_id, session_id, response_id, now) is Some <==> exists|
            key: Key,
        | #[trigger]
            copy_under(storage.contents(), tenant_id, response_id, now, key),
{
    let s = storage.held();
    let contents = storage.contents();
    shown_is_looked_up(s, tenant_id, session_id, response_id, now);
    records::shown_copy_is_best(s, tenant_id, session_id, response_id, now);
    match shown_copy(s, tenant_id, session_id, response_id, now) {
        Some(p) => {
            contents_at(s, p);
            assert(copy_under(contents, tenant_id, response_id, now, s[p].key()));
        },
        None => {
            assert forall|key: Key| !#[trigger]
                copy_under(contents, tenant_id, response_id, now, key) by {
                if contents.contains_key(key) {
                    let i = contents_from(s, key);
                    assert(!records::live_copy(s[i], tenant_id, response_id, now));
                }
            }
        },
    }
}

/// Putting a record in the place of the one with the same key, or at the end
/// where there is none, is storing it.
proof fn contents_put(s: Seq<Record>, t: Seq<Record>, r: Record)
    requires
        keys_distinct(s),
        (exists|p: int|
            0 <= p < s.len() && (#[trigger] s[p]).key() == r.key() && t == s.update(p, r)) || (t
            == s.push(r) && forall|i: int| 0 <= i < s.len() ==> (#[trigger] s[i]).key() != r.key()),
    ensures
        keys_distinct(t),
        contents_of(t) == with_copy(contents_of(s), r),
{
    let want = with_copy(contents_of(s), r);
    let p: int = if t == s.push(r) && t.len() > s.len() {
        s.len() as int
    } else {
        choose|p: int|
            0 <= p < s.len() && (#[trigger] s[p]).key() == r.key() && t == s.update(p, r)
    };
    assert(t[p] == r);
    assert(forall|i: int| 0 <= i < t.len() && i != p ==> t[i] == s[i]);
    assert(keys_distinct(t));
    assert forall|key: Key|
        (#[trigger] contents_of(t).dom().contains(key)) == want.contains_key(key) && (
        want.contains_key(key) ==> contents_of(t)[key] == want[key]) by {
        if key == r.key() {
            contents_at(t, p);
        } else {
            if contents_of(s).contains_key(key) {
                let i = contents_from(s, key);
                contents_at(t, i);
            }
            if contents_of(t).contains_key(key) {
                let i = contents_from(t, key);
                contents_at(s, i);
            }
        }
    }
    assert(contents_of(t) =~= want);
}

proof fn contents_removed(s: Seq<Record>, p: int)
    requires
        keys_distinct(s),
        0 <= p < s.len(),
    ensures
        keys_distinct(s.remove(p)),
        contents_of(s.remove(p)) == contents_of(s).remove(s[p].key()),
{
    let t = s.remove(p);
    let want = contents_of(s).remove(s[p].key());
    assert(forall|i: int| 0 <= i < t.len() ==> t[i] == s[if i < p { i } else { i + 1 }]);
    assert(keys_distinct(t));
    assert forall|key: Key|
        (#[trigger] contents_of(t).dom().contains(key)) == want.contains_key(key) && (
        want.contains_key(key) ==> contents_of(t)[key] == want[key]) by {
        if contents_of(t).contains_key(key) {
            let i = contents_from(t, key);
            let j = if i < p {
                i
            } else {
                i + 1
            };
            assert(t[i] == s[j]);
            contents_at(s, j);
            if j < p {
                assert(s[j].key() != s[p].key());
            } else {
                assert(s[p].key() != s[j].key());
            }
        }
        if want.contains_key(key) {
            let i = contents_from(s, key);
            let j = if i < p {
                i
            } else {
                i - 1
            };
            assert(i != p);
            assert(t[j] == s[i]);
            contents_at(t, j);
        }
    }
    assert(contents_of(t) =~= want);
}

/// Whether a list shows exactly a tenant's session, in order: by time, then by
/// identifier.
pub open spec fn is_listing(
    contents: Contents,
    tenant_id: Seq<char>,
    session_id: Seq<char>,
    list: Seq<Record>,
) -> bool {
    &&& of_session(list, contents, tenant_id, session_id)
    &&& forall|key: Key| #[trigger]
        contents.contains_key(key) && contents[key].tenant_id == tenant_id
            && contents[key].session_id == session_id ==> list.contains(contents[key])
    &&& forall|i: int, j: int|
        0 <= i < j < list.len() ==> earlier(#[trigger] list[i], #[trigger] list[j])
}

/// The list of a tenant's session.
pub open spec fn listing(contents: Contents, tenant_id: Seq<char>, session_id: Seq<char>) -> Seq<
    Record,
> {
    choose|list: Seq<Record>| is_listing(contents, tenant_id, session_id, list)
}

proof fn sorted_alike(a: Seq<Record>, b: Seq<Record>)
    requires
        forall|i: int, j: int|
            0 <= i < j < a.len() ==> earlier(#[trigger] a[i], #[trigger] a[j]),
        forall|i: int, j: int|
            0 <= i < j < b.len() ==> earlier(#[trigger] b[i], #[trigger] b[j]),
        forall|r: Record| #[trigger] a.contains(r) <==> b.contains(r),
    ensures
        a == b,
    decreases a.len(),
{
    if a.len() == 0 {
        if b.len() > 0 {
            assert(b.contains(b[0]));
            assert(a.contains(b[0]));
        }
        assert(a =~= b);
    } else {
        assert(a.contains(a.last()));
        assert(b.contains(a.last()));
        let i = choose|i: int| 0 <= i < b.len() && b[i] == a.last();
        assert(b.contains(b.last()));
        assert(a.contains(b.last()));
        let j = choose|j: int| 0 <= j < a.len() && a[j] == b.last();
        if i < b.len() - 1 {
            assert(earlier(b[i], b[b.len() - 1]));
            if j < a.len() - 1 {
                assert(earlier(a[j], a[a.len() - 1]));
                records::earlier_transitive(a.last(), b.last(), a.last());
            }
            records::earlier_irreflexive(a.last());
        }
        assert(a.last() == b.last());
        let last = a.last();
        assert forall|r: Record| #[trigger] a.drop_last().contains(r) <==> b.drop_last().contains(
            r,
        ) by {
            if a.drop_last().contains(r) {
                let k = choose|k: int| 0 <= k < a.drop_last().len() && a.drop_last()[k] == r;
                assert(a[k] == r);
                assert(earlier(a[k], a[a.len() - 1]));
                records::earlier_irreflexive(last);
                assert(a.contains(r));
                let m = choose|m: int| 0 <= m < b.len() && b[m] == r;
                assert(b.drop_last()[m] == r);
            }
            if b.drop_last().contains(r) {
                let k = choose|k: int| 0 <= k < b.drop_last().len() && b.drop_last()[k] == r;
                assert(b[k] == r);
                assert(earlier(b[k], b[b.len() - 1]));
                records::earlier_irreflexive(last);
                assert(b.contains(r));
                assert(a.contains(r));
                let m = choose|m: int| 0 <= m < a.len() && a[m] == r;
                assert(a.drop_last()[m] == r);
            }
        }
        sorted_alike(a.drop_last(), b.drop_last());
        assert(a =~= a.drop_last().push(last));
        assert(b =~= b.drop_last().push(last));
    }
}

/// There is only one list that shows a tenant's session.
pub proof fn listing_unique(
    contents: Contents,
    tenant_id: Seq<char>,
    session_id: Seq<char>,
    list: Seq<Record>,
)
    requires
        is_listing(contents, tenant_id, session_id, list),
    ensures
        list == listing(contents, tenant_id, session_id),
        is_listing(contents, tenant_id, session_id, listing(contents, tenant_id, session_id)),
{
    let other = listing(contents, tenant_id, session_id);
    assert forall|r: Record| #[trigger] list.contains(r) <==> other.contains(r) by {
        if list.contains(r) {
            let i = choose|i: int| 0 <= i < list.len() && list[i] == r;
            assert(list[i] == r);
            assert(contents.contains_key(r.key()));
        }
        if other.contains(r) {
            let i = choose|i: int| 0 <= i < other.len() && other[i] == r;
            assert(other[i] == r);
            assert(contents.contains_key(r.key()));
        }
    }
    sorted_alike(list, other);
}

/// No two responses in a list have the same identifier.
pub proof fn listing_ids_distinct(
    contents: Contents,
    tenant_id: Seq<char>,
    session_id: Seq<char>,
    list: Seq<Record>,
)
    requires
        is_listing(contents, tenant_id, session_id, list),
    ensures
        forall|i: int, j: int|
            0 <= i < j < list.len() ==> (#[trigger] list[i]).response_id != (
            #[trigger] list[j]).response_id,
{
    assert forall|i: int, j: int| 0 <= i < j < list.len() implies (
    #[trigger] list[i]).response_id != (#[trigger] list[j]).response_id by {
        if list[i].response_id == list[j].response_id {
            assert(list[i].key() == list[j].key());
            assert(contents[list[i].key()] == list[i]);
            assert(contents[list[j].key()] == list[j]);
            assert(earlier(list[i], list[j]));
            records::earlier_irreflexive(list[i]);
        }
    }
}

/// The pages of a session's list join: shown one after the other, each after the
/// last response of the one before, they are the list from its start, and enough
/// of them are the whole list.
pub proof fn listing_pages_join(
    contents: Contents,
    tenant_id: Seq<char>,
    session_id: Seq<char>,
    list: Seq<Record>,
    limit: usize,
    pages: nat,
)
    requires
        is_listing(contents, tenant_id, session_id, list),
        limit > 0,
    ensures
        paged(list, limit, pages) == list.take(
            if pages * limit < list.len() {
                pages * limit
            } else {
                list.len() as int
            },
        ),
        pages >= list.len() ==> paged(list, limit, pages) == list,
{
    listing_ids_distinct(contents, tenant_id, session_id, list);
    records::pages_join(list, limit, pages);
}

/// What is the same for every tenant but one is listed alike by each of those.
pub proof fn isolated_listing(
    a: Contents,
    b: Contents,
    tenant_id: Seq<char>,
    other: Seq<char>,
    session_id: Seq<char>,
    list: Seq<Record>,
)
    requires
        same_for_others(a, b, tenant_id),
        other != tenant_id,
        keyed(b),
        is_listing(a, other, session_id, list),
    ensures
        is_listing(b, other, session_id, list),
{
    assert forall|i: int| 0 <= i < list.len() implies ({
        let r = #[trigger] list[i];
        &&& r.tenant_id == other
        &&& r.session_id == session_id
        &&& b.contains_key(r.key())
        &&& b[r.key()] == r
    }) by {
        let r = list[i];
        assert(a.contains_key(r.key()));
    }
    assert forall|key: Key| #[trigger]
        b.contains_key(key) && b[key].tenant_id == other && b[key].session_id
            == session_id implies list.contains(b[key]) by {
        assert(b[key].key() == key);
        assert(a.contains_key(key));
        assert(a[key] == b[key]);
    }
}

impl InMemoryResponseStorage {
    /// The records, in the order in which they are held.
    pub closed spec fn held(&self) -> Seq<Record> {
        records::records(self.items@)
    }

    /// A storage that holds nothing.
    pub fn new() -> (res: Self)
        ensures
            res.well_formed(),
            res.contents() == Map::<Key, Record>::empty(),
    {
        let res = InMemoryResponseStorage { items: Vec::new() };
        assert(res.contents() =~= Map::empty()) by {
            assert forall|key: Key| !res.contents().contains_key(key) by {
                contents_without(res.held(), key);
            }
        }
        res
    }

    /// The key of a response as one text: its tenant and its identifier, which
    /// tell it apart from every other. `{tenant_id}:responses:{response_id}`.
    pub fn make_key(tenant_id: &str, response_id: &str) -> (res: String)
        ensures
            res@ == key_text(tenant_id@, response_id@),
    {
        text::join3(tenant_id, ":responses:", response_id)
    }

    fn find(&self, tenant_id: &str, session_id: &str, response_id: &str) -> (res: Option<usize>)
        ensures
            match res {
                Some(i) => i < self.items@.len() && self.held()[i as int].key() == (
                    tenant_id@,
                    session_id@,
                    response_id@,
                ),
                None => forall|i: int|
                    0 <= i < self.held().len() ==> (#[trigger] self.held()[i]).key() != (
                        tenant_id@,
                        session_id@,
                        response_id@,
                    ),
            },
    {
        let mut i: usize = 0;
        while i < self.items.len()
            invariant
                i <= self.items.len(),
                forall|j: int|
                    0 <= j < i ==> (#[trigger] self.held()[j]).key() != (
                        tenant_id@,
                        session_id@,
                        response_id@,
                    ),
            decreases self.items.len() - i,
        {
            let item = &self.items[i];
            if text_eq(item.tenant_id.as_str(), tenant_id) && text_eq(
                item.session_id.as_str(),
                session_id,
            ) && text_eq(item.response_id.as_str(), response_id) {
                return Some(i);
            }
            i = i + 1;
        }
        None
    }

    /// The place of some copy of a response.
    fn find_any(&self, tenant_id: &str, response_id: &str) -> (res: Option<usize>)
        ensures
            match res {
                Some(i) => i < self.items@.len() && self.held()[i as int].tenant_id == tenant_id@
                    && self.held()[i as int].response_id == response_id@,
                None => forall|i: int|
                    0 <= i < self.held().len() ==> !((#[trigger] self.held()[i]).tenant_id
                        == tenant_id@ && self.held()[i].response_id == response_id@),
            },
    {
        let mut i: usize = 0;
        while i < self.items.len()
            invariant
                i <= self.items.len(),
                forall|j: int|
                    0 <= j < i ==> !((#[trigger] self.held()[j]).tenant_id == tenant_id@
                        && self.held()[j].response_id == response_id@),
            decreases self.items.len() - i,
        {
            let item = &self.items[i];
            if text_eq(item.tenant_id.as_str(), tenant_id) && text_eq(
                item.response_id.as_str(),
                response_id,
            ) {
                return Some(i);
            }
            i = i + 1;
        }
        None
    }

    /// Whether some copy of a response can expire.
    fn has_end(&self, tenant_id: &str, response_id: &str) -> (res: bool)
        requires
            self.well_formed(),
        ensures
            res == can_expire(self.contents(), tenant_id@, response_id@),
    {
        let ghost contents = self.contents();
        let mut i: usize = 0;
        while i < self.items.len()
            invariant
                i <= self.items.len(),
                self.well_formed(),
                contents == self.contents(),
                forall|j: int|
                    0 <= j < i ==> !((#[trigger] self.held()[j]).tenant_id == tenant_id@
                        && self.held()[j].response_id == response_id@
                        && self.held()[j].expires_at is Some),
            decreases self.items.len() - i,
        {
            let item = &self.items[i];
            if item.expires_at.is_some() && text_eq(item.tenant_id.as_str(), tenant_id) && text_eq(
                item.response_id.as_str(),
                response_id,
            ) {
                proof {
                    contents_at(self.held(), i as int);
                    assert(expires_in(contents, tenant_id@, item.session_id@, response_id@));
                }
                return true;
            }
            i = i + 1;
        }
        assert forall|session_id: Seq<char>| !#[trigger] expires_in(
            contents,
            tenant_id@,
            session_id,
            response_id@,
        ) by {
            let key = (tenant_id@, session_id, response_id@);
            if contents.contains_key(key) {
                let j = contents_from(self.held(), key);
                assert(self.held()[j].key() == key);
            }
        }
        false
    }

    /// Removes a response from every session that has it.
    fn remove_all(&mut self, tenant_id: &str, response_id: &str)
        requires
            old(self).well_formed(),
        ensures
            final(self).well_formed(),
            final(self).contents() == without_response(
                old(self).contents(),
                tenant_id@,
                response_id@,
            ),
    {
        let ghost before = self.contents();
        let mut next: Option<usize> = self.find_any(tenant_id, response_id);
        while next.is_some()
            invariant
                self.well_formed(),
                before == old(self).contents(),
                forall|key: Key| #[trigger]
                    self.contents().contains_key(key) ==> before.contains_key(key)
                        && self.contents()[key] == before[key],
                forall|key: Key| #[trigger]
                    before.contains_key(key) && !(key.0 == tenant_id@ && key.2 == response_id@)
                        ==> self.contents().contains_key(key),
                match next {
                    Some(i) => i < self.items@.len() && self.held()[i as int].tenant_id
                        == tenant_id@ && self.held()[i as int].response_id == response_id@,
                    None => forall|i: int|
                        0 <= i < self.held().len() ==> !((#[trigger] self.held()[i]).tenant_id
                            == tenant_id@ && self.held()[i].response_id == response_id@),
                },
            decreases self.items@.len(),
        {
            let ghost now_held = self.held();
            let ghost prior = self.contents();
            if let Some(i) = next {
                proof {
                    contents_removed(now_held, i as int);
                }
                let _gone = self.items.remove(i);
                assert(self.held() =~= now_held.remove(i as int));
                assert(self.contents() == prior.remove(now_held[i as int].key()));
            }
            next = self.find_any(tenant_id, response_id);
        }
        proof {
            let want = without_response(before, tenant_id@, response_id@);
            assert forall|key: Key| #[trigger] self.contents().contains_key(key) == want.contains_key(
                key,
            ) by {
                if self.contents().contains_key(key) {
                    let i = contents_from(self.held(), key);
                    assert(self.held()[i].key() == key);
                }
            }
            assert(self.contents() =~= want);
        }
    }

    /// Puts a response beside the copies of other sessions.
    fn put(&mut self, stored: StoredResponse)
        requires
            old(self).well_formed(),
        ensures
            final(self).well_formed(),
            final(self).contents() == with_copy(old(self).contents(), stored@),
    {
        let ghost before = self.held();
        let ghost record = stored@;
        match self.find(
            stored.tenant_id.as_str(),
            stored.session_id.as_str(),
            stored.response_id.as_str(),
        ) {
            Some(i) => {
                self.items.set(i, stored);
                assert(before[i as int].key() == record.key());
                assert(self.held() =~= before.update(i as int, record));
            },
            None => {
                self.items.push(stored);
                assert(self.held() =~= before.push(record));
            },
        }
        proof {
            contents_put(before, self.held(), record);
        }
    }

    /// Stores a response at `now`, in the place of whatever the tenant had under
    /// its identifier.
    pub fn store_response_at(
        &mut self,
        tenant_id: &str,
        session_id: &str,
        response_id: &str,
        response: JsonValue,
        ttl: Option<Duration>,
        now: u64,
    )
        requires
            old(self).well_formed(),
            expiry_fits(now, ttl),
        ensures
            final(self).well_formed(),
            final(self).contents() == with_record(
                old(self).contents(),
                new_record(tenant_id@, session_id@, response_id@, response@, ttl, now),
            ),
    {
        self.remove_all(tenant_id, response_id);
        self.put(
            StoredResponse {
                response_id: owned(response_id),
                tenant_id: owned(tenant_id),
                session_id: owned(session_id),
                response,
                created_at: now,
                expires_at: expires_at(now, ttl),
            },
        );
    }

    /// Puts a copy of a response in a session at what a clock says, beside the
    /// copies of other sessions and without a time to live. Nothing is put where
    /// the clock stands before the Unix epoch.
    pub fn store_copy_by_clock(
        &mut self,
        tenant_id: &str,
        session_id: &str,
        response_id: &str,
        response: JsonValue,
        reading: Option<u64>,
    ) -> (res: Result<(), StorageError>)
        requires
            old(self).well_formed(),
        ensures
            final(self).well_formed(),
            copied_by_clock(
                old(self).contents(),
                tenant_id@,
                session_id@,
                response_id@,
                response@,
                reading,
                res,
                final(self).contents(),
            ),
    {
        match reading {
            Some(now) => {
                self.put(
                    StoredResponse {
                        response_id: owned(response_id),
                        tenant_id: owned(tenant_id),
                        session_id: owned(session_id),
                        response,
                        created_at: now,
                        expires_at: None,
                    },
                );
                Ok(())
            },
            None => Err(clock_error()),
        }
    }

    /// Stores a response at what a clock says: at a time, or before the Unix
    /// epoch, where nothing can be stored. Nor is anything stored where the time
    /// to live reaches past the last time that can be held.
    pub fn store_response_by_clock(
        &mut self,
        tenant_id: &str,
        session_id: &str,
        response_id: &str,
        response: JsonValue,
        ttl: Option<Duration>,
        reading: Option<u64>,
    ) -> (res: Result<(), StorageError>)
        requires
            old(self).well_formed(),
        ensures
            final(self).well_formed(),
            stored_by_clock(
                old(self).contents(),
                tenant_id@,
                session_id@,
                response_id@,
                response@,
                ttl,
                reading,
                res,
                final(self).contents(),
            ),
    {
        match reading {
            Some(now) => if expiry_can_be_held(now, ttl) {
                self.store_response_at(tenant_id, session_id, response_id, response, ttl, now);
                Ok(())
            } else {
                Err(StorageError::BackendError(owned("time to live is too long to be held")))
            },
            None => Err(clock_error()),
        }
    }

    /// The response that is found at `now`.
    pub fn get_response_at(
        &self,
        tenant_id: &str,
        session_id: &str,
        response_id: &str,
        now: u64,
    ) -> (res: Result<StoredResponse, StorageError>)
        requires
            self.well_formed(),
        ensures
            match lookup(self.contents(), tenant_id@, session_id@, response_id@, now) {
                Some(record) => res matches Ok(found) && found@ == record,
                None => res matches Err(e) && e is NotFound,
            },
    {
        proof {
            shown_is_looked_up(self.held(), tenant_id@, session_id@, response_id@, now);
        }
        match find_copy(&self.items, tenant_id, session_id, response_id, now) {
            Some(i) => Ok(self.items[i].duplicate()),
            None => Err(StorageError::NotFound),
        }
    }

    /// The response that is found at what a clock says: at a time, or before the
    /// Unix epoch, which is an error where the response can expire.
    pub fn get_response_by_clock(
        &self,
        tenant_id: &str,
        session_id: &str,
        response_id: &str,
        reading: Option<u64>,
    ) -> (res: Result<StoredResponse, StorageError>)
        requires
            self.well_formed(),
        ensures
            found_by_clock(
                self.contents(),
                tenant_id@,
                session_id@,
                response_id@,
                reading,
                res,
            ),
    {
        match reading {
            Some(now) => self.get_response_at(tenant_id, session_id, response_id, now),
            None => if self.has_end(tenant_id, response_id) {
                Err(clock_error())
            } else {
                self.get_response_at(tenant_id, session_id, response_id, 0)
            },
        }
    }
}

/// Whether a session has a copy of a response that can expire.
pub open spec fn expires_in(
    contents: Contents,
    tenant_id: Seq<char>,
    session_id: Seq<char>,
    response_id: Seq<char>,
) -> bool {
    let key = (tenant_id, session_id, response_id);
    contents.contains_key(key) && contents[key].expires_at is Some
}

/// Whether a tenant's response can expire in some session.
pub open spec fn can_expire(
    contents: Contents,
    tenant_id: Seq<char>,
    response_id: Seq<char>,
) -> bool {
    exists|session_id: Seq<char>| #[trigger]
        expires_in(contents, tenant_id, session_id, response_id)
}

/// Whether an error says that the clock stands before the Unix epoch.
pub open spec fn says_clock_unusable(e: StorageError) -> bool {
    e matches StorageError::BackendError(why) && why@
        == "System time error: the clock stands before the Unix epoch"@
}

/// Whether an error says that a time to live is too long.
pub open spec fn says_too_long(e: StorageError) -> bool {
    e matches StorageError::BackendError(why) && why@ == "time to live is too long to be held"@
}

/// What comes of storing a response at what a clock says.
pub open spec fn stored_by_clock(
    before: Contents,
    tenant_id: Seq<char>,
    session_id: Seq<char>,
    response_id: Seq<char>,
    response: Json,
    ttl: Option<Duration>,
    reading: Option<u64>,
    res: Result<(), StorageError>,
    after: Contents,
) -> bool {
    match reading {
        Some(now) => if expiry_fits(now, ttl) {
            res is Ok && after == with_record(
                before,
                new_record(tenant_id, session_id, response_id, response, ttl, now),
            )
        } else {
            (res matches Err(e) && says_too_long(e)) && after == before
        },
        None => (res matches Err(e) && says_clock_unusable(e)) && after == before,
    }
}

/// What comes of putting a copy of a response at what a clock says.
pub open spec fn copied_by_clock(
    before: Contents,
    tenant_id: Seq<char>,
    session_id: Seq<char>,
    response_id: Seq<char>,
    response: Json,
    reading: Option<u64>,
    res: Result<(), StorageError>,
    after: Contents,
) -> bool {
    match reading {
        Some(now) => res is Ok && after == with_copy(
            before,
            new_record(tenant_id, session_id, response_id, response, None, now),
        ),
        None => (res matches Err(e) && says_clock_unusable(e)) && after == before,
    }
}

/// What comes of looking for a response at what a clock says.
pub open spec fn found_by_clock(
    contents: Contents,
    tenant_id: Seq<char>,
    session_id: Seq<char>,
    response_id: Seq<char>,
    reading: Option<u64>,
    res: Result<StoredResponse, StorageError>,
) -> bool {
    if reading is None && can_expire(contents, tenant_id, response_id) {
        res matches Err(e) && says_clock_unusable(e)
    } else {
        let now = match reading {
            Some(now) => now,
            None => 0,
        };
        match lookup(contents, tenant_id, session_id, response_id, now) {
            Some(record) => res matches Ok(found) && found@ == record,
            None => res matches Err(e) && e is NotFound,
        }
    }
}

/// A store's outcome without the identifier.
pub open spec fn outcome(res: Result<String, StorageError>) -> Result<(), StorageError> {
    match res {
        Ok(_) => Ok(()),
        Err(e) => Err(e),
    }
}

/// The key of a response as one text.
pub open spec fn key_text(tenant_id: Seq<char>, response_id: Seq<char>) -> Seq<char> {
    tenant_id + ":responses:"@ + response_id
}

/// Keys written as one text tell responses apart where no tenant has a colon.
pub proof fn key_text_tells_apart(
    tenant_a: Seq<char>,
    response_a: Seq<char>,
    tenant_b: Seq<char>,
    response_b: Seq<char>,
)
    requires
        !tenant_a.contains(':'),
        !tenant_b.contains(':'),
        key_text(tenant_a, response_a) == key_text(tenant_b, response_b),
    ensures
        tenant_a == tenant_b,
        response_a == response_b,
{
    reveal_strlit(":responses:");
    let key = key_text(tenant_a, response_a);
    let mark = ":responses:"@;
    assert(key[tenant_a.len() as int] == ':');
    assert(key_text(tenant_b, response_b)[tenant_b.len() as int] == ':');
    if tenant_a.len() < tenant_b.len() {
        assert(key_text(tenant_b, response_b)[tenant_a.len() as int]
            == tenant_b[tenant_a.len() as int]);
    }
    if tenant_b.len() < tenant_a.len() {
        assert(key[tenant_b.len() as int] == tenant_a[tenant_b.len() as int]);
    }
    assert(tenant_a =~= key.take(tenant_a.len() as int));
    assert(tenant_b =~= key_text(tenant_b, response_b).take(tenant_b.len() as int));
    let n = tenant_a.len() as int + mark.len();
    assert(response_a =~= key.skip(n));
    assert(response_b =~= key_text(tenant_b, response_b).skip(n));
}

impl Default for InMemoryResponseStorage {
    fn default() -> (res: Self)
        ensures
            res.well_formed(),
            res.contents() == Map::<Key, Record>::empty(),
    {
        Self::new()
    }
}

/// The error for a clock that cannot be used.
fn clock_error() -> (res: StorageError)
    ensures
        says_clock_unusable(res),
{
    StorageError::BackendError(owned("System time error: the clock stands before the Unix epoch"))
}

impl ResponseStorage for InMemoryResponseStorage {
    closed spec fn contents(&self) -> Contents {
        contents_of(self.held())
    }

    closed spec fn well_formed(&self) -> bool {
        keys_distinct(self.held())
    }

    /// Stores a response at what the system clock says. It fails where the
    /// clock stands before the Unix epoch, or the time to live reaches past
    /// the last time that can be held; then nothing is stored.
    fn store_response(
        &mut self,
        tenant_id: &str,
        session_id: &str,
        response_id: Option<&str>,
        response: JsonValue,
        ttl: Option<Duration>,
    ) -> (res: Result<String, StorageError>)
        ensures
            res matches Ok(id) ==> response_id is None ==> ids::hyphenated_uuid(id@),
            exists|id: Seq<char>, reading: Option<u64>|
                {
                    &&& res matches Ok(given) ==> id == given@
                    &&& #[trigger] stored_by_clock(
                        old(self).contents(),
                        tenant_id@,
                        session_id@,
                        id,
                        response@,
                        ttl,
                        reading,
                        outcome(res),
                        final(self).contents(),
                    )
                },
    {
        let id = match response_id {
            Some(given) => owned(given),
            None => ids::new_id(),
        };
        let reading = read_unix_seconds();
        let ghost before = self.contents();
        let ghost stored = response@;
        match self.store_response_by_clock(
            tenant_id,
            session_id,
            id.as_str(),
            response,
            ttl,
            reading,
        ) {
            Ok(_) => {
                proof {
                    let now = reading->0;
                    response_storage::store_is_isolated(
                        before,
                        new_record(tenant_id@, session_id@, id@, stored, ttl, now),
                    );
                    assert(stored_by_clock(
                        before,
                        tenant_id@,
                        session_id@,
                        id@,
                        stored,
                        ttl,
                        reading,
                        Ok(()),
                        self.contents(),
                    ));
                }
                Ok(id)
            },
            Err(e) => {
                assert(stored_by_clock(
                    before,
                    tenant_id@,
                    session_id@,
                    id@,
                    stored,
                    ttl,
                    reading,
                    Err(e),
                    self.contents(),
                ));
                Err(e)
            },
        }
    }

    /// The response of a tenant with the given identifier: the session's own
    /// copy, else another session's. The clock is read only where the response
    /// can expire.
    fn get_response(&self, tenant_id: &str, session_id: &str, response_id: &str) -> (res: Result<
        StoredResponse,
        StorageError,
    >)
        ensures
            exists|reading: Option<u64>| #[trigger]
                found_by_clock(
                    self.contents(),
                    tenant_id@,
                    session_id@,
                    response_id@,
                    reading,
                    res,
                ),
            !can_expire(self.contents(), tenant_id@, response_id@) ==> found_by_clock(
                self.contents(),
                tenant_id@,
                session_id@,
                response_id@,
                None,
                res,
            ),
    {
        let reading: Option<u64> = if self.has_end(tenant_id, response_id) {
            read_unix_seconds()
        } else {
            None
        };
        self.get_response_by_clock(tenant_id, session_id, response_id, reading)
    }

    /// Deletes the response of a tenant with the given identifier, in whatever
    /// sessions it has copies and whether or not they have expired.
    fn delete_response(&mut self, tenant_id: &str, session_id: &str, response_id: &str) -> (res:
        Result<(), StorageError>)
        ensures
            match res {
                Ok(_) => has_response(old(self).contents(), tenant_id@, response_id@),
                Err(e) => {
                    &&& e is NotFound
                    &&& !has_response(old(self).contents(), tenant_id@, response_id@)
                    &&& final(self).contents() == old(self).contents()
                },
            },
    {
        let ghost before = self.contents();
        let ghost held = self.held();
        match self.find_any(tenant_id, response_id) {
            Some(i) => {
                proof {
                    contents_at(held, i as int);
                    assert(before.contains_key(
                        (tenant_id@, held[i as int].session_id, response_id@),
                    ));
                }
            },
            None => {
                proof {
                    assert forall|session: Seq<char>| !#[trigger] before.contains_key(
                        (tenant_id@, session, response_id@),
                    ) by {
                        contents_without(held, (tenant_id@, session, response_id@));
                    }
                }
                return Err(StorageError::NotFound);
            },
        }
        self.remove_all(tenant_id, response_id);
        Ok(())
    }

    /// The responses of a session in order, expired or not.
    fn list_responses(
        &self,
        tenant_id: &str,
        session_id: &str,
        limit: Option<usize>,
        after: Option<&str>,
    ) -> (res: Result<Vec<StoredResponse>, StorageError>)
        ensures
            res is Ok,
            is_listing(
                self.contents(),
                tenant_id@,
                session_id@,
                listing(self.contents(), tenant_id@, session_id@),
            ),
            res matches Ok(list) ==> records::records(list@) == page(
                listing(self.contents(), tenant_id@, session_id@),
                limit,
                opt_chars(after),
            ),
    {
        let mut found: Vec<StoredResponse> = Vec::new();
        let ghost all = self.held();
        let ghost mut from: Seq<int> = Seq::empty();
        let mut i: usize = 0;
        while i < self.items.len()
            invariant
                i <= self.items.len(),
                all == self.held(),
                from.len() == found.len(),
                forall|k: int|
                    0 <= k < from.len() ==> 0 <= #[trigger] from[k] < i && all[from[k]]
                        == found@[k]@ && all[from[k]].tenant_id == tenant_id@
                        && all[from[k]].session_id == session_id@,
                forall|k: int, m: int| 0 <= k < m < from.len() ==> from[k] < from[m],
                forall|j: int|
                    0 <= j < i && (#[trigger] all[j]).tenant_id == tenant_id@ && all[j].session_id
                        == session_id@ ==> from.contains(j),
            decreases self.items.len() - i,
        {
            let item = &self.items[i];
            let ghost prior = from;
            if text_eq(item.tenant_id.as_str(), tenant_id) && text_eq(
                item.session_id.as_str(),
                session_id,
            ) {
                found.push(item.duplicate());
                proof {
                    from = from.push(i as int);
                    assert(from[prior.len() as int] == i);
                    assert forall|j: int|
                        0 <= j < i + 1 && (#[trigger] all[j]).tenant_id == tenant_id@
                            && all[j].session_id == session_id@ implies from.contains(j) by {
                        if j < i {
                            let k = choose|k: int| 0 <= k < prior.len() && prior[k] == j;
                            assert(from[k] == j);
                        }
                    }
                }
            }
            i = i + 1;
        }
        let ghost picked = records::records(found@);
        let sorted = sort_responses(found);
        proof {
            sorted_is_listing(all, picked, from, tenant_id@, session_id@);
            listing_unique(
                self.contents(),
                tenant_id@,
                session_id@,
                records::records(sorted@),
            );
            let list = records::records(sorted@);
            listing_is_session_list(self.contents(), tenant_id@, session_id@, list);
        }
        Ok(take_page(sorted, limit, after))
    }

    /// Puts a copy of a response in a session at what the system clock says. It
    /// fails where the clock stands before the Unix epoch; then nothing is put.
    fn store_copy(
        &mut self,
        tenant_id: &str,
        session_id: &str,
        response_id: &str,
        response: JsonValue,
    ) -> (res: Result<(), StorageError>)
        ensures
            exists|reading: Option<u64>| #[trigger]
                copied_by_clock(
                    old(self).contents(),
                    tenant_id@,
                    session_id@,
                    response_id@,
                    response@,
                    reading,
                    res,
                    final(self).contents(),
                ),
    {
        let reading = read_unix_seconds();
        let ghost before = self.contents();
        let ghost kept = response@;
        let res = self.store_copy_by_clock(tenant_id, session_id, response_id, response, reading);
        proof {
            assert(copied_by_clock(
                before,
                tenant_id@,
                session_id@,
                response_id@,
                kept,
                reading,
                res,
                self.contents(),
            ));
            if let Some(now) = reading {
                let record = new_record(
                    tenant_id@,
                    session_id@,
                    response_id@,
                    kept,
                    None,
                    now,
                );
                assert(self.contents() == with_copy(before, record));
            }
        }
        res
    }

    /// Puts copies of responses in a session, each at what the system clock then
    /// says, beside the copies of other sessions. It ends
    /// where the clock stands before the Unix epoch.
    fn store_copies(
        &mut self,
        tenant_id: &str,
        session_id: &str,
        selection: &Vec<StoredResponse>,
    ) -> (res: Result<usize, StorageError>)
        ensures
            match res {
                Ok(_) => all_copied(
                    old(self).contents(),
                    records::records(selection@),
                    tenant_id@,
                    session_id@,
                    final(self).contents(),
                ),
                Err(e) => says_clock_unusable(e) && copy_stopped(
                    old(self).contents(),
                    records::records(selection@),
                    tenant_id@,
                    session_id@,
                    final(self).contents(),
                ),
            },
    {
        let ghost before = self.contents();
        let ghost selected = records::records(selection@);
        let ghost mut times: Seq<u64> = Seq::empty();
        let mut i: usize = 0;
        while i < selection.len()
            invariant
                i <= selection.len(),
                before == old(self).contents(),
                selected == records::records(selection@),
                self.well_formed(),
                times.len() == i,
                same_for_others(before, self.contents(), tenant_id@),
                self.contents() == copied(
                    before,
                    selected.take(i as int),
                    tenant_id@,
                    session_id@,
                    times,
                ),
            decreases selection.len() - i,
        {
            let reading = read_unix_seconds();
            let ghost prior = self.contents();
            let item = &selection[i];
            match self.store_copy_by_clock(
                tenant_id,
                session_id,
                item.response_id.as_str(),
                item.response.duplicate(),
                reading,
            ) {
                Ok(_) => {},
                Err(e) => {
                    proof {
                        assert(first_copied(
                            before,
                            selected,
                            tenant_id@,
                            session_id@,
                            i as int,
                            prior,
                        ));
                        assert(copy_stopped(
                            before,
                            selected,
                            tenant_id@,
                            session_id@,
                            prior,
                        ));
                    }
                    return Err(e);
                },
            }
            let ghost now = reading->0;
            proof {
                assert(selected.take(i + 1).drop_last() =~= selected.take(i as int));
                assert(times.push(now).drop_last() =~= times);
                times = times.push(now);
            }
            i = i + 1;
        }
        assert(selected.take(i as int) =~= selected);
        Ok(i)
    }

    /// Forks a session: the target session gets copies, and the source session,
    /// unless it is the target, lists what it did before.
    fn fork_session(
        &mut self,
        tenant_id: &str,
        source_session_id: &str,
        target_session_id: &str,
        up_to_response_id: Option<&str>,
    ) -> (res: Result<usize, StorageError>)
        ensures
            match res {
                Ok(n) => fork_of(
                    old(self).contents(),
                    listing(old(self).contents(), tenant_id@, source_session_id@),
                    tenant_id@,
                    target_session_id@,
                    opt_chars(up_to_response_id),
                    n as int,
                    final(self).contents(),
                ),
                Err(e) => says_clock_unusable(e) && copy_stopped(
                    old(self).contents(),
                    fork_selection(
                        listing(old(self).contents(), tenant_id@, source_session_id@),
                        opt_chars(up_to_response_id),
                    ),
                    tenant_id@,
                    target_session_id@,
                    final(self).contents(),
                ),
            },
            source_session_id@ != target_session_id@ ==> listing(
                final(self).contents(),
                tenant_id@,
                source_session_id@,
            ) == listing(old(self).contents(), tenant_id@, source_session_id@),
    {
        let list = match self.list_responses(tenant_id, source_session_id, None, None) {
            Ok(list) => list,
            Err(e) => {
                return Err(e);
            },
        };
        let ghost before = self.contents();
        let ghost all = listing(before, tenant_id@, source_session_id@);
        proof {
            keyed_by_place(self.held());
            listing_is_session_list(before, tenant_id@, source_session_id@, all);
        }
        let selection = select_for_fork(list, up_to_response_id);
        let ghost selected = records::records(selection@);
        let res = self.store_copies(tenant_id, target_session_id, &selection);
        proof {
            if source_session_id@ != target_session_id@ {
                let some: Seq<Record> = match res {
                    Ok(_) => selected,
                    Err(_) => {
                        let n = choose|n: int| #[trigger]
                            first_copied(
                                before,
                                selected,
                                tenant_id@,
                                target_session_id@,
                                n,
                                self.contents(),
                            );
                        selected.take(n)
                    },
                };
                assert(all_copied(
                    before,
                    some,
                    tenant_id@,
                    target_session_id@,
                    self.contents(),
                ));
                copies_keep_listing(
                    before,
                    some,
                    tenant_id@,
                    target_session_id@,
                    self.contents(),
                    source_session_id@,
                    all,
                );
            }
        }
        res
    }
}

/// A session's list shows it by time, each record once.
proof fn listing_is_session_list(
    contents: Contents,
    tenant_id: Seq<char>,
    session_id: Seq<char>,
    list: Seq<Record>,
)
    requires
        is_listing(contents, tenant_id, session_id, list),
    ensures
        session_list(list, contents, tenant_id, session_id),
{
    listing_ids_distinct(contents, tenant_id, session_id, list);
    assert forall|i: int, j: int| 0 <= i < j < list.len() implies (#[trigger] list[i]).created_at
        <= (#[trigger] list[j]).created_at by {
        assert(earlier(list[i], list[j]));
    }
    assert forall|i: int, j: int|
        0 <= i < list.len() && 0 <= j < list.len() && i != j implies list[i] != list[j] by {
        if i < j {
            assert(list[i].response_id != list[j].response_id);
        } else {
            assert(list[j].response_id != list[i].response_id);
        }
    }
}

/// Storing copies in one session leaves the list of every other as it was.
pub proof fn copies_keep_listing(
    before: Contents,
    selection: Seq<Record>,
    tenant_id: Seq<char>,
    target_session_id: Seq<char>,
    after: Contents,
    session_id: Seq<char>,
    list: Seq<Record>,
)
    requires
        keyed(before),
        all_copied(
            before,
            selection,
            tenant_id,
            target_session_id,
            after,
        ),
        session_id != target_session_id,
        is_listing(before, tenant_id, session_id, list),
    ensures
        is_listing(after, tenant_id, session_id, list),
        listing(after, tenant_id, session_id) == list,
{
    let times = choose|times: Seq<u64>|
        times.len() == selection.len() && after == #[trigger] copied(
            before,
            selection,
            tenant_id,
            target_session_id,
            times,
        );
    copies_stay_in_session(before, selection, tenant_id, target_session_id, times);
    assert forall|i: int| 0 <= i < list.len() implies ({
        let r = #[trigger] list[i];
        &&& r.tenant_id == tenant_id
        &&& r.session_id == session_id
        &&& after.contains_key(r.key())
        &&& after[r.key()] == r
    }) by {
        assert(before.contains_key(list[i].key()));
        assert(after.contains_key(list[i].key()));
    }
    assert forall|key: Key| #[trigger]
        after.contains_key(key) && after[key].tenant_id == tenant_id && after[key].session_id
            == session_id implies list.contains(after[key]) by {
        assert(after[key].key() == key);
        assert(before.contains_key(key));
    }
    listing_unique(after, tenant_id, session_id, list);
}

/// Whether a record has the identifier and the content of one of a selection.
pub open spec fn copy_of(selection: Seq<Record>, r: Record) -> bool {
    exists|i: int|
        0 <= i < selection.len() && (#[trigger] selection[i]).response_id == r.response_id
            && selection[i].response == r.response
}

/// A session into which a selection has been copied lists just that selection,
/// by identifier and content, and what else it had before.
pub proof fn fork_lists_selection(
    before: Contents,
    selection: Seq<Record>,
    tenant_id: Seq<char>,
    session_id: Seq<char>,
    after: Contents,
    list: Seq<Record>,
)
    requires
        keyed(before),
        all_copied(before, selection, tenant_id, session_id, after),
        forall|i: int, j: int|
            0 <= i < j < selection.len() ==> (#[trigger] selection[i]).response_id != (
            #[trigger] selection[j]).response_id,
        is_listing(after, tenant_id, session_id, list),
    ensures
        forall|id: Seq<char>| #[trigger]
            selects(list, id) <==> selects(selection, id) || before.contains_key(
                (tenant_id, session_id, id),
            ),
        forall|j: int|
            0 <= j < list.len() && selects(selection, (#[trigger] list[j]).response_id)
                ==> copy_of(selection, list[j]),
{
    let times = choose|times: Seq<u64>|
        times.len() == selection.len() && after == #[trigger] copied(
            before,
            selection,
            tenant_id,
            session_id,
            times,
        );
    response_storage::fork_fills_target(before, selection, tenant_id, session_id, times);
    copies_stay_in_session(before, selection, tenant_id, session_id, times);
    assert forall|id: Seq<char>| #[trigger] selects(list, id) <==> selects(selection, id)
        || before.contains_key((tenant_id, session_id, id)) by {
        let key = (tenant_id, session_id, id);
        if selects(selection, id) {
            let i = choose|i: int|
                0 <= i < selection.len() && (#[trigger] selection[i]).response_id == id;
            assert(after.contains_key((tenant_id, session_id, selection[i].response_id)));
        }
        assert(after.contains_key(key) == (selects(selection, id) || before.contains_key(key)));
        if after.contains_key(key) {
            assert(after[key].key() == key);
            assert(list.contains(after[key]));
            let j = choose|j: int| 0 <= j < list.len() && list[j] == after[key];
            assert(list[j].response_id == id);
        }
        if selects(list, id) {
            let j = choose|j: int| 0 <= j < list.len() && (#[trigger] list[j]).response_id == id;
            assert(list[j].key() == key);
        }
    }
    assert forall|j: int|
        0 <= j < list.len() && selects(
            selection,
            (#[trigger] list[j]).response_id,
        ) implies copy_of(selection, list[j]) by {
        let i = choose|i: int|
            0 <= i < selection.len() && (#[trigger] selection[i]).response_id
                == list[j].response_id;
        let key = (tenant_id, session_id, selection[i].response_id);
        assert(after.contains_key(key));
        assert(list[j].key() == key);
        assert(selection[i].response == list[j].response);
    }
}

proof fn sorted_is_listing(
    all: Seq<Record>,
    picked: Seq<Record>,
    from: Seq<int>,
    tenant_id: Seq<char>,
    session_id: Seq<char>,
)
    requires
        keys_distinct(all),
        from.len() == picked.len(),
        forall|k: int|
            0 <= k < from.len() ==> 0 <= #[trigger] from[k] < all.len() && all[from[k]] == picked[k]
                && all[from[k]].tenant_id == tenant_id && all[from[k]].session_id == session_id,
        forall|k: int, m: int| 0 <= k < m < from.len() ==> from[k] < from[m],
        forall|j: int|
            0 <= j < all.len() && (#[trigger] all[j]).tenant_id == tenant_id && all[j].session_id
                == session_id ==> from.contains(j),
    ensures
        is_listing(contents_of(all), tenant_id, session_id, in_order(picked)),
{
    broadcast use vstd::seq_lib::group_to_multiset_ensures;

    let list = in_order(picked);
    let contents = contents_of(all);
    records::in_order_sorts(picked);
    assert forall|r: Record| #[trigger] list.contains(r) <==> picked.contains(r) by {
        assert(list.to_multiset().count(r) == picked.to_multiset().count(r));
    }
    assert forall|i: int| 0 <= i < list.len() implies ({
        let r = #[trigger] list[i];
        &&& r.tenant_id == tenant_id
        &&& r.session_id == session_id
        &&& contents.contains_key(r.key())
        &&& contents[r.key()] == r
    }) by {
        assert(list.contains(list[i]));
        let k = choose|k: int| 0 <= k < picked.len() && picked[k] == list[i];
        assert(all[from[k]] == picked[k]);
        contents_at(all, from[k]);
    }
    assert forall|key: Key| #[trigger]
        contents.contains_key(key) && contents[key].tenant_id == tenant_id
            && contents[key].session_id == session_id implies list.contains(contents[key]) by {
        let j = contents_from(all, key);
        assert(from.contains(j));
        let k = choose|k: int| 0 <= k < from.len() && from[k] == j;
        assert(picked[k] == all[from[k]]);
        assert(picked.contains(contents[key]));
    }
    assert(picked.no_duplicates()) by {
        assert forall|k: int, m: int| 0 <= k < picked.len() && 0 <= m < picked.len() && k
            != m implies picked[k] != picked[m] by {
            if k < m {
                assert(from[k] < from[m]);
                assert(all[from[k]].key() != all[from[m]].key());
            } else {
                assert(from[m] < from[k]);
                assert(all[from[m]].key() != all[from[k]].key());
            }
        }
    }
    picked.lemma_multiset_has_no_duplicates();
    list.lemma_multiset_has_no_duplicates_conv();
    assert forall|i: int, j: int| 0 <= i < j < list.len() implies earlier(
        #[trigger] list[i],
        #[trigger] list[j],
    ) by {
        assert(list[i] != list[j]);
        if list[i].response_id == list[j].response_id {
            assert(list[i].key() == list[j].key());
            assert(contents[list[i].key()] == list[i]);
            assert(contents[list[j].key()] == list[j]);
        } else {
            records::earlier_total(list[i], list[j]);
        }
    }
}

} // verus!
