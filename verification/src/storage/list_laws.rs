//! What holds of lists of stored responses: their order, their pages, and what of
//! them is copied or shown. Stated on what goes in and what comes out.

use crate::storage::records;
use crate::storage::records::{
    find_copy, find_response, is_preferred, sort_responses, take_page, Record, StoredResponse,
};
use crate::storage::response_storage::{fork_step, select_for_fork, ForkStep, StorageError};
use crate::text;
use vstd::prelude::*;

verus! {

/// Whether two stored responses are the same in everything that they hold.
pub open spec fn same_stored(a: StoredResponse, b: StoredResponse) -> bool {
    &&& a.response_id@ == b.response_id@
    &&& a.tenant_id@ == b.tenant_id@
    &&& a.session_id@ == b.session_id@
    &&& a.response@ == b.response@
    &&& a.created_at == b.created_at
    &&& a.expires_at == b.expires_at
}

/// Whether no two stored responses have the same identifier.
pub open spec fn ids_differ(list: Seq<StoredResponse>) -> bool {
    forall|i: int, j: int|
        0 <= i < j < list.len() ==> (#[trigger] list[i]).response_id@ != (
        #[trigger] list[j]).response_id@
}

/// Whether a part is what a list holds from place `from` on, as far as a limit
/// allows.
pub open spec fn is_part(
    part: Seq<StoredResponse>,
    list: Seq<StoredResponse>,
    from: int,
    limit: Option<usize>,
) -> bool {
    &&& from + part.len() <= list.len()
    &&& forall|i: int|
        0 <= i < part.len() ==> same_stored(#[trigger] part[i], list[from + i])
    &&& limit matches Some(n) ==> part.len() <= n
    &&& limit matches Some(n) ==> part.len() < n ==> from + part.len() == list.len()
    &&& limit is None ==> from + part.len() == list.len()
}

proof fn views_same(a: StoredResponse, b: StoredResponse)
    requires
        a@ == b@,
    ensures
        same_stored(a, b),
{
}

pub(crate) proof fn page_is_part(
    list: Seq<StoredResponse>,
    part: Seq<StoredResponse>,
    from: int,
    limit: Option<usize>,
)
    requires
        0 <= from <= list.len(),
        records::records(part) == records::limited(records::records(list).skip(from), limit),
    ensures
        is_part(part, list, from, limit),
{
    let all = records::records(list);
    let cut = records::records(part);
    assert(all.len() == list.len());
    assert(cut.len() == part.len());
    assert forall|i: int| 0 <= i < part.len() implies same_stored(
        #[trigger] part[i],
        list[from + i],
    ) by {
        assert(cut[i] == all.skip(from)[i]);
        assert(cut[i] == part[i]@);
        assert(all[from + i] == list[from + i]@);
        views_same(part[i], list[from + i]);
    }
}

/// The page after an identifier starts right behind the response that has it, with
/// a limit and without one; without one it goes to the end of the list.
pub proof fn page_after_cursor(
    list: Vec<StoredResponse>,
    limit: Option<usize>,
    after: &str,
    res: Vec<StoredResponse>,
    p: int,
)
    requires
        call_ensures(take_page, (list, limit, Some(after)), res),
        0 <= p < list@.len(),
        list@[p].response_id@ == after@,
        forall|i: int| 0 <= i < p ==> (#[trigger] list@[i]).response_id@ != after@,
    ensures
        is_part(res@, list@, p + 1, limit),
{
    let all = records::records(list@);
    records::position_is_first(all, after@);
    assert(all[p].response_id == after@);
    match records::position(all, after@) {
        Some(q) => {
            if q < p {
                assert(list@[q].response_id@ != after@);
            }
            assert(q == p);
        },
        None => {},
    }
    page_is_part(list@, res@, p + 1, limit);
}

/// A page without a cursor, or after an identifier that nothing has, starts at the
/// start of the list.
pub proof fn page_from_start(
    list: Vec<StoredResponse>,
    limit: Option<usize>,
    after: Option<&str>,
    res: Vec<StoredResponse>,
)
    requires
        call_ensures(take_page, (list, limit, after), res),
        after matches Some(id) ==> forall|i: int|
            0 <= i < list@.len() ==> (#[trigger] list@[i]).response_id@ != id@,
    ensures
        is_part(res@, list@, 0, limit),
{
    let all = records::records(list@);
    assert(all.skip(0) =~= all);
    if let Some(id) = after {
        records::position_is_first(all, id@);
        if let Some(q) = records::position(all, id@) {
            assert(list@[q].response_id@ != id@);
        }
    }
    page_is_part(list@, res@, 0, limit);
}

/// Whether one stored response comes before another: it was stored earlier, or at
/// the same time under an identifier that comes before in the order of texts.
pub open spec fn comes_before(a: StoredResponse, b: StoredResponse) -> bool {
    a.created_at < b.created_at || (a.created_at == b.created_at && text::lex_less(
        a.response_id@,
        b.response_id@,
    ))
}

/// Sorting keeps every stored response as often as it was there, and puts none in
/// front of one that comes before it.
pub proof fn sorted_by_time(list: Vec<StoredResponse>, res: Vec<StoredResponse>)
    requires
        call_ensures(sort_responses, (list,), res),
    ensures
        res@.len() == list@.len(),
        records::records(res@).to_multiset() == records::records(list@).to_multiset(),
        forall|i: int, j: int|
            0 <= i < j < res@.len() ==> !comes_before(#[trigger] res@[j], #[trigger] res@[i]),
{
    let all = records::records(list@);
    let out = records::records(res@);
    records::in_order_sorts(all);
    assert(out.len() == res@.len());
    assert forall|i: int, j: int| 0 <= i < j < res@.len() implies !comes_before(
        #[trigger] res@[j],
        #[trigger] res@[i],
    ) by {
        assert(out[i] == res@[i]@);
        assert(out[j] == res@[j]@);
        assert(!records::earlier(out[j], out[i]));
    }
}

/// Those of a list that were stored at a time under an identifier.
pub open spec fn stored_then(list: Seq<Record>, created_at: u64, response_id: Seq<char>) -> Seq<
    Record,
> {
    list.filter(|r: Record| r.created_at == created_at && r.response_id == response_id)
}

/// Sorting leaves those that come neither before nor after each other, because they
/// were stored at the same time under the same identifier, in the order that they had.
pub proof fn sorting_is_stable(
    list: Vec<StoredResponse>,
    res: Vec<StoredResponse>,
    created_at: u64,
    response_id: Seq<char>,
)
    requires
        call_ensures(sort_responses, (list,), res),
    ensures
        stored_then(records::records(res@), created_at, response_id) == stored_then(
            records::records(list@),
            created_at,
            response_id,
        ),
{
    in_order_is_stable(records::records(list@), created_at, response_id);
}

proof fn in_order_is_stable(s: Seq<Record>, created_at: u64, response_id: Seq<char>)
    ensures
        stored_then(records::in_order(s), created_at, response_id) == stored_then(
            s,
            created_at,
            response_id,
        ),
    decreases s.len(),
{
    let tied = |r: Record| r.created_at == created_at && r.response_id == response_id;
    if s.len() > 0 {
        let x = s.last();
        let rest = records::in_order(s.drop_last());
        let p = records::place(rest, x) as int;
        in_order_is_stable(s.drop_last(), created_at, response_id);
        behind_place(rest, x);
        let front = rest.take(p);
        let back = rest.skip(p);
        assert(records::in_order(s) =~= front + (seq![x] + back));
        assert(rest =~= front + back);
        assert(s =~= s.drop_last() + seq![x]);
        Seq::filter_distributes_over_add(front, seq![x] + back, tied);
        Seq::filter_distributes_over_add(seq![x], back, tied);
        Seq::filter_distributes_over_add(front, back, tied);
        Seq::filter_distributes_over_add(s.drop_last(), seq![x], tied);
        reveal_with_fuel(Seq::filter, 2);
        assert(seq![x].drop_last() =~= Seq::<Record>::empty());
        if tied(x) {
            assert forall|i: int| 0 <= i < back.len() implies !tied(#[trigger] back[i]) by {
                assert(back[i] == rest[p + i]);
                assert(records::earlier(x, rest[p + i]));
                not_less_than_itself(response_id);
            }
            none_are_kept(back, tied);
            assert(front.filter(tied) + (seq![x].filter(tied) + Seq::<Record>::empty())
                =~= (front.filter(tied) + Seq::<Record>::empty()) + seq![x].filter(tied));
        } else {
            assert(seq![x].filter(tied) =~= Seq::<Record>::empty());
            assert(front.filter(tied) + (Seq::<Record>::empty() + back.filter(tied)) =~= (
            front.filter(tied) + back.filter(tied)) + Seq::<Record>::empty());
        }
    }
}

proof fn not_less_than_itself(s: Seq<char>)
    ensures
        !text::lex_less(s, s),
    decreases s.len(),
{
    if s.len() > 0 {
        not_less_than_itself(s.drop_first());
    }
}

proof fn none_are_kept(s: Seq<Record>, keep: spec_fn(Record) -> bool)
    requires
        forall|i: int| 0 <= i < s.len() ==> !keep(#[trigger] s[i]),
    ensures
        s.filter(keep) == Seq::<Record>::empty(),
    decreases s.len(),
{
    reveal(Seq::filter);
    if s.len() > 0 {
        assert forall|i: int| 0 <= i < s.drop_last().len() implies !keep(
            #[trigger] s.drop_last()[i],
        ) by {
            assert(s.drop_last()[i] == s[i]);
        }
        none_are_kept(s.drop_last(), keep);
    }
}

proof fn behind_place(s: Seq<Record>, r: Record)
    ensures
        records::place(s, r) <= s.len(),
        forall|i: int| records::place(s, r) <= i < s.len() ==> records::earlier(r, #[trigger] s[i]),
    decreases s.len(),
{
    if s.len() > 0 && records::earlier(r, s.last()) {
        behind_place(s.drop_last(), r);
        assert forall|i: int| records::place(s, r) <= i < s.len() implies records::earlier(
            r,
            #[trigger] s[i],
        ) by {
            if i < s.len() - 1 {
                assert(s.drop_last()[i] == s[i]);
            }
        }
    }
}

/// A response is looked for by its identifier alone, and the first that has it is
/// found.
pub proof fn found_by_identifier(
    list: &Vec<StoredResponse>,
    response_id: &str,
    res: Option<usize>,
)
    requires
        call_ensures(find_response, (list, response_id), res),
    ensures
        match res {
            Some(p) => p < list@.len() && list@[p as int].response_id@ == response_id@ && forall|i: int|
                0 <= i < p ==> (#[trigger] list@[i]).response_id@ != response_id@,
            None => forall|i: int|
                0 <= i < list@.len() ==> (#[trigger] list@[i]).response_id@ != response_id@,
        },
{
    let all = records::records(list@);
    records::position_is_first(all, response_id@);
    assert forall|i: int| 0 <= i < list@.len() implies (#[trigger] list@[i]).response_id@
        == all[i].response_id by {}
}

/// A fork copies a list up to and with the response that it names.
pub proof fn fork_ends_with_named(
    list: Vec<StoredResponse>,
    up_to: &str,
    res: Vec<StoredResponse>,
    p: int,
)
    requires
        call_ensures(select_for_fork, (list, Some(up_to)), res),
        0 <= p < list@.len(),
        list@[p].response_id@ == up_to@,
        forall|i: int| 0 <= i < p ==> (#[trigger] list@[i]).response_id@ != up_to@,
    ensures
        res@.len() == p + 1,
        forall|i: int| 0 <= i <= p ==> same_stored(#[trigger] res@[i], list@[i]),
{
    let all = records::records(list@);
    let cut = records::records(res@);
    records::position_is_first(all, up_to@);
    assert(all[p].response_id == up_to@);
    if let Some(q) = records::position(all, up_to@) {
        if q < p {
            assert(list@[q].response_id@ != up_to@);
        }
    }
    assert(cut.len() == res@.len());
    assert forall|i: int| 0 <= i <= p implies same_stored(#[trigger] res@[i], list@[i]) by {
        assert(cut[i] == res@[i]@);
        assert(all[i] == list@[i]@);
        views_same(res@[i], list@[i]);
    }
}

/// A fork that names no response, or one that is not in the list, copies the whole
/// list.
pub proof fn fork_takes_all(
    list: Vec<StoredResponse>,
    up_to: Option<&str>,
    res: Vec<StoredResponse>,
)
    requires
        call_ensures(select_for_fork, (list, up_to), res),
        up_to matches Some(id) ==> forall|i: int|
            0 <= i < list@.len() ==> (#[trigger] list@[i]).response_id@ != id@,
    ensures
        res@.len() == list@.len(),
        forall|i: int| 0 <= i < list@.len() ==> same_stored(#[trigger] res@[i], list@[i]),
{
    let all = records::records(list@);
    let cut = records::records(res@);
    if let Some(id) = up_to {
        records::position_is_first(all, id@);
        if let Some(q) = records::position(all, id@) {
            assert(list@[q].response_id@ != id@);
        }
    }
    assert(cut.len() == res@.len());
    assert forall|i: int| 0 <= i < list@.len() implies same_stored(#[trigger] res@[i], list@[i]) by {
        assert(cut[i] == res@[i]@);
        assert(all[i] == list@[i]@);
        views_same(res@[i], list@[i]);
    }
}

/// A fork without errors stores each place of its selection once, in order, and
/// then says how many; an error ends it.
pub proof fn fork_steps(
    selection: &Vec<StoredResponse>,
    stored: usize,
    failed: Option<StorageError>,
    step: ForkStep,
)
    requires
        call_ensures(fork_step, (selection, stored, failed), step),
    ensures
        failed matches Some(e) ==> step == ForkStep::Failed(e),
        failed is None && stored < selection@.len() ==> step == ForkStep::Store(stored),
        failed is None && stored >= selection@.len() ==> step == ForkStep::Done(
            selection@.len() as usize,
        ),
{
}

/// Whether a stored response is a copy of a tenant's response that has no end, or
/// has not passed it.
pub open spec fn is_live(
    stored: StoredResponse,
    tenant_id: Seq<char>,
    response_id: Seq<char>,
    now: u64,
) -> bool {
    &&& stored.tenant_id@ == tenant_id
    &&& stored.response_id@ == response_id
    &&& stored.expires_at matches Some(end) ==> now <= end
}

/// A session's own copy is shown rather than any other.
pub proof fn own_copy_first(
    a: &StoredResponse,
    b: &StoredResponse,
    session_id: &str,
    res: bool,
)
    requires
        call_ensures(is_preferred, (a, b, session_id), res),
        (a.session_id@ == session_id@) != (b.session_id@ == session_id@),
    ensures
        res == (a.session_id@ == session_id@),
{
}

/// Of two copies of other sessions, or of two of the same, the one that was stored
/// later is shown.
pub proof fn newer_copy_first(
    a: &StoredResponse,
    b: &StoredResponse,
    session_id: &str,
    res: bool,
)
    requires
        call_ensures(is_preferred, (a, b, session_id), res),
        (a.session_id@ == session_id@) == (b.session_id@ == session_id@),
        a.created_at != b.created_at,
    ensures
        res == (a.created_at > b.created_at),
{
}

/// Of two copies that were stored at the same time, both of other sessions, the one
/// whose session comes later in the order of texts is shown.
pub proof fn later_session_first(
    a: &StoredResponse,
    b: &StoredResponse,
    session_id: &str,
    res: bool,
)
    requires
        call_ensures(is_preferred, (a, b, session_id), res),
        (a.session_id@ == session_id@) == (b.session_id@ == session_id@),
        a.created_at == b.created_at,
    ensures
        res == text::lex_less(b.session_id@, a.session_id@),
{
}

/// What is shown of a response is a live copy of it; where a session has one of its
/// own, it is of that session, and where it has none, no other live one was stored
/// later. Nothing is shown only where nothing is live.
pub proof fn shown_copy_holds(
    list: &Vec<StoredResponse>,
    tenant_id: &str,
    session_id: &str,
    response_id: &str,
    now: u64,
    res: Option<usize>,
)
    requires
        call_ensures(find_copy, (list, tenant_id, session_id, response_id, now), res),
    ensures
        match res {
            Some(p) => {
                &&& p < list@.len()
                &&& is_live(list@[p as int], tenant_id@, response_id@, now)
                &&& list@[p as int].session_id@ != session_id@ ==> forall|i: int|
                    0 <= i < list@.len() && is_live(
                        #[trigger] list@[i],
                        tenant_id@,
                        response_id@,
                        now,
                    ) ==> list@[i].session_id@ != session_id@ && list@[i].created_at
                        <= list@[p as int].created_at
            },
            None => forall|i: int|
                0 <= i < list@.len() ==> !is_live(
                    #[trigger] list@[i],
                    tenant_id@,
                    response_id@,
                    now,
                ),
        },
{
    let all = records::records(list@);
    records::shown_copy_is_best(all, tenant_id@, session_id@, response_id@, now);
    assert forall|i: int| 0 <= i < list@.len() implies is_live(
        #[trigger] list@[i],
        tenant_id@,
        response_id@,
        now,
    ) == records::live_copy(all[i], tenant_id@, response_id@, now) by {}
}

} // verus!
