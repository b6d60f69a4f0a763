//! Stored responses, the order in which they are listed, and pages of lists.

use crate::json::{Json, JsonValue};
use crate::text;
use crate::text::{text_eq, text_less};
use vstd::prelude::*;

verus! {

/// A response that has been stored with its tenant and session.
#[derive(Debug, PartialEq, Eq)]
pub struct StoredResponse {
    /// Unique response identifier.
    pub response_id: String,
    /// Tenant identifier, for isolation.
    pub tenant_id: String,
    /// Session identifier, the conversation.
    pub session_id: String,
    /// The response itself.
    pub response: JsonValue,
    /// When it was stored, in seconds since the Unix epoch.
    pub created_at: u64,
    /// When it expires, in seconds since the Unix epoch, where it does.
    pub expires_at: Option<u64>,
}

/// A stored response as mathematics.
#[verifier::ext_equal]
pub struct Record {
    /// Unique response identifier.
    pub response_id: Seq<char>,
    /// Tenant identifier.
    pub tenant_id: Seq<char>,
    /// Session identifier.
    pub session_id: Seq<char>,
    /// The response itself.
    pub response: Json,
    /// When it was stored.
    pub created_at: u64,
    /// When it expires, where it does.
    pub expires_at: Option<u64>,
}

impl StoredResponse {
    /// The stored response as mathematics.
    pub open spec fn view(&self) -> Record {
        Record {
            response_id: self.response_id@,
            tenant_id: self.tenant_id@,
            session_id: self.session_id@,
            response: self.response@,
            created_at: self.created_at,
            expires_at: self.expires_at,
        }
    }

    /// A stored response of its own that is the same.
    pub fn duplicate(&self) -> (res: StoredResponse)
        ensures
            res@ == self@,
    {
        StoredResponse {
            response_id: self.response_id.clone(),
            tenant_id: self.tenant_id.clone(),
            session_id: self.session_id.clone(),
            response: self.response.duplicate(),
            created_at: self.created_at,
            expires_at: self.expires_at,
        }
    }
}

impl Clone for StoredResponse {
    fn clone(&self) -> (res: Self)
        ensures
            res@ == self@,
    {
        self.duplicate()
    }
}

/// The views of a sequence of stored responses.
pub open spec fn records(s: Seq<StoredResponse>) -> Seq<Record> {
    Seq::new(s.len(), |i: int| s[i]@)
}

/// Where a record stands: a tenant, a session and a response identifier.
pub type Key = (Seq<char>, Seq<char>, Seq<char>);

impl Record {
    /// Where a record stands: its tenant, its session and its identifier.
    pub open spec fn key(self) -> Key {
        (self.tenant_id, self.session_id, self.response_id)
    }

    /// Whether the record is past its time.
    pub open spec fn expired(self, now: u64) -> bool {
        self.expires_at matches Some(at) && now > at
    }
}

/// Whether a record is a copy of a tenant's response, not past its time.
pub open spec fn live_copy(
    r: Record,
    tenant_id: Seq<char>,
    response_id: Seq<char>,
    now: u64,
) -> bool {
    r.tenant_id == tenant_id && r.response_id == response_id && !r.expired(now)
}

/// Whether one copy is shown to a session rather than another: the session's
/// own goes first, then the one that was stored later, then the one whose
/// session's identifier comes later.
pub open spec fn preferred(a: Record, b: Record, session_id: Seq<char>) -> bool {
    if (a.session_id == session_id) != (b.session_id == session_id) {
        a.session_id == session_id
    } else if a.created_at != b.created_at {
        a.created_at > b.created_at
    } else {
        text::lex_less(b.session_id, a.session_id)
    }
}

/// Of two copies of different sessions one is preferred, and not the other.
pub proof fn preferred_decides(a: Record, b: Record, session_id: Seq<char>)
    requires
        a.session_id != b.session_id,
    ensures
        preferred(a, b, session_id) != preferred(b, a, session_id),
{
    text::lex_less_total(a.session_id, b.session_id);
    if text::lex_less(a.session_id, b.session_id) && text::lex_less(b.session_id, a.session_id) {
        text::lex_less_transitive(a.session_id, b.session_id, a.session_id);
        text::lex_less_irreflexive(a.session_id);
    }
}

proof fn preferred_asymmetric(a: Record, b: Record, session_id: Seq<char>)
    requires
        preferred(a, b, session_id),
    ensures
        !preferred(b, a, session_id),
{
    if a.session_id == b.session_id {
        text::lex_less_irreflexive(a.session_id);
    } else {
        preferred_decides(a, b, session_id);
    }
}

proof fn preferred_transitive(a: Record, b: Record, c: Record, session_id: Seq<char>)
    requires
        preferred(a, b, session_id),
        !preferred(c, b, session_id),
    ensures
        preferred(a, c, session_id),
{
    if text::lex_less(b.session_id, a.session_id) && b.session_id != c.session_id {
        text::lex_less_total(b.session_id, c.session_id);
        if text::lex_less(c.session_id, b.session_id) {
            text::lex_less_transitive(c.session_id, b.session_id, a.session_id);
        }
    }
}

/// Whether one copy is shown to a session rather than another.
pub fn is_preferred(a: &StoredResponse, b: &StoredResponse, session_id: &str) -> (res: bool)
    ensures
        res == preferred(a@, b@, session_id@),
{
    let own_a = text_eq(a.session_id.as_str(), session_id);
    let own_b = text_eq(b.session_id.as_str(), session_id);
    if own_a != own_b {
        own_a
    } else if a.created_at != b.created_at {
        a.created_at > b.created_at
    } else {
        text_less(b.session_id.as_str(), a.session_id.as_str())
    }
}

/// The place of the copy that is shown to a session: the first to which no other
/// is preferred.
pub open spec fn shown_copy(
    s: Seq<Record>,
    tenant_id: Seq<char>,
    session_id: Seq<char>,
    response_id: Seq<char>,
    now: u64,
) -> Option<int>
    decreases s.len(),
{
    if s.len() == 0 {
        None
    } else {
        let rest = shown_copy(s.drop_last(), tenant_id, session_id, response_id, now);
        if !live_copy(s.last(), tenant_id, response_id, now) {
            rest
        } else {
            match rest {
                Some(p) => if preferred(s.last(), s[p], session_id) {
                    Some(s.len() - 1)
                } else {
                    rest
                },
                None => Some(s.len() - 1),
            }
        }
    }
}

/// The copy that is shown is a live one to which no other is preferred; where
/// none is shown, none is live.
pub proof fn shown_copy_is_best(
    s: Seq<Record>,
    tenant_id: Seq<char>,
    session_id: Seq<char>,
    response_id: Seq<char>,
    now: u64,
)
    ensures
        match shown_copy(s, tenant_id, session_id, response_id, now) {
            Some(p) => {
                &&& 0 <= p < s.len()
                &&& live_copy(s[p], tenant_id, response_id, now)
                &&& forall|i: int|
                    0 <= i < s.len() && live_copy(#[trigger] s[i], tenant_id, response_id, now)
                        ==> !preferred(s[i], s[p], session_id)
            },
            None => forall|i: int|
                0 <= i < s.len() ==> !live_copy(#[trigger] s[i], tenant_id, response_id, now),
        },
    decreases s.len(),
{
    if s.len() > 0 {
        let rest = s.drop_last();
        shown_copy_is_best(rest, tenant_id, session_id, response_id, now);
        let last = s.last();
        let before = shown_copy(rest, tenant_id, session_id, response_id, now);
        match shown_copy(s, tenant_id, session_id, response_id, now) {
            Some(p) => {
                assert forall|i: int|
                    0 <= i < s.len() && live_copy(
                        #[trigger] s[i],
                        tenant_id,
                        response_id,
                        now,
                    ) implies !preferred(s[i], s[p], session_id) by {
                    if i < s.len() - 1 {
                        assert(rest[i] == s[i]);
                        if p == s.len() - 1 && preferred(s[i], last, session_id) {
                            let q = before->0;
                            assert(rest[q] == s[q]);
                            preferred_transitive(last, s[q], s[i], session_id);
                            preferred_asymmetric(last, s[i], session_id);
                        }
                    } else if p == s.len() - 1 {
                        text::lex_less_irreflexive(last.session_id);
                    }
                }
            },
            None => {
                assert forall|i: int| 0 <= i < s.len() implies !live_copy(
                    #[trigger] s[i],
                    tenant_id,
                    response_id,
                    now,
                ) by {
                    if i < s.len() - 1 {
                        assert(rest[i] == s[i]);
                    }
                }
            },
        }
    }
}

/// The place of the copy that is shown to a session.
pub fn find_copy(
    list: &Vec<StoredResponse>,
    tenant_id: &str,
    session_id: &str,
    response_id: &str,
    now: u64,
) -> (res: Option<usize>)
    ensures
        match res {
            Some(i) => i < list@.len() && shown_copy(
                records(list@),
                tenant_id@,
                session_id@,
                response_id@,
                now,
            ) == Some(i as int),
            None => shown_copy(
                records(list@),
                tenant_id@,
                session_id@,
                response_id@,
                now,
            ) is None,
        },
{
    let ghost all = records(list@);
    let mut found: Option<usize> = None;
    let mut i: usize = 0;
    while i < list.len()
        invariant
            i <= list.len(),
            all == records(list@),
            found matches Some(p) ==> p < i,
            shown_copy(all.take(i as int), tenant_id@, session_id@, response_id@, now) == (
            match found {
                Some(p) => Some(p as int),
                None => None,
            }),
        decreases list.len() - i,
    {
        assert(all.take(i + 1).drop_last() =~= all.take(i as int));
        let item = &list[i];
        assert(all[i as int] == item@);
        let past = match item.expires_at {
            Some(at) => now > at,
            None => false,
        };
        if !past && text_eq(item.tenant_id.as_str(), tenant_id) && text_eq(
            item.response_id.as_str(),
            response_id,
        ) {
            let better = match found {
                Some(p) => {
                    assert(all.take(i + 1)[p as int] == list@[p as int]@);
                    is_preferred(item, &list[p], session_id)
                },
                None => true,
            };
            if better {
                found = Some(i);
            }
        }
        i = i + 1;
    }
    assert(all.take(i as int) =~= all);
    found
}

/// Whether `a` comes before `b` in a list: by time, then by identifier.
pub open spec fn earlier(a: Record, b: Record) -> bool {
    a.created_at < b.created_at || (a.created_at == b.created_at && text::lex_less(
        a.response_id,
        b.response_id,
    ))
}

/// Whether `a` comes before `b` in a list.
pub fn is_earlier(a: &StoredResponse, b: &StoredResponse) -> (res: bool)
    ensures
        res == earlier(a@, b@),
{
    if a.created_at < b.created_at {
        true
    } else if b.created_at < a.created_at {
        false
    } else {
        text_less(a.response_id.as_str(), b.response_id.as_str())
    }
}

/// Where `r` goes into a list in order: behind all that do not come after it.
pub open spec fn place(s: Seq<Record>, r: Record) -> nat
    decreases s.len(),
{
    if s.len() == 0 || !earlier(r, s.last()) {
        s.len()
    } else {
        place(s.drop_last(), r)
    }
}

/// The records in order; those that neither come before the other stay as they
/// were.
pub open spec fn in_order(s: Seq<Record>) -> Seq<Record>
    decreases s.len(),
{
    if s.len() == 0 {
        s
    } else {
        let rest = in_order(s.drop_last());
        rest.insert(place(rest, s.last()) as int, s.last())
    }
}

/// Whether no record comes before one that stands in front of it.
pub open spec fn ordered(s: Seq<Record>) -> bool {
    forall|i: int, j: int| 0 <= i < j < s.len() ==> !earlier(#[trigger] s[j], #[trigger] s[i])
}

/// The order is transitive.
pub proof fn earlier_transitive(a: Record, b: Record, c: Record)
    requires
        earlier(a, b),
        earlier(b, c),
    ensures
        earlier(a, c),
{
    if a.created_at == b.created_at && b.created_at == c.created_at {
        text::lex_less_transitive(a.response_id, b.response_id, c.response_id);
    }
}

/// No record comes before itself.
pub proof fn earlier_irreflexive(a: Record)
    ensures
        !earlier(a, a),
{
    text::lex_less_irreflexive(a.response_id);
}

/// Of two records with different identifiers one comes before the other.
pub proof fn earlier_total(a: Record, b: Record)
    requires
        a.response_id != b.response_id,
    ensures
        earlier(a, b) || earlier(b, a),
{
    text::lex_less_total(a.response_id, b.response_id);
}

/// Not coming before is transitive.
proof fn not_earlier_transitive(a: Record, b: Record, c: Record)
    requires
        !earlier(b, a),
        !earlier(c, b),
    ensures
        !earlier(c, a),
{
    if earlier(c, a) {
        if b.response_id == a.response_id {
            if b.created_at == a.created_at {
                assert(earlier(c, b));
            }
        } else if b.response_id == c.response_id {
            earlier_total(a, b);
            earlier_transitive(c, a, b);
        } else {
            earlier_total(a, b);
            earlier_total(b, c);
            earlier_transitive(a, b, c);
            earlier_transitive(c, a, c);
            earlier_irreflexive(c);
        }
    }
}

proof fn place_splits(s: Seq<Record>, r: Record)
    requires
        ordered(s),
    ensures
        place(s, r) <= s.len(),
        forall|i: int| 0 <= i < place(s, r) ==> !earlier(r, #[trigger] s[i]),
        forall|i: int| place(s, r) <= i < s.len() ==> earlier(r, #[trigger] s[i]),
    decreases s.len(),
{
    if s.len() == 0 {
    } else if !earlier(r, s.last()) {
        assert forall|i: int| 0 <= i < s.len() implies !earlier(r, #[trigger] s[i]) by {
            if i < s.len() - 1 {
                not_earlier_transitive(s[i], s.last(), r);
            }
        }
    } else {
        place_splits(s.drop_last(), r);
        assert forall|i: int| 0 <= i < place(s, r) implies !earlier(r, #[trigger] s[i]) by {
            assert(s.drop_last()[i] == s[i]);
        }
        assert forall|i: int| place(s, r) <= i < s.len() implies earlier(r, #[trigger] s[i]) by {
            if i < s.len() - 1 {
                assert(s.drop_last()[i] == s[i]);
            }
        }
    }
}

/// `in_order` gives the same records, each as often as before, in order.
pub proof fn in_order_sorts(s: Seq<Record>)
    ensures
        in_order(s).len() == s.len(),
        in_order(s).to_multiset() == s.to_multiset(),
        ordered(in_order(s)),
    decreases s.len(),
{
    if s.len() > 0 {
        let rest = in_order(s.drop_last());
        let r = s.last();
        let p = place(rest, r) as int;
        let res = in_order(s);
        in_order_sorts(s.drop_last());
        place_splits(rest, r);
        assert forall|i: int, j: int| 0 <= i < j < res.len() implies !earlier(
            #[trigger] res[j],
            #[trigger] res[i],
        ) by {
            if i == p {
                if earlier(rest[j - 1], r) {
                    earlier_transitive(r, rest[j - 1], r);
                    earlier_irreflexive(r);
                }
            }
        }
        rest.insert_ensures(p, r);
        vstd::seq_lib::to_multiset_insert(rest, p, r);
        vstd::seq_lib::to_multiset_build(s.drop_last(), r);
        assert(s =~= s.drop_last().push(r));
        assert(res.to_multiset() =~= s.to_multiset());
    }
}

/// Puts the stored responses in order.
#[verifier::rlimit(40)]
pub fn sort_responses(list: Vec<StoredResponse>) -> (res: Vec<StoredResponse>)
    ensures
        records(res@) == in_order(records(list@)),
{
    let ghost all = records(list@);
    let mut v: Vec<StoredResponse> = list;
    let mut i: usize = 0;
    assert(records(v@) =~= in_order(all.take(0)) + all.skip(0));
    while i < v.len()
        invariant
            i <= v.len(),
            v.len() == all.len(),
            records(v@) == in_order(all.take(i as int)) + all.skip(i as int),
        decreases v.len() - i,
    {
        let ghost sorted = in_order(all.take(i as int));
        proof {
            in_order_sorts(all.take(i as int));
            assert(records(v@).take(i as int) =~= sorted);
            assert(records(v@)[i as int] == all[i as int]);
        }
        let ghost whole = v@;
        let item = v.remove(i);
        proof {
            assert(records(v@) =~= records(whole).remove(i as int));
            assert(records(v@) =~= sorted + all.skip(i + 1));
        }
        let mut p: usize = i;
        assert(sorted.take(i as int) =~= sorted);
        while p > 0 && is_earlier(&item, &v[p - 1])
            invariant
                p <= i,
                i == sorted.len(),
                i <= v.len(),
                records(v@) == sorted + all.skip(i + 1),
                place(sorted, item@) == place(sorted.take(p as int), item@),
            decreases p,
        {
            proof {
                assert(records(v@)[p - 1] == sorted[p - 1]);
                assert(sorted.take(p as int).drop_last() =~= sorted.take(p - 1));
            }
            p = p - 1;
        }
        proof {
            if p > 0 {
                assert(records(v@)[p - 1] == sorted[p - 1]);
                assert(sorted.take(p as int).last() == sorted[p - 1]);
            }
            assert(place(sorted, item@) == p);
        }
        let ghost before = v@;
        v.insert(p, item);
        proof {
            assert(records(v@) =~= records(before).insert(p as int, item@));
            assert(all.take(i + 1).drop_last() =~= all.take(i as int));
            assert(records(v@) =~= in_order(all.take(i + 1)) + all.skip(i + 1));
        }
        i = i + 1;
    }
    proof {
        assert(all.take(i as int) =~= all);
        assert(records(v@) =~= in_order(all));
    }
    v
}

/// The first place of a record with the given identifier.
pub open spec fn position(s: Seq<Record>, response_id: Seq<char>) -> Option<int>
    decreases s.len(),
{
    if s.len() == 0 {
        None
    } else if s[0].response_id == response_id {
        Some(0)
    } else {
        match position(s.drop_first(), response_id) {
            Some(i) => Some(i + 1),
            None => None,
        }
    }
}

/// `position` finds the first of them.
pub proof fn position_is_first(s: Seq<Record>, response_id: Seq<char>)
    ensures
        match position(s, response_id) {
            Some(p) => {
                &&& 0 <= p < s.len()
                &&& s[p].response_id == response_id
                &&& forall|i: int| 0 <= i < p ==> (#[trigger] s[i]).response_id != response_id
            },
            None => forall|i: int|
                0 <= i < s.len() ==> (#[trigger] s[i]).response_id != response_id,
        },
    decreases s.len(),
{
    if s.len() > 0 && s[0].response_id != response_id {
        let rest = s.drop_first();
        position_is_first(rest, response_id);
        match position(rest, response_id) {
            Some(p) => {
                assert(rest[p] == s[p + 1]);
                assert forall|i: int| 0 <= i < p + 1 implies (#[trigger] s[i]).response_id
                    != response_id by {
                    if i > 0 {
                        assert(rest[i - 1] == s[i]);
                    }
                }
            },
            None => {
                assert forall|i: int| 0 <= i < s.len() implies (#[trigger] s[i]).response_id
                    != response_id by {
                    if i > 0 {
                        assert(rest[i - 1] == s[i]);
                    }
                }
            },
        }
    }
}

/// The first place of a stored response with the given identifier.
pub fn find_response(list: &Vec<StoredResponse>, response_id: &str) -> (res: Option<usize>)
    ensures
        match res {
            Some(i) => position(records(list@), response_id@) == Some(i as int),
            None => position(records(list@), response_id@) is None,
        },
{
    let ghost all = records(list@);
    let mut i: usize = 0;
    assert(all.skip(0) =~= all);
    while i < list.len()
        invariant
            i <= list.len(),
            all == records(list@),
            position(all, response_id@) == (match position(all.skip(i as int), response_id@) {
                Some(p) => Some(p + i),
                None => None,
            }),
        decreases list.len() - i,
    {
        if text_eq(list[i].response_id.as_str(), response_id) {
            return Some(i);
        }
        assert(all.skip(i as int).drop_first() =~= all.skip(i + 1));
        i = i + 1;
    }
    None
}

/// What comes after the cursor: everything where there is no cursor, or where
/// no record has its identifier.
pub open spec fn after_cursor(all: Seq<Record>, after: Option<Seq<char>>) -> Seq<Record> {
    match after {
        Some(id) => match position(all, id) {
            Some(p) => all.skip(p + 1),
            None => all,
        },
        None => all,
    }
}

/// At most the first `limit` records.
pub open spec fn limited(all: Seq<Record>, limit: Option<usize>) -> Seq<Record> {
    match limit {
        Some(n) => if n < all.len() {
            all.take(n as int)
        } else {
            all
        },
        None => all,
    }
}

/// A page of a list.
pub open spec fn page(all: Seq<Record>, limit: Option<usize>, after: Option<Seq<char>>) -> Seq<
    Record,
> {
    limited(after_cursor(all, after), limit)
}

/// The characters of an optional text.
pub open spec fn opt_chars(s: Option<&str>) -> Option<Seq<char>> {
    match s {
        Some(t) => Some(t@),
        None => None,
    }
}

/// Cuts a page out of a list.
pub fn take_page(list: Vec<StoredResponse>, limit: Option<usize>, after: Option<&str>) -> (res: Vec<
    StoredResponse,
>)
    ensures
        records(res@) == page(records(list@), limit, opt_chars(after)),
{
    let ghost all = records(list@);
    let mut v: Vec<StoredResponse> = list;
    match after {
        Some(cursor) => {
            match find_response(&v, cursor) {
                Some(p) => {
                    proof {
                        position_is_first(all, cursor@);
                    }
                    assert(p < v.len());
                    v = v.split_off(p + 1);
                    assert(records(v@) =~= all.skip(p + 1));
                },
                None => {},
            }
        },
        None => {},
    }
    match limit {
        Some(n) => {
            let ghost before = v@;
            v.truncate(n);
            assert(records(v@) =~= limited(records(before), limit));
        },
        None => {},
    }
    v
}

/// The first records of a list that are shown one page after the other, each page
/// after the last record of the one before.
pub open spec fn paged(all: Seq<Record>, limit: usize, pages: nat) -> Seq<Record>
    decreases pages,
{
    if pages == 0 {
        Seq::empty()
    } else {
        let shown = paged(all, limit, (pages - 1) as nat);
        shown + page(
            all,
            Some(limit),
            if shown.len() == 0 {
                None
            } else {
                Some(shown.last().response_id)
            },
        )
    }
}

/// Pages join: shown one after the other, each after the last record of the one
/// before, they are the list from its start, a whole page further each time, so
/// that enough of them are the whole list.
pub proof fn pages_join(all: Seq<Record>, limit: usize, pages: nat)
    requires
        forall|i: int, j: int|
            0 <= i < j < all.len() ==> (#[trigger] all[i]).response_id != (
            #[trigger] all[j]).response_id,
        limit > 0,
    ensures
        paged(all, limit, pages) == all.take(
            if pages * limit < all.len() {
                pages * limit
            } else {
                all.len() as int
            },
        ),
        pages >= all.len() ==> paged(all, limit, pages) == all,
    decreases pages,
{
    if pages > 0 {
        let before = (pages - 1) as nat;
        pages_join(all, limit, before);
        let shown = paged(all, limit, before);
        assert(pages * limit == before * limit + limit) by (nonlinear_arith)
            requires
                pages == before + 1,
        ;
        assert(before * limit >= 0) by (nonlinear_arith);
        if shown.len() > 0 {
            let n = shown.len() as int;
            let id = shown.last().response_id;
            assert(all[n - 1] == shown.last());
            position_is_first(all, id);
            match position(all, id) {
                Some(p) => {
                    if p < n - 1 {
                        assert(all[p].response_id != all[n - 1].response_id);
                    }
                    if n - 1 < p {
                        assert(all[n - 1].response_id != all[p].response_id);
                    }
                    assert(p == n - 1);
                },
                None => {},
            }
        } else if before > 0 && all.len() > 0 {
            assert(before * limit > 0) by (nonlinear_arith)
                requires
                    before > 0,
                    limit > 0,
            ;
        }
        assert(paged(all, limit, pages) =~= all.take(
            if pages * limit < all.len() {
                pages * limit
            } else {
                all.len() as int
            },
        ));
    } else {
        assert(paged(all, limit, pages) =~= all.take(0));
    }
    assert(pages * limit >= pages) by (nonlinear_arith)
        requires
            limit > 0,
    ;
    assert(all.take(all.len() as int) =~= all);
}

} // verus!
