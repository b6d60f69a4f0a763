//! The rules of a storage for responses in Redis: its keys, the commands that
//! store a response, and what is made of the replies.
//!
//! A copy of a response stands under
//! `{tenant_id}:{session_id}:responses:{response_id}`, and
//! `{tenant_id}:{session_id}:response_ids` is the set of the session's response
//! identifiers. By tenant and identifier a response is found through
//! `{tenant_id}:responses:{response_id}:in:sessions`, the set of the sessions
//! that have a copy: the session is metadata, and a fork leaves the session it
//! copies from as it was. A store of a response takes the copies of other sessions
//! away.

use crate::storage::records;
use crate::storage::records::{
    find_copy, in_order, opt_chars, page, shown_copy, sort_responses, take_page, Record,
    StoredResponse,
};
use crate::storage::response_storage::StorageError;
use crate::text;
use crate::text::text_eq;
use vstd::prelude::*;

verus! {

/// The key of a session's copy of a response.
pub open spec fn response_key_text(
    tenant_id: Seq<char>,
    session_id: Seq<char>,
    response_id: Seq<char>,
) -> Seq<char> {
    tenant_id + ":"@ + session_id + ":responses:"@ + response_id
}

/// The key of a session's set of response identifiers.
pub open spec fn index_key_text(tenant_id: Seq<char>, session_id: Seq<char>) -> Seq<char> {
    tenant_id + ":"@ + session_id + ":response_ids"@
}

/// The key of the set of the sessions that have a copy of a response.
pub open spec fn sessions_key_text(tenant_id: Seq<char>, response_id: Seq<char>) -> Seq<char> {
    tenant_id + ":responses:"@ + response_id + ":in:sessions"@
}

/// The key of a session's copy of a response.
pub fn response_key(tenant_id: &str, session_id: &str, response_id: &str) -> (res: String)
    ensures
        res@ == response_key_text(tenant_id@, session_id@, response_id@),
{
    let head = text::join3(tenant_id, ":", session_id);
    text::join3(head.as_str(), ":responses:", response_id)
}

/// The key of a session's set of response identifiers.
pub fn index_key(tenant_id: &str, session_id: &str) -> (res: String)
    ensures
        res@ == index_key_text(tenant_id@, session_id@),
{
    let head = text::join3(tenant_id, ":", session_id);
    text::join2(head.as_str(), ":response_ids")
}

/// The key of the set of the sessions that have a copy of a response.
pub fn sessions_key(tenant_id: &str, response_id: &str) -> (res: String)
    ensures
        res@ == sessions_key_text(tenant_id@, response_id@),
{
    let head = text::join3(tenant_id, ":responses:", response_id);
    text::join2(head.as_str(), ":in:sessions")
}

/// The keys of the responses with the given identifiers, in order.
pub fn response_keys(tenant_id: &str, session_id: &str, ids: &Vec<String>) -> (res: Vec<String>)
    ensures
        res@.len() == ids@.len(),
        forall|i: int|
            0 <= i < ids@.len() ==> (#[trigger] res@[i])@ == response_key_text(
                tenant_id@,
                session_id@,
                ids@[i]@,
            ),
{
    let mut res: Vec<String> = Vec::new();
    let mut i: usize = 0;
    while i < ids.len()
        invariant
            i <= ids.len(),
            res@.len() == i,
            forall|j: int|
                0 <= j < i ==> (#[trigger] res@[j])@ == response_key_text(
                    tenant_id@,
                    session_id@,
                    ids@[j]@,
                ),
        decreases ids.len() - i,
    {
        res.push(response_key(tenant_id, session_id, ids[i].as_str()));
        i = i + 1;
    }
    res
}

/// The keys of the copies of a response in the given sessions, in order.
pub fn copy_keys(tenant_id: &str, sessions: &Vec<String>, response_id: &str) -> (res: Vec<String>)
    ensures
        res@.len() == sessions@.len(),
        forall|i: int|
            0 <= i < sessions@.len() ==> (#[trigger] res@[i])@ == response_key_text(
                tenant_id@,
                sessions@[i]@,
                response_id@,
            ),
{
    let mut res: Vec<String> = Vec::new();
    let mut i: usize = 0;
    while i < sessions.len()
        invariant
            i <= sessions.len(),
            res@.len() == i,
            forall|j: int|
                0 <= j < i ==> (#[trigger] res@[j])@ == response_key_text(
                    tenant_id@,
                    sessions@[j]@,
                    response_id@,
                ),
        decreases sessions.len() - i,
    {
        res.push(response_key(tenant_id, sessions[i].as_str(), response_id));
        i = i + 1;
    }
    res
}

/// The sessions in which a response is looked for: those that are known to have a
/// copy, and the one that asks.
pub open spec fn looked_in(known: Seq<Seq<char>>, session_id: Seq<char>) -> Seq<Seq<char>> {
    if known.contains(session_id) {
        known
    } else {
        known.push(session_id)
    }
}

/// The sessions in which a response is looked for.
pub fn sessions_to_read(known: Vec<String>, session_id: &str) -> (res: Vec<String>)
    ensures
        text::texts(res@) == looked_in(text::texts(known@), session_id@),
{
    let ghost all = text::texts(known@);
    let mut i: usize = 0;
    while i < known.len()
        invariant
            i <= known.len(),
            all == text::texts(known@),
            forall|j: int| 0 <= j < i ==> #[trigger] all[j] != session_id@,
        decreases known.len() - i,
    {
        if text_eq(known[i].as_str(), session_id) {
            assert(all[i as int] == session_id@);
            return known;
        }
        i = i + 1;
    }
    let mut res = known;
    res.push(text::owned(session_id));
    assert(text::texts(res@) =~= all.push(session_id@));
    res
}

/// The sessions whose copies a store in a session takes away: all others that are
/// known to have one.
pub open spec fn replaced_in(known: Seq<Seq<char>>, session_id: Seq<char>) -> Seq<Seq<char>> {
    known.filter(|other: Seq<char>| other != session_id)
}

/// The sessions whose copies a store in a session takes away.
pub fn sessions_to_clear(known: &Vec<String>, session_id: &str) -> (res: Vec<String>)
    ensures
        text::texts(res@) == replaced_in(text::texts(known@), session_id@),
{
    let ghost all = text::texts(known@);
    let ghost is_other = |other: Seq<char>| other != session_id@;
    let mut res: Vec<String> = Vec::new();
    let mut i: usize = 0;
    proof {
        reveal(Seq::filter);
        assert(text::texts(res@) =~= all.take(0).filter(is_other));
    }
    while i < known.len()
        invariant
            i <= known.len(),
            all == text::texts(known@),
            is_other == (|other: Seq<char>| other != session_id@),
            text::texts(res@) == all.take(i as int).filter(is_other),
        decreases known.len() - i,
    {
        let ghost so_far = res@;
        proof {
            reveal(Seq::filter);
            assert(all.take(i + 1).drop_last() =~= all.take(i as int));
            assert(all[i as int] == known@[i as int]@);
        }
        if !text_eq(known[i].as_str(), session_id) {
            res.push(known[i].clone());
            assert(text::texts(res@) =~= text::texts(so_far).push(known@[i as int]@));
        }
        i = i + 1;
    }
    assert(all.take(i as int) =~= all);
    res
}

/// Of the sessions in which a response is looked for, a store clears all but its
/// own.
pub proof fn store_leaves_own_copy(
    known: Seq<Seq<char>>,
    session_id: Seq<char>,
    other: Seq<char>,
)
    requires
        looked_in(known, session_id).contains(other),
    ensures
        replaced_in(known, session_id).contains(other) <==> other != session_id,
{
    let is_other = |s: Seq<char>| s != session_id;
    let asked = looked_in(known, session_id);
    let i = choose|i: int| 0 <= i < asked.len() && asked[i] == other;
    if other != session_id {
        assert(known[i] == other);
        known.lemma_filter_contains(is_other, i);
    } else if replaced_in(known, session_id).contains(other) {
        known.lemma_filter_pred(is_other, replaced_in(known, session_id).index_of(other));
    }
}

/// The first colon of a text ends what has none.
proof fn colon_splits(a: Seq<char>, x: Seq<char>, b: Seq<char>, y: Seq<char>)
    requires
        !a.contains(':'),
        !b.contains(':'),
        a + seq![':'] + x == b + seq![':'] + y,
    ensures
        a == b,
        x == y,
{
    let s = a + seq![':'] + x;
    let t = b + seq![':'] + y;
    let m = a.len() as int;
    let n = b.len() as int;
    assert(s[m] == ':');
    assert(t[n] == ':');
    if m < n {
        assert(t[m] == b[m]);
    } else if n < m {
        assert(s[n] == a[n]);
    }
    assert(a =~= s.take(m));
    assert(b =~= t.take(n));
    assert(x =~= s.skip(m + 1));
    assert(y =~= t.skip(n + 1));
}

/// The part of a response's key behind its session.
spec fn response_end(response_id: Seq<char>) -> Seq<char> {
    "responses"@ + seq![':'] + response_id
}

proof fn response_key_parts(tenant_id: Seq<char>, session_id: Seq<char>, response_id: Seq<char>)
    ensures
        response_key_text(tenant_id, session_id, response_id) == tenant_id + seq![':'] + (session_id
            + seq![':'] + response_end(response_id)),
{
    reveal_strlit(":");
    reveal_strlit(":responses:");
    reveal_strlit("responses");
    assert(response_key_text(tenant_id, session_id, response_id) =~= tenant_id + seq![':'] + (
    session_id + seq![':'] + response_end(response_id)));
}

proof fn index_key_parts(tenant_id: Seq<char>, session_id: Seq<char>)
    ensures
        index_key_text(tenant_id, session_id) == tenant_id + seq![':'] + (session_id + seq![':']
            + "response_ids"@),
{
    reveal_strlit(":");
    reveal_strlit(":response_ids");
    reveal_strlit("response_ids");
    assert(index_key_text(tenant_id, session_id) =~= tenant_id + seq![':'] + (session_id + seq![':']
        + "response_ids"@));
}

proof fn sessions_key_parts(tenant_id: Seq<char>, response_id: Seq<char>)
    ensures
        sessions_key_text(tenant_id, response_id) == tenant_id + seq![':'] + ("responses"@ + seq![
            ':',
        ] + (response_id + seq![':'] + "in:sessions"@)),
{
    reveal_strlit(":responses:");
    reveal_strlit("responses");
    reveal_strlit(":in:sessions");
    reveal_strlit("in:sessions");
    assert(sessions_key_text(tenant_id, response_id) =~= tenant_id + seq![':'] + ("responses"@
        + seq![':'] + (response_id + seq![':'] + "in:sessions"@)));
}

/// Keys tell tenants apart where neither has a colon.
pub proof fn keys_tell_tenants_apart(
    tenant_a: Seq<char>,
    session_a: Seq<char>,
    response_a: Seq<char>,
    tenant_b: Seq<char>,
    session_b: Seq<char>,
    response_b: Seq<char>,
)
    requires
        !tenant_a.contains(':'),
        !tenant_b.contains(':'),
        tenant_a != tenant_b,
    ensures
        ({
            let a = set![
                response_key_text(tenant_a, session_a, response_a),
                index_key_text(tenant_a, session_a),
                sessions_key_text(tenant_a, response_a),
            ];
            let b = set![
                response_key_text(tenant_b, session_b, response_b),
                index_key_text(tenant_b, session_b),
                sessions_key_text(tenant_b, response_b),
            ];
            a.disjoint(b)
        }),
{
    response_key_parts(tenant_a, session_a, response_a);
    response_key_parts(tenant_b, session_b, response_b);
    index_key_parts(tenant_a, session_a);
    index_key_parts(tenant_b, session_b);
    sessions_key_parts(tenant_a, response_a);
    sessions_key_parts(tenant_b, response_b);
    assert forall|x: Seq<char>, y: Seq<char>|
        #![trigger tenant_a + seq![':'] + x, tenant_b + seq![':'] + y]
        tenant_a + seq![':'] + x != tenant_b + seq![':'] + y by {
        if tenant_a + seq![':'] + x == tenant_b + seq![':'] + y {
            colon_splits(tenant_a, x, tenant_b, y);
        }
    }
}

/// Where no identifier has a colon, keys tell everything apart: copies by
/// tenant, session and identifier, indexes by tenant and session, sets of
/// sessions by tenant and identifier, and each of these from the others.
pub proof fn keys_differ(
    tenant_a: Seq<char>,
    session_a: Seq<char>,
    response_a: Seq<char>,
    tenant_b: Seq<char>,
    session_b: Seq<char>,
    response_b: Seq<char>,
)
    requires
        !tenant_a.contains(':'),
        !session_a.contains(':'),
        !response_a.contains(':'),
        !tenant_b.contains(':'),
        !session_b.contains(':'),
        !response_b.contains(':'),
    ensures
        response_key_text(tenant_a, session_a, response_a) == response_key_text(
            tenant_b,
            session_b,
            response_b,
        ) ==> tenant_a == tenant_b && session_a == session_b && response_a == response_b,
        index_key_text(tenant_a, session_a) == index_key_text(tenant_b, session_b) ==> tenant_a
            == tenant_b && session_a == session_b,
        sessions_key_text(tenant_a, response_a) == sessions_key_text(tenant_b, response_b)
            ==> tenant_a == tenant_b && response_a == response_b,
        response_key_text(tenant_a, session_a, response_a) != index_key_text(tenant_b, session_b),
        response_key_text(tenant_a, session_a, response_a) != sessions_key_text(
            tenant_b,
            response_b,
        ),
        index_key_text(tenant_a, session_a) != sessions_key_text(tenant_b, response_b),
{
    response_key_parts(tenant_a, session_a, response_a);
    response_key_parts(tenant_b, session_b, response_b);
    index_key_parts(tenant_a, session_a);
    index_key_parts(tenant_b, session_b);
    sessions_key_parts(tenant_a, response_a);
    sessions_key_parts(tenant_b, response_b);
    reveal_strlit("responses");
    reveal_strlit("response_ids");
    reveal_strlit("in:sessions");
    let word = "responses"@;
    let colon = seq![':'];
    let copy_a = session_a + colon + response_end(response_a);
    let copy_b = session_b + colon + response_end(response_b);
    let index_a = session_a + colon + "response_ids"@;
    let index_b = session_b + colon + "response_ids"@;
    let held_a = response_a + colon + "in:sessions"@;
    let held_b = response_b + colon + "in:sessions"@;
    assert(!word.contains(':'));
    if tenant_a + colon + copy_a == tenant_b + colon + copy_b {
        colon_splits(tenant_a, copy_a, tenant_b, copy_b);
        colon_splits(session_a, response_end(response_a), session_b, response_end(response_b));
        colon_splits(word, response_a, word, response_b);
    }
    if tenant_a + colon + index_a == tenant_b + colon + index_b {
        colon_splits(tenant_a, index_a, tenant_b, index_b);
        colon_splits(session_a, "response_ids"@, session_b, "response_ids"@);
    }
    if tenant_a + colon + (word + colon + held_a) == tenant_b + colon + (word + colon + held_b) {
        colon_splits(tenant_a, word + colon + held_a, tenant_b, word + colon + held_b);
        colon_splits(word, held_a, word, held_b);
        colon_splits(response_a, "in:sessions"@, response_b, "in:sessions"@);
    }
    if tenant_a + colon + copy_a == tenant_b + colon + index_b {
        colon_splits(tenant_a, copy_a, tenant_b, index_b);
        colon_splits(session_a, response_end(response_a), session_b, "response_ids"@);
        assert(response_end(response_a)[8] == 's');
        assert("response_ids"@[8] == '_');
    }
    if tenant_a + colon + copy_a == tenant_b + colon + (word + colon + held_b) {
        colon_splits(tenant_a, copy_a, tenant_b, word + colon + held_b);
        colon_splits(session_a, response_end(response_a), word, held_b);
        colon_splits(word, response_a, response_b, "in:sessions"@);
        assert("in:sessions"@[2] == ':');
        assert(response_a.contains(':'));
    }
    if tenant_a + colon + index_a == tenant_b + colon + (word + colon + held_b) {
        colon_splits(tenant_a, index_a, tenant_b, word + colon + held_b);
        colon_splits(session_a, "response_ids"@, word, held_b);
        assert(held_b[response_b.len() as int] == ':');
    }
}

/// A command that a store gives.
#[derive(Debug, Clone, Copy, PartialEq, Eq, Structural)]
#[allow(inconsistent_fields)]
pub enum StoreCommand {
    /// `SETEX` of the response under its key, for so many seconds.
    WriteFor {
        /// The seconds after which the response goes.
        seconds: u64,
    },
    /// `SET` of the response under its key.
    Write,
    /// `TTL` of the session's index.
    ReadIndexTtl,
    /// `SADD` of the response's identifier to the session's index.
    AddToIndex {
        /// The end that the index is then given, where it is.
        end: Option<i64>,
    },
    /// `EXPIRE` of the session's index, after so many seconds.
    ExpireIndex {
        /// The seconds after which the index goes.
        seconds: i64,
    },
    /// `PERSIST` of the session's index.
    PersistIndex,
    /// `TTL` of the set of the response's sessions.
    ReadSessionsTtl,
    /// `SADD` of the session to the set of the response's sessions.
    AddToSessions {
        /// The end that the set is then given, where it is.
        end: Option<i64>,
    },
    /// `EXPIRE` of the set of the response's sessions, after so many seconds.
    ExpireSessions {
        /// The seconds after which the set goes.
        seconds: i64,
    },
    /// `PERSIST` of the set of the response's sessions.
    PersistSessions,
    /// Nothing more: the response is stored.
    Finish,
}

/// What came back for a command.
#[derive(Debug, PartialEq, Eq)]
pub enum StoreReply {
    /// The command was carried out.
    Done,
    /// The seconds that a set has left: -2 where there is no set, -1 where it
    /// has no end.
    Left(i64),
    /// The command failed.
    Failed(String),
}

/// The first command of a store.
pub open spec fn first_command_of(ttl: Option<u64>) -> StoreCommand {
    match ttl {
        Some(seconds) => StoreCommand::WriteFor { seconds },
        None => StoreCommand::Write,
    }
}

/// Whether a set that has `left` seconds left is given an end so many seconds
/// away: where there is no set yet, or where that is later than its end. A set
/// without an end keeps none.
pub open spec fn extends(seconds: u64, left: i64) -> bool {
    left == -2 || (left >= 0 && (seconds as i64) > left)
}

/// The seconds that a set is taken to have left: it has no end where they could
/// not be read.
pub open spec fn seconds_left(reply: StoreReply) -> i64 {
    match reply {
        StoreReply::Left(left) => left,
        _ => (-1) as i64,
    }
}

/// The end that a set is given.
pub open spec fn end_given(ttl: Option<u64>, reply: StoreReply) -> Option<i64> {
    match ttl {
        Some(seconds) => if extends(seconds, seconds_left(reply)) {
            Some(seconds as i64)
        } else {
            None
        },
        None => None,
    }
}

/// The command that starts on the set of the response's sessions.
pub open spec fn first_of_sessions(ttl: Option<u64>) -> StoreCommand {
    if ttl is Some {
        StoreCommand::ReadSessionsTtl
    } else {
        StoreCommand::AddToSessions { end: None }
    }
}

/// The command after one that was carried out.
pub open spec fn command_after(
    ttl: Option<u64>,
    command: StoreCommand,
    reply: StoreReply,
) -> StoreCommand {
    match command {
        StoreCommand::WriteFor { .. } | StoreCommand::Write => if ttl is Some {
            StoreCommand::ReadIndexTtl
        } else {
            StoreCommand::AddToIndex { end: None }
        },
        StoreCommand::ReadIndexTtl => StoreCommand::AddToIndex { end: end_given(ttl, reply) },
        StoreCommand::AddToIndex { end } => match end {
            Some(seconds) => StoreCommand::ExpireIndex { seconds },
            None => if ttl is Some {
                first_of_sessions(ttl)
            } else {
                StoreCommand::PersistIndex
            },
        },
        StoreCommand::ExpireIndex { .. } | StoreCommand::PersistIndex => first_of_sessions(ttl),
        StoreCommand::ReadSessionsTtl => StoreCommand::AddToSessions {
            end: end_given(ttl, reply),
        },
        StoreCommand::AddToSessions { end } => match end {
            Some(seconds) => StoreCommand::ExpireSessions { seconds },
            None => if ttl is Some {
                StoreCommand::Finish
            } else {
                StoreCommand::PersistSessions
            },
        },
        StoreCommand::ExpireSessions { .. }
        | StoreCommand::PersistSessions
        | StoreCommand::Finish => StoreCommand::Finish,
    }
}

/// Whether a command can fail without ending the store: it only reads.
pub open spec fn only_reads(command: StoreCommand) -> bool {
    command is ReadIndexTtl || command is ReadSessionsTtl || command is Finish
}

/// What is said of a command that failed.
pub open spec fn failure_text(command: StoreCommand) -> Seq<char> {
    match command {
        StoreCommand::WriteFor { .. } | StoreCommand::Write => "Failed to store response: "@,
        StoreCommand::AddToIndex { .. } => "Failed to add to index: "@,
        StoreCommand::ExpireIndex { .. } => "Failed to set index TTL: "@,
        StoreCommand::PersistIndex => "Failed to persist index: "@,
        StoreCommand::AddToSessions { .. } => "Failed to add to sessions: "@,
        StoreCommand::ExpireSessions { .. } => "Failed to set sessions TTL: "@,
        StoreCommand::PersistSessions => "Failed to persist sessions: "@,
        _ => ""@,
    }
}

/// The first command of a store of a response that lives so many seconds.
pub fn first_command(ttl: Option<u64>) -> (res: StoreCommand)
    ensures
        res == first_command_of(ttl),
{
    match ttl {
        Some(seconds) => StoreCommand::WriteFor { seconds },
        None => StoreCommand::Write,
    }
}

/// The end that a set is given.
fn choose_end(ttl: Option<u64>, reply: &StoreReply) -> (res: Option<i64>)
    ensures
        res == end_given(ttl, *reply),
{
    match ttl {
        Some(seconds) => {
            let left: i64 = match reply {
                StoreReply::Left(left) => *left,
                _ => -1,
            };
            let wanted: i64 = seconds as i64;
            if left == -2 || (left >= 0 && wanted > left) {
                Some(wanted)
            } else {
                None
            }
        },
        None => None,
    }
}

/// What is said of a command that failed.
fn failure_words(command: StoreCommand) -> (res: &'static str)
    ensures
        res@ == failure_text(command),
{
    match command {
        StoreCommand::WriteFor { .. } | StoreCommand::Write => "Failed to store response: ",
        StoreCommand::AddToIndex { .. } => "Failed to add to index: ",
        StoreCommand::ExpireIndex { .. } => "Failed to set index TTL: ",
        StoreCommand::PersistIndex => "Failed to persist index: ",
        StoreCommand::AddToSessions { .. } => "Failed to add to sessions: ",
        StoreCommand::ExpireSessions { .. } => "Failed to set sessions TTL: ",
        StoreCommand::PersistSessions => "Failed to persist sessions: ",
        StoreCommand::ReadIndexTtl
        | StoreCommand::ReadSessionsTtl
        | StoreCommand::Finish => "",
    }
}

/// The next command of a store, or the error that ends it. That a set's seconds
/// could not be read is no error.
pub fn next_command(ttl: Option<u64>, command: StoreCommand, reply: &StoreReply) -> (res: Result<
    StoreCommand,
    StorageError,
>)
    ensures
        match res {
            Ok(next) => {
                &&& !(reply is Failed) || only_reads(command)
                &&& next == command_after(ttl, command, *reply)
            },
            Err(e) => {
                &&& !only_reads(command)
                &&& reply matches StoreReply::Failed(why) && e matches StorageError::BackendError(
                    text,
                ) && text@ == failure_text(command) + why@
            },
        },
{
    if let StoreReply::Failed(why) = reply {
        let reads = match command {
            StoreCommand::ReadIndexTtl
            | StoreCommand::ReadSessionsTtl
            | StoreCommand::Finish => true,
            _ => false,
        };
        if !reads {
            return Err(
                StorageError::BackendError(text::join2(failure_words(command), why.as_str())),
            );
        }
    }
    let sessions = match ttl {
        Some(_) => StoreCommand::ReadSessionsTtl,
        None => StoreCommand::AddToSessions { end: None },
    };
    let next = match command {
        StoreCommand::WriteFor { .. } | StoreCommand::Write => match ttl {
            Some(_) => StoreCommand::ReadIndexTtl,
            None => StoreCommand::AddToIndex { end: None },
        },
        StoreCommand::ReadIndexTtl => StoreCommand::AddToIndex { end: choose_end(ttl, reply) },
        StoreCommand::AddToIndex { end } => match end {
            Some(seconds) => StoreCommand::ExpireIndex { seconds },
            None => match ttl {
                Some(_) => sessions,
                None => StoreCommand::PersistIndex,
            },
        },
        StoreCommand::ExpireIndex { .. } | StoreCommand::PersistIndex => sessions,
        StoreCommand::ReadSessionsTtl => StoreCommand::AddToSessions {
            end: choose_end(ttl, reply),
        },
        StoreCommand::AddToSessions { end } => match end {
            Some(seconds) => StoreCommand::ExpireSessions { seconds },
            None => match ttl {
                Some(_) => StoreCommand::Finish,
                None => StoreCommand::PersistSessions,
            },
        },
        StoreCommand::ExpireSessions { .. }
        | StoreCommand::PersistSessions
        | StoreCommand::Finish => StoreCommand::Finish,
    };
    Ok(next)
}

/// What is replied to a command that is carried out, where the index has
/// `index` seconds left and the set of the response's sessions `sessions`.
pub open spec fn reply_to(command: StoreCommand, index: i64, sessions: i64) -> StoreReply {
    match command {
        StoreCommand::ReadIndexTtl => StoreReply::Left(index),
        StoreCommand::ReadSessionsTtl => StoreReply::Left(sessions),
        _ => StoreReply::Done,
    }
}

/// The commands of a store from the given one on, where every command is
/// carried out and the two sets have so many seconds left.
pub open spec fn commands_from(
    ttl: Option<u64>,
    command: StoreCommand,
    index: i64,
    sessions: i64,
) -> Seq<StoreCommand>
    decreases commands_left(command),
{
    if command is Finish {
        Seq::empty()
    } else {
        seq![command] + commands_from(
            ttl,
            command_after(ttl, command, reply_to(command, index, sessions)),
            index,
            sessions,
        )
    }
}

/// At most how many commands are left.
pub open spec fn commands_left(command: StoreCommand) -> nat {
    match command {
        StoreCommand::WriteFor { .. } | StoreCommand::Write => 7,
        StoreCommand::ReadIndexTtl => 6,
        StoreCommand::AddToIndex { .. } => 5,
        StoreCommand::ExpireIndex { .. } | StoreCommand::PersistIndex => 4,
        StoreCommand::ReadSessionsTtl => 3,
        StoreCommand::AddToSessions { .. } => 2,
        StoreCommand::ExpireSessions { .. } | StoreCommand::PersistSessions => 1,
        StoreCommand::Finish => 0,
    }
}

/// The commands that see to the session's index.
pub open spec fn index_commands(ttl: Option<u64>, left: i64) -> Seq<StoreCommand> {
    match ttl {
        None => seq![StoreCommand::AddToIndex { end: None }, StoreCommand::PersistIndex],
        Some(seconds) => if extends(seconds, left) {
            seq![
                StoreCommand::ReadIndexTtl,
                StoreCommand::AddToIndex { end: Some(seconds as i64) },
                StoreCommand::ExpireIndex { seconds: seconds as i64 },
            ]
        } else {
            seq![StoreCommand::ReadIndexTtl, StoreCommand::AddToIndex { end: None }]
        },
    }
}

/// The commands that see to the set of the response's sessions.
pub open spec fn sessions_commands(ttl: Option<u64>, left: i64) -> Seq<StoreCommand> {
    match ttl {
        None => seq![StoreCommand::AddToSessions { end: None }, StoreCommand::PersistSessions],
        Some(seconds) => if extends(seconds, left) {
            seq![
                StoreCommand::ReadSessionsTtl,
                StoreCommand::AddToSessions { end: Some(seconds as i64) },
                StoreCommand::ExpireSessions { seconds: seconds as i64 },
            ]
        } else {
            seq![StoreCommand::ReadSessionsTtl, StoreCommand::AddToSessions { end: None }]
        },
    }
}

/// A store writes the response, then sees to the session's index, then to the
/// set of the response's sessions. Without a time to live each set is kept for
/// good; with one a new set is made to live that long, and one that is there
/// lives that long unless it lives longer or has no end.
pub proof fn store_commands(ttl: Option<u64>, index: i64, sessions: i64)
    ensures
        commands_from(ttl, first_command_of(ttl), index, sessions) == seq![first_command_of(ttl)]
            + index_commands(ttl, index) + sessions_commands(ttl, sessions),
{
    reveal_with_fuel(commands_from, 8);
    assert(commands_from(ttl, first_command_of(ttl), index, sessions) =~= seq![
        first_command_of(ttl),
    ] + index_commands(ttl, index) + sessions_commands(ttl, sessions));
}

/// The seconds that a set has left after a store, where it had `left` before:
/// -1 where it has no end.
pub open spec fn left_after(ttl: Option<u64>, left: i64) -> i64 {
    match ttl {
        None => (-1) as i64,
        Some(_) => match end_given(ttl, StoreReply::Left(left)) {
            Some(seconds) => seconds,
            None => left,
        },
    }
}

/// A set never ends before what a store adds to it, nor earlier than it would
/// have ended: a set without an end keeps none, and one with an end ends at the
/// later of its own and the response's.
pub proof fn index_outlives_response(ttl: Option<u64>, left: i64)
    requires
        left >= -2,
        ttl matches Some(seconds) ==> seconds <= i64::MAX,
    ensures
        ({
            let after = left_after(ttl, left);
            &&& ttl is None || left == -1 ==> after == -1
            &&& ttl matches Some(seconds) ==> left == -2 ==> after == seconds
            &&& ttl matches Some(seconds) ==> left >= 0 ==> after >= seconds && after >= left && (
            after == seconds || after == left)
        }),
{
}

/// Whether some copy of a response can expire.
pub open spec fn some_copy_ends(
    copies: Seq<Record>,
    tenant_id: Seq<char>,
    response_id: Seq<char>,
) -> bool {
    exists|i: int|
        0 <= i < copies.len() && (#[trigger] copies[i]).tenant_id == tenant_id
            && copies[i].response_id == response_id && copies[i].expires_at is Some
}

fn any_copy_ends(copies: &Vec<StoredResponse>, tenant_id: &str, response_id: &str) -> (res: bool)
    ensures
        res == some_copy_ends(records::records(copies@), tenant_id@, response_id@),
{
    let ghost all = records::records(copies@);
    let mut i: usize = 0;
    while i < copies.len()
        invariant
            i <= copies.len(),
            all == records::records(copies@),
            forall|j: int|
                0 <= j < i ==> !((#[trigger] all[j]).tenant_id == tenant_id@ && all[j].response_id
                    == response_id@ && all[j].expires_at is Some),
        decreases copies.len() - i,
    {
        let item = &copies[i];
        assert(all[i as int] == item@);
        if item.expires_at.is_some() && text_eq(item.tenant_id.as_str(), tenant_id) && text_eq(
            item.response_id.as_str(),
            response_id,
        ) {
            return true;
        }
        i = i + 1;
    }
    false
}

/// Accepts one of the copies of a response that were read: the session's own,
/// else another session's of the tenant. What is past its time, or of another
/// tenant, is not found. `now` is the clock's error where the clock stands
/// before the Unix epoch; that is an error where a copy can expire.
pub fn accept_retrieved(
    copies: &Vec<StoredResponse>,
    tenant_id: &str,
    session_id: &str,
    response_id: &str,
    now: Result<u64, String>,
) -> (res: Result<StoredResponse, StorageError>)
    ensures
        ({
            let read = records::records(copies@);
            match now {
                Err(why) if some_copy_ends(read, tenant_id@, response_id@) => res matches Err(e)
                    && e matches StorageError::BackendError(text) && text@
                    == "System time error: "@ + why@,
                _ => {
                    let time = match now {
                        Ok(time) => time,
                        Err(_) => 0,
                    };
                    match shown_copy(read, tenant_id@, session_id@, response_id@, time) {
                        Some(i) => res matches Ok(found) && found@ == read[i],
                        None => res matches Err(e) && e is NotFound,
                    }
                },
            }
        }),
{
    let time: u64 = match now {
        Ok(time) => time,
        Err(why) => {
            if any_copy_ends(copies, tenant_id, response_id) {
                return Err(
                    StorageError::BackendError(text::join2("System time error: ", why.as_str())),
                );
            }
            0
        },
    };
    match find_copy(copies, tenant_id, session_id, response_id, time) {
        Some(i) => Ok(copies[i].duplicate()),
        None => Err(StorageError::NotFound),
    }
}

/// A response that has one copy is shown to every session of its tenant, until
/// it expires, and to no other tenant.
pub proof fn only_copy_is_shown(
    record: Record,
    tenant_id: Seq<char>,
    session_id: Seq<char>,
    now: u64,
)
    ensures
        shown_copy(seq![record], tenant_id, session_id, record.response_id, now) == (if tenant_id
            == record.tenant_id && !record.expired(now) {
            Some(0int)
        } else {
            None
        }),
{
    reveal_with_fuel(shown_copy, 2);
    assert(seq![record].drop_last() =~= Seq::empty());
}

/// The records of a tenant's session that are not past their time.
pub open spec fn live(
    all: Seq<Record>,
    tenant_id: Seq<char>,
    session_id: Seq<char>,
    now: u64,
) -> Seq<Record>
    decreases all.len(),
{
    if all.len() == 0 {
        Seq::empty()
    } else {
        let rest = live(all.drop_last(), tenant_id, session_id, now);
        let last = all.last();
        if !last.expired(now) && last.tenant_id == tenant_id && last.session_id == session_id {
            rest.push(last)
        } else {
            rest
        }
    }
}

/// The list that is shown, made from the records that were read.
pub fn assemble_list(
    read: Vec<StoredResponse>,
    tenant_id: &str,
    session_id: &str,
    now: u64,
    limit: Option<usize>,
    after: Option<&str>,
) -> (res: Vec<StoredResponse>)
    ensures
        records::records(res@) == page(
            in_order(live(records::records(read@), tenant_id@, session_id@, now)),
            limit,
            opt_chars(after),
        ),
{
    let ghost all = records::records(read@);
    let mut kept: Vec<StoredResponse> = Vec::new();
    let mut i: usize = 0;
    assert(records::records(kept@) =~= live(all.take(0), tenant_id@, session_id@, now));
    while i < read.len()
        invariant
            i <= read.len(),
            all == records::records(read@),
            records::records(kept@) == live(all.take(i as int), tenant_id@, session_id@, now),
        decreases read.len() - i,
    {
        let item = &read[i];
        let ghost before = kept@;
        assert(all.take(i + 1).drop_last() =~= all.take(i as int));
        let fresh = match item.expires_at {
            Some(at) => now <= at,
            None => true,
        };
        if fresh && text_eq(item.tenant_id.as_str(), tenant_id) && text_eq(
            item.session_id.as_str(),
            session_id,
        ) {
            kept.push(item.duplicate());
            assert(records::records(kept@) =~= records::records(before).push(item@));
        }
        i = i + 1;
    }
    assert(all.take(i as int) =~= all);
    take_page(sort_responses(kept), limit, after)
}

/// A list holds only what belongs to the tenant's session and is not past its
/// time, in order.
pub proof fn list_is_live(all: Seq<Record>, tenant_id: Seq<char>, session_id: Seq<char>, now: u64)
    ensures
        ({
            let list = in_order(live(all, tenant_id, session_id, now));
            &&& records::ordered(list)
            &&& forall|i: int|
                0 <= i < list.len() ==> !(#[trigger] list[i]).expired(now) && list[i].tenant_id
                    == tenant_id && list[i].session_id == session_id
        }),
{
    broadcast use vstd::seq_lib::group_to_multiset_ensures;

    let kept = live(all, tenant_id, session_id, now);
    let list = in_order(kept);
    records::in_order_sorts(kept);
    live_holds(all, tenant_id, session_id, now);
    assert forall|i: int| 0 <= i < list.len() implies !(#[trigger] list[i]).expired(now)
        && list[i].tenant_id == tenant_id && list[i].session_id == session_id by {
        assert(list.contains(list[i]));
        assert(list.to_multiset().count(list[i]) > 0);
        assert(kept.to_multiset().count(list[i]) > 0);
        assert(kept.contains(list[i]));
    }
}

proof fn live_holds(all: Seq<Record>, tenant_id: Seq<char>, session_id: Seq<char>, now: u64)
    ensures
        ({
            let kept = live(all, tenant_id, session_id, now);
            forall|i: int|
                0 <= i < kept.len() ==> !(#[trigger] kept[i]).expired(now) && kept[i].tenant_id
                    == tenant_id && kept[i].session_id == session_id
        }),
    decreases all.len(),
{
    if all.len() > 0 {
        live_holds(all.drop_last(), tenant_id, session_id, now);
    }
}

} // verus!
