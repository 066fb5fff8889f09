//! The daemon's per-connection protocol: length-prefixed frames, the
//! request/response envelope, and the decisions taken for one request.
//!
//! The socket I/O and the query coordinator live with the caller, which
//! hands each request to [`dispatch_request`] and each coordinator outcome
//! to [`finish_query`].

use vstd::prelude::*;
use crate::session::{
    Session, SessionStore, SessionView, SESSION_TTL_SECS, fresh_session, now_in_range,
    strings_view, swept,
};

verus! {

/// Query text of the liveness probe.
pub open spec fn ping_query() -> Seq<char> {
    "__PING__"@
}

/// Acknowledgement returned for the liveness probe.
pub open spec fn pong_text() -> Seq<char> {
    "PONG"@
}

/// Query text of the command that lists active sessions.
pub open spec fn list_sessions_query() -> Seq<char> {
    "__LIST_SESSIONS__"@
}

/// Prefix of the error reported when the query coordinator fails.
pub open spec fn query_failure_prefix() -> Seq<char> {
    "Failed to process query: "@
}

pub open spec fn opt_view(o: Option<String>) -> Option<Seq<char>> {
    match o {
        Some(s) => Some(s@),
        None => None,
    }
}

pub fn copy_opt(o: &Option<String>) -> (r: Option<String>)
    ensures
        opt_view(r) == opt_view(*o),
{
    match o {
        Some(s) => Some(s.clone()),
        None => None,
    }
}

/// A query sent by a client.
pub struct Request {
    pub query: String,
    pub session_id: Option<String>,
}

/// The answer to one request.
pub struct Response {
    pub response: String,
    pub session_id: Option<String>,
    pub error: Option<String>,
}

pub struct ResponseView {
    pub response: Seq<char>,
    pub session_id: Option<Seq<char>>,
    pub error: Option<Seq<char>>,
}

impl View for Response {
    type V = ResponseView;

    open spec fn view(&self) -> ResponseView {
        ResponseView {
            response: self.response@,
            session_id: opt_view(self.session_id),
            error: opt_view(self.error),
        }
    }
}

/// The three kinds of request the daemon tells apart.
#[derive(PartialEq, Eq, Structural, Clone, Copy, Debug)]
pub enum RequestKind {
    Ping,
    ListSessions,
    Query,
}

pub open spec fn kind_of(query: Seq<char>) -> RequestKind {
    if query == list_sessions_query() {
        RequestKind::ListSessions
    } else if query == ping_query() {
        RequestKind::Ping
    } else {
        RequestKind::Query
    }
}

/// Which kind of request `query` makes; both commands are exact matches.
pub fn request_kind(query: &String) -> (r: RequestKind)
    ensures
        r == kind_of(query@),
{
    let list = "__LIST_SESSIONS__".to_string();
    let ping = "__PING__".to_string();
    if *query == list {
        RequestKind::ListSessions
    } else if *query == ping {
        RequestKind::Ping
    } else {
        RequestKind::Query
    }
}

pub open spec fn ping_reply(session_id: Option<Seq<char>>) -> ResponseView {
    ResponseView { response: pong_text(), session_id, error: None }
}

/// The acknowledgement of a liveness probe: echoes the session id.
pub fn ping_response(req: &Request) -> (r: Response)
    ensures
        r@ == ping_reply(opt_view(req.session_id)),
{
    Response { response: "PONG".to_string(), session_id: copy_opt(&req.session_id), error: None }
}

/// What the JSON encoding of a list of strings is.
pub uninterp spec fn json_string_array(items: Seq<Seq<char>>) -> Seq<char>;

/// Relies on serde_json::to_string: a `Vec<String>` serialises as a JSON
/// array of its strings, in order. Strings serialise without error, so the
/// error arm is never taken.
#[verifier::external_body]
fn encode_string_list(items: &Vec<String>) -> (r: String)
    ensures
        r@ == json_string_array(strings_view(items@)),
{
    serde_json::to_string(items).unwrap_or_default()
}

/// `ids` lists the keys of `m`, each exactly once.
pub open spec fn lists_keys(ids: Seq<Seq<char>>, m: Map<Seq<char>, SessionView>) -> bool {
    &&& ids.len() == m.dom().len()
    &&& forall|i: int, j: int| 0 <= i < j < ids.len() ==> ids[i] != ids[j]
    &&& forall|i: int| 0 <= i < ids.len() ==> m.contains_key(#[trigger] ids[i])
    &&& forall|k: Seq<char>| #[trigger] m.contains_key(k) ==> exists|i: int| 0 <= i < ids.len() && ids[i] == k
}

/// Answer to the list-sessions command: the ids of all sessions as a JSON
/// array, with no session id.
pub fn handle_list_sessions(store: &SessionStore) -> (r: Response)
    requires
        store.wf(),
    ensures
        r.session_id is None,
        r.error is None,
        exists|ids: Seq<Seq<char>>| lists_keys(ids, store@) && r.response@ == json_string_array(ids),
{
    let ids = store.ids();
    let text = encode_string_list(&ids);
            proof {
                let v = strings_view(ids@);
                assert forall|i: int, j: int| 0 <= i < j < v.len() implies v[i] != v[j] by {
                    assert(v[i] == ids@[i]@ && v[j] == ids@[j]@);
                }
                assert forall|i: int| 0 <= i < v.len() implies store@.contains_key(#[trigger] v[i]) by {
                    assert(v[i] == ids@[i]@);
                }
                assert forall|k: Seq<char>| #[trigger] store@.contains_key(k) implies exists|i: int| 0 <= i < v.len() && v[i] == k by {
                    let i = choose|i: int| 0 <= i < ids@.len() && ids@[i]@ == k;
                    assert(v[i] == k);
                }
                assert(lists_keys(v, store@));
            }
    Response { response: text, session_id: None, error: None }
}

/// The session that a normal query works on: the stored one, or a fresh one
/// when the id is unknown; either way it expires one TTL after `now`.
pub open spec fn opened_session(m: Map<Seq<char>, SessionView>, id: Seq<char>, now: int) -> SessionView {
    let base = if m.contains_key(id) { m[id] } else { fresh_session(id, now) };
    SessionView { expires_at: (now + SESSION_TTL_SECS) as i64, ..base }
}

/// The store after a normal query has opened session `id`: a fresh record is
/// added for an unknown id, and nothing else changes.
pub open spec fn store_after_open(m: Map<Seq<char>, SessionView>, id: Seq<char>, now: int) -> Map<Seq<char>, SessionView> {
    if m.contains_key(id) { m } else { m.insert(id, fresh_session(id, now)) }
}

/// The stored session for `id`, or a new one created and stored at `now`.
pub fn get_or_create_session(store: &mut SessionStore, id: &String, now: i64) -> (r: Session)
    requires
        old(store).wf(),
        now_in_range(now),
    ensures
        final(store).wf(),
        final(store)@ == store_after_open(old(store)@, id@, now as int),
        r@ == (if old(store)@.contains_key(id@) { old(store)@[id@] } else { fresh_session(id@, now as int) }),
{
    match store.get(id) {
        Some(s) => s,
        None => store.create(id.clone(), now),
    }
}

/// Fetches or creates session `id` and moves its expiry to one TTL after `now`.
pub fn open_session(store: &mut SessionStore, id: &String, now: i64) -> (r: Session)
    requires
        old(store).wf(),
        now_in_range(now),
    ensures
        final(store).wf(),
        final(store)@ == store_after_open(old(store)@, id@, now as int),
        r@ == opened_session(old(store)@, id@, now as int),
{
    let mut s = get_or_create_session(store, id, now);
    s.set_expiry(now + SESSION_TTL_SECS);
    s
}

/// A normal query waiting for the query coordinator.
pub struct PendingQuery {
    pub session_id: String,
    pub session: Session,
    pub query: String,
}

/// What the caller does next with a request.
pub enum Dispatch {
    /// Send this response; the coordinator is not involved.
    Reply(Response),
    /// Run the coordinator on the pending query, then call [`finish_query`].
    Process(PendingQuery),
}

/// Failures that end a connection without a response.
#[derive(PartialEq, Eq, Structural, Clone, Copy, Debug)]
pub enum ServerError {
    /// The clock reading is too close to the end of the timestamp range.
    ClockOutOfRange,
    /// The system clock could not be read as a timestamp.
    ClockUnavailable,
}

pub open spec fn resolved_id(requested: Option<Seq<char>>, fallback: Seq<char>) -> Seq<char> {
    match requested {
        Some(id) => id,
        None => fallback,
    }
}

/// Decides what to do with `req` at time `now`. A normal query without a
/// session id gets `fallback_id`.
pub fn dispatch_request(store: &mut SessionStore, req: Request, now: i64, fallback_id: String) -> (r: Result<Dispatch, ServerError>)
    requires
        old(store).wf(),
    ensures
        final(store).wf(),
        kind_of(req.query@) == RequestKind::Ping ==> final(store)@ == old(store)@ && (r matches Ok(Dispatch::Reply(resp)) && resp@ == ping_reply(opt_view(req.session_id))),
        kind_of(req.query@) == RequestKind::ListSessions ==> final(store)@ == old(store)@ && (r matches Ok(Dispatch::Reply(resp)) && {
            &&& resp.session_id is None
            &&& resp.error is None
            &&& exists|ids: Seq<Seq<char>>| lists_keys(ids, old(store)@) && resp.response@ == json_string_array(ids)
        }),
        kind_of(req.query@) == RequestKind::Query && !now_in_range(now) ==> final(store)@ == old(store)@ && r == Err::<Dispatch, ServerError>(ServerError::ClockOutOfRange),
        kind_of(req.query@) == RequestKind::Query && now_in_range(now) ==> {
            let id = resolved_id(opt_view(req.session_id), fallback_id@);
            &&& final(store)@ == store_after_open(old(store)@, id, now as int)
            &&& r matches Ok(Dispatch::Process(p))
            &&& p.session_id@ == id
            &&& p.session@ == opened_session(old(store)@, id, now as int)
            &&& p.query@ == req.query@
        },
{
    match request_kind(&req.query) {
        RequestKind::ListSessions => Ok(Dispatch::Reply(handle_list_sessions(store))),
        RequestKind::Ping => Ok(Dispatch::Reply(ping_response(&req))),
        RequestKind::Query => {
            if now > i64::MAX - SESSION_TTL_SECS {
                return Err(ServerError::ClockOutOfRange);
            }
            let id = match req.session_id {
                Some(id) => id,
                None => fallback_id,
            };
            let session = open_session(store, &id, now);
            Ok(Dispatch::Process(PendingQuery { session_id: id, session, query: req.query }))
        },
    }
}

pub open spec fn finished_response(session_id: Seq<char>, outcome: Result<Seq<char>, Seq<char>>) -> ResponseView {
    match outcome {
        Ok(text) => ResponseView { response: text, session_id: Some(session_id), error: None },
        Err(e) => ResponseView {
            response: Seq::empty(),
            session_id: Some(session_id),
            error: Some(query_failure_prefix() + e),
        },
    }
}

pub open spec fn outcome_view(o: Result<String, String>) -> Result<Seq<char>, Seq<char>> {
    match o {
        Ok(s) => Ok(s@),
        Err(e) => Err(e@),
    }
}

/// Persists the session as the coordinator left it, whatever the outcome,
/// and builds the response: the text on success, the error otherwise.
pub fn finish_query(store: &mut SessionStore, pending: PendingQuery, outcome: Result<String, String>) -> (r: Response)
    requires
        old(store).wf(),
    ensures
        final(store).wf(),
        final(store)@ == old(store)@.insert(pending.session.id@, pending.session@),
        r@ == finished_response(pending.session_id@, outcome_view(outcome)),
{
    store.save(pending.session);
    match outcome {
        Ok(text) => Response { response: text, session_id: Some(pending.session_id), error: None },
        Err(e) => {
            let msg = "Failed to process query: ".to_string().concat(e.as_str());
            Response { response: String::new(), session_id: Some(pending.session_id), error: Some(msg) }
        },
    }
}

/// Relies on uuid::Uuid::new_v4 and its hyphenated text form: a random id.
#[verifier::external_body]
fn new_session_id() -> (r: String)
    ensures
        r@.len() == 36,
{
    uuid::Uuid::new_v4().to_string()
}

/// Bound on the timestamps that chrono represents: its day count from the
/// common era fits an `i32`, so the seconds stay below 2^31 days.
pub open spec fn chrono_timestamp_bound() -> int {
    2147483648int * 86400
}

/// Relies on chrono::DateTime::from_timestamp and DateTime::timestamp, fed
/// with the system clock's time since the Unix epoch as chrono's Utc::now
/// does, but without its panics: `None` for a clock before the epoch or out
/// of chrono's range. from_timestamp returns `None` when the day count
/// leaves the `i32` range.
#[verifier::external_body]
fn current_timestamp() -> (r: Option<i64>)
    ensures
        r matches Some(t) ==> t < chrono_timestamp_bound(),
{
    let d = std::time::SystemTime::now().duration_since(std::time::UNIX_EPOCH).ok()?;
    chrono::DateTime::from_timestamp(d.as_secs() as i64, d.subsec_nanos()).map(|t| t.timestamp())
}

/// [`dispatch_request`] at the current time, with a random id for a normal
/// query that names no session.
pub fn dispatch_request_now(store: &mut SessionStore, req: Request) -> (r: Result<Dispatch, ServerError>)
    requires
        old(store).wf(),
    ensures
        final(store).wf(),
        kind_of(req.query@) == RequestKind::Ping ==> final(store)@ == old(store)@ && (r matches Ok(Dispatch::Reply(resp)) && resp@ == ping_reply(opt_view(req.session_id))),
        kind_of(req.query@) == RequestKind::ListSessions ==> final(store)@ == old(store)@ && (r matches Ok(Dispatch::Reply(resp)) && {
            &&& resp.session_id is None
            &&& resp.error is None
            &&& exists|ids: Seq<Seq<char>>| lists_keys(ids, old(store)@) && resp.response@ == json_string_array(ids)
        }),
        kind_of(req.query@) == RequestKind::Query ==> match r {
            Ok(Dispatch::Process(p)) => exists|now: i64| {
                &&& now_in_range(now)
                &&& req.session_id matches Some(id) ==> p.session_id@ == id@
                &&& final(store)@ == store_after_open(old(store)@, p.session_id@, now as int)
                &&& p.session@ == opened_session(old(store)@, p.session_id@, now as int)
                &&& p.session.id@ == p.session_id@
                &&& p.query@ == req.query@
            },
            Ok(Dispatch::Reply(_)) => false,
            Err(e) => e == ServerError::ClockUnavailable && final(store)@ == old(store)@,
        },
{
    proof { store.lemma_keys_are_ids(); }
    let now = match current_timestamp() {
        Some(t) => t,
        None => {
            if request_kind(&req.query) == RequestKind::Query {
                return Err(ServerError::ClockUnavailable);
            }
            0
        },
    };
    let fallback = match &req.session_id {
        Some(_) => String::new(),
        None => new_session_id(),
    };
    dispatch_request(store, req, now, fallback)
}

/// One pass of the session reaper: removes the sessions expired at the
/// current time and returns how many went; `None`, with the store left as it
/// is, when the clock cannot be read.
pub fn reap_expired_sessions(store: &mut SessionStore) -> (r: Option<usize>)
    requires
        old(store).wf(),
    ensures
        final(store).wf(),
        r is None ==> final(store)@ == old(store)@,
        r matches Some(n) ==> (exists|now: i64| final(store)@ == swept(old(store)@, now))
            && n == old(store)@.dom().len() - final(store)@.dom().len(),
{
    match current_timestamp() {
        Some(now) => Some(store.sweep_expired(now)),
        None => None,
    }
}

/// Every response but the one to the list-sessions command carries a session
/// id: a finished query always names its session, and a liveness probe echoes
/// the id it was given.
pub proof fn lemma_responses_carry_session_id(
    id: Seq<char>,
    outcome: Result<Seq<char>, Seq<char>>,
    requested: Seq<char>,
)
    ensures
        finished_response(id, outcome).session_id == Some(id),
        ping_reply(Some(requested)).session_id == Some(requested),
        kind_of(ping_query()) == RequestKind::Ping,
{
    reveal_strlit("__PING__");
    reveal_strlit("__LIST_SESSIONS__");
    assert(ping_query().len() != list_sessions_query().len());
}

/// Sweeping twice at the same time removes sessions only once: the second
/// sweep leaves the store as it is and removes none.
pub proof fn lemma_sweep_idempotent(m: Map<Seq<char>, SessionView>, now: i64)
    requires
        m.dom().finite(),
    ensures
        swept(swept(m, now), now) == swept(m, now),
        swept(m, now).dom().len() - swept(swept(m, now), now).dom().len() == 0,
{
    assert(swept(swept(m, now), now) =~= swept(m, now));
}

/// A normal query on an unknown id adds exactly one session, under that id,
/// expiring one TTL after `now`; once the query is finished the session is
/// stored with that expiry and appears in every listing of the store. Whatever
/// the coordinator leaves of the session, the finished store holds exactly
/// one key more than before.
pub proof fn lemma_unknown_id_creates_one_session(
    m: Map<Seq<char>, SessionView>,
    id: Seq<char>,
    now: i64,
    ids: Seq<Seq<char>>,
)
    requires
        m.dom().finite(),
        !m.contains_key(id),
        now_in_range(now),
        lists_keys(ids, store_after_open(m, id, now as int).insert(id, opened_session(m, id, now as int))),
    ensures
        store_after_open(m, id, now as int).dom() == m.dom().insert(id),
        store_after_open(m, id, now as int).dom().len() == m.dom().len() + 1,
        store_after_open(m, id, now as int)[id].expires_at == now + SESSION_TTL_SECS,
        opened_session(m, id, now as int).expires_at == now + SESSION_TTL_SECS,
        store_after_open(m, id, now as int).insert(id, opened_session(m, id, now as int))[id].expires_at
            == now + SESSION_TTL_SECS,
        exists|i: int| 0 <= i < ids.len() && ids[i] == id,
        forall|left: SessionView| #[trigger] store_after_open(m, id, now as int).insert(id, left).dom() == m.dom().insert(id)
            && store_after_open(m, id, now as int).insert(id, left).dom().len() == m.dom().len() + 1,
{
    let after = store_after_open(m, id, now as int);
    assert(after.dom() =~= m.dom().insert(id));
    assert forall|left: SessionView| #[trigger] after.insert(id, left).dom() == m.dom().insert(id) by {
        assert(after.insert(id, left).dom() =~= m.dom().insert(id));
    }
    let saved = after.insert(id, opened_session(m, id, now as int));
    assert(saved.contains_key(id));
}

/// Normal queries on two different session ids do not interfere: opening
/// and saving one leaves the other's session as it would have been, and the
/// order of the two makes no difference to the store.
pub proof fn lemma_distinct_sessions_independent(
    m: Map<Seq<char>, SessionView>,
    a: Seq<char>,
    b: Seq<char>,
    now_a: int,
    now_b: int,
    sa: SessionView,
    sb: SessionView,
)
    requires
        a != b,
    ensures
        opened_session(store_after_open(m, a, now_a), b, now_b) == opened_session(m, b, now_b),
        opened_session(m.insert(a, sa), b, now_b) == opened_session(m, b, now_b),
        store_after_open(store_after_open(m, a, now_a), b, now_b)
            == store_after_open(store_after_open(m, b, now_b), a, now_a),
        m.insert(a, sa).insert(b, sb) == m.insert(b, sb).insert(a, sa),
{
    assert(store_after_open(store_after_open(m, a, now_a), b, now_b)
        =~= store_after_open(store_after_open(m, b, now_b), a, now_a));
    assert(m.insert(a, sa).insert(b, sb) =~= m.insert(b, sb).insert(a, sa));
}

/// The store after normal queries on each of `ids` in turn, all at `now`,
/// each session saved as opened.
pub open spec fn store_after_queries(m: Map<Seq<char>, SessionView>, ids: Seq<Seq<char>>, now: int) -> Map<Seq<char>, SessionView>
    decreases ids.len(),
{
    if ids.len() == 0 {
        m
    } else {
        let prev = store_after_queries(m, ids.drop_last(), now);
        store_after_open(prev, ids.last(), now).insert(ids.last(), opened_session(prev, ids.last(), now))
    }
}

/// Normal queries on `n` distinct new ids leave `n` distinct new sessions,
/// each expiring one TTL after the time of its query, beside the old ones.
pub proof fn lemma_distinct_new_sessions(m: Map<Seq<char>, SessionView>, ids: Seq<Seq<char>>, now: int)
    requires
        m.dom().finite(),
        forall|i: int, j: int| 0 <= i < j < ids.len() ==> ids[i] != ids[j],
        forall|i: int| 0 <= i < ids.len() ==> !m.contains_key(#[trigger] ids[i]),
    ensures
        store_after_queries(m, ids, now).dom().finite(),
        store_after_queries(m, ids, now).dom().len() == m.dom().len() + ids.len(),
        forall|i: int| 0 <= i < ids.len() ==> #[trigger] store_after_queries(m, ids, now).contains_key(ids[i])
            && store_after_queries(m, ids, now)[ids[i]].expires_at == (now + SESSION_TTL_SECS) as i64
            && store_after_queries(m, ids, now)[ids[i]].id == ids[i],
        forall|k: Seq<char>| m.contains_key(k) ==> #[trigger] store_after_queries(m, ids, now).contains_key(k)
            && store_after_queries(m, ids, now)[k] == m[k],
    decreases ids.len(),
{
    if ids.len() > 0 {
        let p = ids.drop_last();
        lemma_distinct_new_sessions(m, p, now);
        let prev = store_after_queries(m, p, now);
        let id = ids.last();
        assert(!prev.contains_key(id)) by {
            if prev.contains_key(id) {
                if m.contains_key(id) {
                    assert(!m.contains_key(ids[ids.len() - 1]));
                } else {
                    assert(prev.dom().subset_of(m.dom().union(p.to_set()))) by {
                        assert forall|k: Seq<char>| prev.contains_key(k) implies m.dom().union(p.to_set()).contains(k) by {
                            lemma_queries_keys(m, p, now, k);
                        }
                    }
                    assert(p.to_set().contains(id));
                    let j = choose|j: int| 0 <= j < p.len() && p[j] == id;
                    assert(ids[j] == ids[ids.len() - 1]);
                }
            }
        }
        let after = store_after_queries(m, ids, now);
        assert forall|i: int| 0 <= i < ids.len() implies #[trigger] after.contains_key(ids[i])
            && after[ids[i]].expires_at == (now + SESSION_TTL_SECS) as i64 && after[ids[i]].id == ids[i] by {
            if i < ids.len() - 1 {
                assert(p[i] == ids[i]);
                assert(ids[i] != id);
            }
        }
        assert forall|k: Seq<char>| m.contains_key(k) implies #[trigger] after.contains_key(k) && after[k] == m[k] by {
            assert(k != id);
        }
    }
}

/// Every key in the store after a run of queries was there before or was queried.
proof fn lemma_queries_keys(m: Map<Seq<char>, SessionView>, ids: Seq<Seq<char>>, now: int, k: Seq<char>)
    requires
        store_after_queries(m, ids, now).contains_key(k),
    ensures
        m.contains_key(k) || ids.to_set().contains(k),
    decreases ids.len(),
{
    if ids.len() > 0 {
        let p = ids.drop_last();
        if k != ids.last() {
            lemma_queries_keys(m, p, now, k);
            if p.to_set().contains(k) {
                let j = choose|j: int| 0 <= j < p.len() && p[j] == k;
                assert(ids[j] == k);
            }
        } else {
            assert(ids[ids.len() - 1] == k);
        }
    }
}

} // verus!
