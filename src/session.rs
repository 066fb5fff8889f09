//! Conversational sessions and the store that keeps them.

use vstd::prelude::*;

verus! {

/// Seconds a session stays alive after its last access (24 hours).
pub const SESSION_TTL_SECS: i64 = 86400;

/// Server-side conversational state, keyed by an opaque id.
pub struct Session {
    pub id: String,
    /// Absolute expiry, in seconds since the Unix epoch.
    pub expires_at: i64,
    /// Conversation state accumulated by the query coordinator.
    pub history: Vec<String>,
}

/// Mathematical model of a session.
pub struct SessionView {
    pub id: Seq<char>,
    pub expires_at: i64,
    pub history: Seq<Seq<char>>,
}

pub open spec fn strings_view(v: Seq<String>) -> Seq<Seq<char>> {
    v.map_values(|s: String| s@)
}

impl View for Session {
    type V = SessionView;

    open spec fn view(&self) -> SessionView {
        SessionView { id: self.id@, expires_at: self.expires_at, history: strings_view(self.history@) }
    }
}

/// A fresh session created at `now`: empty history, expiring one TTL later.
pub open spec fn fresh_session(id: Seq<char>, now: int) -> SessionView {
    SessionView { id, expires_at: (now + SESSION_TTL_SECS) as i64, history: Seq::empty() }
}

/// The clock reading is far enough from the end of `i64` to add a TTL.
pub open spec fn now_in_range(now: i64) -> bool {
    now <= i64::MAX - SESSION_TTL_SECS
}

pub fn copy_strings(v: &Vec<String>) -> (r: Vec<String>)
    ensures
        r@ == v@,
{
    let mut r: Vec<String> = Vec::new();
    let mut i: usize = 0;
    while i < v.len()
        invariant
            i <= v.len(),
            r@ == v@.subrange(0, i as int),
        decreases v.len() - i,
    {
        r.push(v[i].clone());
        i += 1;
    }
    assert(r@ =~= v@);
    r
}

impl Session {
    /// A new session for `id` at time `now`.
    pub fn new(id: String, now: i64) -> (r: Session)
        requires
            now_in_range(now),
        ensures
            r@ == fresh_session(id@, now as int),
    {
        let r = Session { id, expires_at: now + SESSION_TTL_SECS, history: Vec::new() };
        assert(strings_view(r.history@) =~= Seq::<Seq<char>>::empty());
        r
    }

    pub fn duplicate(&self) -> (r: Session)
        ensures
            r@ == self@,
    {
        Session { id: self.id.clone(), expires_at: self.expires_at, history: copy_strings(&self.history) }
    }

    /// Moves the expiry to `at`.
    pub fn set_expiry(&mut self, at: i64)
        ensures
            final(self)@ == (SessionView { expires_at: at, ..old(self)@ }),
    {
        self.expires_at = at;
    }
}

/// The map from id to session that a sequence of sessions denotes; a later
/// entry shadows an earlier one with the same id.
pub open spec fn sessions_map(s: Seq<SessionView>) -> Map<Seq<char>, SessionView>
    decreases s.len(),
{
    if s.len() == 0 {
        Map::empty()
    } else {
        sessions_map(s.drop_last()).insert(s.last().id, s.last())
    }
}

pub open spec fn ids_unique(s: Seq<SessionView>) -> bool {
    forall|i: int, j: int| 0 <= i < j < s.len() ==> s[i].id != s[j].id
}

/// With unique ids, the map holds exactly the entries of the sequence.
pub proof fn lemma_sessions_map(s: Seq<SessionView>)
    requires
        ids_unique(s),
    ensures
        forall|i: int|
            0 <= i < s.len() ==> #[trigger] sessions_map(s).contains_key(s[i].id)
                && sessions_map(s)[s[i].id] == s[i],
        forall|k: Seq<char>|
            #[trigger] sessions_map(s).contains_key(k) ==> exists|i: int| 0 <= i < s.len() && s[i].id == k,
        sessions_map(s).dom().finite(),
        sessions_map(s).dom().len() == s.len(),
    decreases s.len(),
{
    if s.len() > 0 {
        let p = s.drop_last();
        assert(ids_unique(p));
        lemma_sessions_map(p);
        let m = sessions_map(s);
        assert forall|i: int| 0 <= i < s.len() implies #[trigger] m.contains_key(s[i].id) && m[s[i].id] == s[i] by {
            if i < s.len() - 1 {
                assert(p[i] == s[i]);
                assert(s[i].id != s.last().id);
            }
        }
        assert forall|k: Seq<char>| #[trigger] m.contains_key(k) implies exists|i: int| 0 <= i < s.len() && s[i].id == k by {
            if k != s.last().id {
                let i = choose|i: int| 0 <= i < p.len() && p[i].id == k;
                assert(s[i].id == k);
            } else {
                assert(s[s.len() - 1].id == k);
            }
        }
        if sessions_map(p).contains_key(s.last().id) {
            let i = choose|i: int| 0 <= i < p.len() && p[i].id == s.last().id;
            assert(s[i].id == s[s.len() - 1].id);
        }
    }
}

/// Store of sessions keyed by id. Callers share it behind one lock; saves
/// are upserts, so of two overlapping queries on one session the later save
/// wins.
pub struct SessionStore {
    sessions: Vec<Session>,
}

pub open spec fn session_views(v: Seq<Session>) -> Seq<SessionView> {
    v.map_values(|s: Session| s@)
}

/// The store after the sweep at `now`: the sessions that expire later than `now`.
pub open spec fn swept(m: Map<Seq<char>, SessionView>, now: i64) -> Map<Seq<char>, SessionView> {
    Map::new(|k: Seq<char>| m.contains_key(k) && m[k].expires_at > now, |k: Seq<char>| m[k])
}

impl View for SessionStore {
    type V = Map<Seq<char>, SessionView>;

    closed spec fn view(&self) -> Map<Seq<char>, SessionView> {
        sessions_map(session_views(self.sessions@))
    }
}

impl SessionStore {
    /// The store's internal invariant: no two records share an id.
    pub closed spec fn wf(&self) -> bool {
        ids_unique(session_views(self.sessions@))
    }

    pub proof fn lemma_finite(&self)
        requires
            self.wf(),
        ensures
            self@.dom().finite(),
    {
        lemma_sessions_map(session_views(self.sessions@));
    }

    /// Every session is stored under its own id.
    pub proof fn lemma_keys_are_ids(&self)
        requires
            self.wf(),
        ensures
            forall|k: Seq<char>| #[trigger] self@.contains_key(k) ==> self@[k].id == k,
    {
        let s = session_views(self.sessions@);
        lemma_sessions_map(s);
        assert forall|k: Seq<char>| #[trigger] self@.contains_key(k) implies self@[k].id == k by {
            let i = choose|i: int| 0 <= i < s.len() && s[i].id == k;
        }
    }

    pub fn new() -> (r: SessionStore)
        ensures
            r.wf(),
            r@ == Map::<Seq<char>, SessionView>::empty(),
    {
        let r = SessionStore { sessions: Vec::new() };
        assert(session_views(r.sessions@) =~= Seq::<SessionView>::empty());
        r
    }

    fn find(&self, id: &String) -> (r: Option<usize>)
        requires
            self.wf(),
        ensures
            r matches Some(i) ==> i < self.sessions.len() && self.sessions@[i as int].id@ == id@,
            r is None <==> !self@.contains_key(id@),
    {
        proof { lemma_sessions_map(session_views(self.sessions@)); }
        let mut i: usize = 0;
        while i < self.sessions.len()
            invariant
                i <= self.sessions.len(),
                self.wf(),
                forall|j: int| 0 <= j < i ==> self.sessions@[j].id@ != id@,
            decreases self.sessions.len() - i,
        {
            if self.sessions[i].id == *id {
                proof {
                    assert(session_views(self.sessions@)[i as int].id == id@);
                    lemma_sessions_map(session_views(self.sessions@));
                }
                return Some(i);
            }
            i += 1;
        }
        proof {
            if self@.contains_key(id@) {
                let j = choose|j: int| 0 <= j < self.sessions.len() && session_views(self.sessions@)[j].id == id@;
                assert(self.sessions@[j].id@ == id@);
            }
        }
        None
    }

    /// The session with id `id`, if the store holds one.
    pub fn get(&self, id: &String) -> (r: Option<Session>)
        requires
            self.wf(),
        ensures
            r is Some <==> self@.contains_key(id@),
            r matches Some(s) ==> s@ == self@[id@],
    {
        proof { lemma_sessions_map(session_views(self.sessions@)); }
        match self.find(id) {
            Some(i) => {
                proof { assert(session_views(self.sessions@)[i as int] == self.sessions@[i as int]@); }
                Some(self.sessions[i].duplicate())
            },
            None => None,
        }
    }

    /// Stores `session`, replacing any session with the same id.
    pub fn save(&mut self, session: Session)
        requires
            old(self).wf(),
        ensures
            final(self).wf(),
            final(self)@ == old(self)@.insert(session.id@, session@),
    {
        let ghost old_s = session_views(self.sessions@);
        let ghost v = session@;
        proof { lemma_sessions_map(old_s); }
        match self.find(&session.id) {
            Some(i) => {
                self.sessions.set(i, session);
                proof {
                    let s = session_views(self.sessions@);
                    assert(s =~= old_s.update(i as int, v));
                    assert forall|a: int, b: int| 0 <= a < b < s.len() implies s[a].id != s[b].id by {
                        assert(old_s[i as int].id == v.id);
                        if a != i && b != i {
                            assert(old_s[a] == s[a] && old_s[b] == s[b]);
                        } else if a == i {
                            assert(old_s[b] == s[b]);
                        } else {
                            assert(old_s[a] == s[a]);
                        }
                    }
                    lemma_sessions_map(s);
                    assert(self@ =~= sessions_map(old_s).insert(v.id, v)) by {
                        assert forall|k: Seq<char>| #[trigger] self@.contains_key(k) implies sessions_map(old_s).insert(v.id, v).contains_key(k) by {
                            let j = choose|j: int| 0 <= j < s.len() && s[j].id == k;
                            if j != i { assert(old_s[j] == s[j]); }
                        }
                        assert forall|k: Seq<char>| #[trigger] sessions_map(old_s).insert(v.id, v).contains_key(k) implies self@.contains_key(k) && self@[k] == sessions_map(old_s).insert(v.id, v)[k] by {
                            if k != v.id {
                                let j = choose|j: int| 0 <= j < old_s.len() && old_s[j].id == k;
                                assert(s[j] == old_s[j]);
                            } else {
                                assert(s[i as int] == v);
                            }
                        }
                    }
                }
            },
            None => {
                self.sessions.push(session);
                proof {
                    let s = session_views(self.sessions@);
                    assert(s =~= old_s.push(v));
                    assert(s.drop_last() =~= old_s);
                    assert forall|a: int, b: int| 0 <= a < b < s.len() implies s[a].id != s[b].id by {
                        if b == s.len() - 1 {
                            assert(old_s[a].id == s[a].id);
                        }
                    }
                }
            },
        }
    }

    /// Creates and stores a fresh session for `id` at time `now`, returning a copy.
    pub fn create(&mut self, id: String, now: i64) -> (r: Session)
        requires
            old(self).wf(),
            now_in_range(now),
        ensures
            final(self).wf(),
            r@ == fresh_session(id@, now as int),
            final(self)@ == old(self)@.insert(id@, fresh_session(id@, now as int)),
    {
        let s = Session::new(id, now);
        let r = s.duplicate();
        self.save(s);
        r
    }

    /// A snapshot of every stored session, in no particular order.
    pub fn list(&self) -> (r: Vec<Session>)
        requires
            self.wf(),
        ensures
            ids_unique(session_views(r@)),
            sessions_map(session_views(r@)) == self@,
    {
        let mut r: Vec<Session> = Vec::new();
        let mut i: usize = 0;
        while i < self.sessions.len()
            invariant
                i <= self.sessions.len(),
                session_views(r@) == session_views(self.sessions@).subrange(0, i as int),
            decreases self.sessions.len() - i,
        {
            let d = self.sessions[i].duplicate();
            let ghost before = r@;
            r.push(d);
            proof {
                assert(r@ == before.push(d));
                assert(session_views(r@) =~= session_views(before).push(d@));
                assert(session_views(r@) =~= session_views(self.sessions@).subrange(0, i + 1));
            }
            i += 1;
        }
        proof {
            assert(session_views(r@) =~= session_views(self.sessions@));
        }
        r
    }

    /// The ids of every stored session, each once, in no particular order.
    pub fn ids(&self) -> (r: Vec<String>)
        requires
            self.wf(),
        ensures
            r@.len() == self@.dom().len(),
            forall|i: int, j: int| 0 <= i < j < r@.len() ==> r@[i]@ != r@[j]@,
            forall|i: int| 0 <= i < r@.len() ==> self@.contains_key(#[trigger] r@[i]@),
            forall|k: Seq<char>| #[trigger] self@.contains_key(k) ==> exists|i: int| 0 <= i < r@.len() && r@[i]@ == k,
    {
        let ghost s = session_views(self.sessions@);
        proof { lemma_sessions_map(s); }
        let mut r: Vec<String> = Vec::new();
        let mut i: usize = 0;
        while i < self.sessions.len()
            invariant
                i <= self.sessions.len(),
                s == session_views(self.sessions@),
                r@.len() == i,
                forall|j: int| 0 <= j < i ==> #[trigger] r@[j]@ == s[j].id,
            decreases self.sessions.len() - i,
        {
            r.push(self.sessions[i].id.clone());
            i += 1;
        }
        proof {
            assert forall|a: int, b: int| 0 <= a < b < r@.len() implies r@[a]@ != r@[b]@ by {
                assert(r@[a]@ == s[a].id && r@[b]@ == s[b].id);
            }
            assert forall|a: int| 0 <= a < r@.len() implies self@.contains_key(#[trigger] r@[a]@) by {
                assert(r@[a]@ == s[a].id);
            }
            assert forall|k: Seq<char>| #[trigger] self@.contains_key(k) implies exists|a: int| 0 <= a < r@.len() && r@[a]@ == k by {
                let a = choose|a: int| 0 <= a < s.len() && s[a].id == k;
                assert(r@[a]@ == k);
            }
        }
        r
    }

    /// Removes every session whose expiry is at or before `now`; returns how many went.
    pub fn sweep_expired(&mut self, now: i64) -> (r: usize)
        requires
            old(self).wf(),
        ensures
            final(self).wf(),
            final(self)@ == swept(old(self)@, now),
            r == old(self)@.dom().len() - final(self)@.dom().len(),
    {
        let ghost s = session_views(self.sessions@);
        proof {
            lemma_sessions_map(s);
            assert(s.subrange(0, 0) =~= Seq::<SessionView>::empty());
            assert(swept(Map::empty(), now) =~= Map::<Seq<char>, SessionView>::empty());
        }
        let mut kept: Vec<Session> = Vec::new();
        let mut i: usize = 0;
        while i < self.sessions.len()
            invariant
                i <= self.sessions.len(),
                s == session_views(self.sessions@),
                ids_unique(s),
                ids_unique(session_views(kept@)),
                kept.len() <= i,
                sessions_map(session_views(kept@)) == swept(sessions_map(s.subrange(0, i as int)), now),
            decreases self.sessions.len() - i,
        {
            let ghost k = session_views(kept@);
            let ghost pre = s.subrange(0, i as int);
            let ghost v = s[i as int];
            proof {
                let post = s.subrange(0, i + 1);
                assert(post.drop_last() =~= pre);
                assert(ids_unique(pre));
                lemma_sessions_map(pre);
                lemma_sessions_map(k);
                if sessions_map(pre).contains_key(v.id) {
                    let a = choose|a: int| 0 <= a < pre.len() && pre[a].id == v.id;
                    assert(s[a].id == s[i as int].id);
                }
            }
            if self.sessions[i].expires_at > now {
                kept.push(self.sessions[i].duplicate());
                proof {
                    let k2 = session_views(kept@);
                    assert(k2 =~= k.push(v));
                    assert(k2.drop_last() =~= k);
                    assert forall|a: int, b: int| 0 <= a < b < k2.len() implies k2[a].id != k2[b].id by {
                        if b == k2.len() - 1 {
                            assert(k2[a] == k[a]);
                            assert(sessions_map(k).contains_key(k[a].id));
                        }
                    }
                    assert(swept(sessions_map(pre).insert(v.id, v), now) =~= swept(sessions_map(pre), now).insert(v.id, v));
                }
            } else {
                proof {
                    assert(swept(sessions_map(pre).insert(v.id, v), now) =~= swept(sessions_map(pre), now));
                }
            }
            i += 1;
        }
        proof {
            assert(s.subrange(0, s.len() as int) =~= s);
            lemma_sessions_map(session_views(kept@));
        }
        let r = self.sessions.len() - kept.len();
        self.sessions = kept;
        r
    }
}

} // verus!
