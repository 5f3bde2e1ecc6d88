//! Persistence engine for `LearningSession`. Sessions carry nested
//! collections, so contracts speak of session views. The table is kept
//! ordered by creation time, newest first, which makes recent-history
//! queries a prefix of a filtered read.

use vstd::prelude::*;

use crate::agent_repository::selected;
use crate::agent_repository::lemma_selected_push;
use crate::domain::AgentId;
use crate::domain::LearningSession;
use crate::domain::LearningSessionId;
use crate::domain::LearningSessionStatus;
use crate::domain::LearningSessionType;
use crate::error::Error;

verus! {

/// Sessions owned by the agent `id`.
pub open spec fn session_agent_is(id: u128) -> spec_fn(LearningSession) -> bool {
    |s: LearningSession| s.agent_id.0 == id
}

/// Sessions in status `status`.
pub open spec fn session_status_is(status: LearningSessionStatus) -> spec_fn(
    LearningSession,
) -> bool {
    |s: LearningSession| s.status == status
}

/// Sessions of type `session_type`.
pub open spec fn session_type_is(session_type: LearningSessionType) -> spec_fn(
    LearningSession,
) -> bool {
    |s: LearningSession| s.session_type == session_type
}

/// Sessions still live.
pub open spec fn session_is_active() -> spec_fn(LearningSession) -> bool {
    |s: LearningSession| s@.is_active()
}

/// How many of the sessions are in status `status`.
pub open spec fn count_session_status(rows: Seq<LearningSession>, status: LearningSessionStatus) -> nat
    decreases rows.len(),
{
    if rows.len() == 0 {
        0
    } else {
        count_session_status(rows.drop_last(), status) + if rows.last().status == status {
            1nat
        } else {
            0nat
        }
    }
}

/// How `count_session_status` grows when one session is appended.
pub proof fn lemma_count_session_status_push(
    rows: Seq<LearningSession>,
    s: LearningSession,
    status: LearningSessionStatus,
)
    ensures
        count_session_status(rows.push(s), status) == count_session_status(rows, status)
            + if s.status == status {
            1nat
        } else {
            0nat
        },
{
    assert(rows.push(s).drop_last() =~= rows);
}

/// The five status counts partition the session table: their sum is the
/// total count, because every session is in exactly one status.
pub proof fn lemma_session_status_counts_partition(rows: Seq<LearningSession>)
    ensures
        count_session_status(rows, LearningSessionStatus::Preparing) + count_session_status(
            rows,
            LearningSessionStatus::Training,
        ) + count_session_status(rows, LearningSessionStatus::Evaluating) + count_session_status(
            rows,
            LearningSessionStatus::Completed,
        ) + count_session_status(rows, LearningSessionStatus::Failed) == rows.len(),
    decreases rows.len(),
{
    if rows.len() > 0 {
        lemma_session_status_counts_partition(rows.drop_last());
    }
}

/// In-memory learning session store: one table of session rows, addressed
/// by identifier and kept ordered by creation time, newest first.
pub struct LearningSessionRepository {
    pub sessions: Vec<LearningSession>,
}

impl LearningSessionRepository {
    /// Whether a session with this identifier is stored.
    pub open spec fn has_id(self, id: u128) -> bool {
        exists|k: int| 0 <= k < self.sessions@.len() && #[trigger] self.sessions@[k].id.0 == id
    }

    /// Index of the session carrying `id`; meaningful when `has_id`.
    pub open spec fn index_of(self, id: u128) -> int {
        choose|k: int| 0 <= k < self.sessions@.len() && #[trigger] self.sessions@[k].id.0 == id
    }

    /// View of the stored session carrying `id`; meaningful when `has_id`.
    pub open spec fn session_of(self, id: u128) -> crate::domain::LearningSessionView {
        self.sessions@[self.index_of(id)]@
    }

    /// Number of stored sessions.
    pub open spec fn session_count(self) -> nat {
        self.sessions@.len()
    }

    /// Store invariant: identifiers unique, sessions well formed, the
    /// table ordered by creation time, newest first.
    pub open spec fn wf(self) -> bool {
        &&& forall|i: int, j: int|
            #![trigger self.sessions@[i], self.sessions@[j]]
            0 <= i < j < self.sessions@.len() ==> self.sessions@[i].id.0 != self.sessions@[j].id.0
        &&& forall|k: int| 0 <= k < self.sessions@.len() ==> (#[trigger] self.sessions@[k])@.wf()
        &&& forall|i: int, j: int|
            #![trigger self.sessions@[i], self.sessions@[j]]
            0 <= i <= j < self.sessions@.len() ==> self.sessions@[i].created_at
                >= self.sessions@[j].created_at
    }

    /// A session found at an index is the session of its identifier.
    pub proof fn lemma_lookup(self, id: u128, k: int)
        requires
            self.wf(),
            0 <= k < self.sessions@.len(),
            self.sessions@[k].id.0 == id,
        ensures
            self.has_id(id),
            self.index_of(id) == k,
            self.session_of(id) == self.sessions@[k]@,
    {
        assert(self.has_id(id));
        let c = self.index_of(id);
        if c < k {
            assert(self.sessions@[c].id.0 != self.sessions@[k].id.0);
        } else if c > k {
            assert(self.sessions@[k].id.0 != self.sessions@[c].id.0);
        }
    }

    /// An empty store.
    pub fn new() -> (r: Self)
        ensures
            r.wf(),
            r.session_count() == 0,
            forall|id: u128| !r.has_id(id),
    {
        LearningSessionRepository { sessions: Vec::new() }
    }

    /// Stores a new session at its place in creation-time order. A
    /// duplicate identifier is a `Conflict` and leaves the store untouched.
    /// The supplied session is echoed back unchanged.
    #[verifier::loop_isolation(false)]
    #[verifier::rlimit(100)]
    pub fn create(&mut self, session: &LearningSession) -> (r: Result<LearningSession, Error>)
        requires
            old(self).wf(),
            session@.wf(),
        ensures
            final(self).wf(),
            match r {
                Ok(stored) => {
                    &&& !old(self).has_id(session.id.0)
                    &&& stored@ == session@
                    &&& final(self).has_id(session.id.0)
                    &&& final(self).session_of(session.id.0) == session@
                    &&& final(self).session_count() == old(self).session_count() + 1
                    &&& forall|j: u128|
                        j != session.id.0 ==> final(self).has_id(j) == old(self).has_id(j)
                    &&& forall|j: u128|
                        j != session.id.0 && old(self).has_id(j) ==> final(self).session_of(j)
                            == old(self).session_of(j)
                },
                Err(e) => {
                    &&& e is Conflict
                    &&& old(self).has_id(session.id.0)
                    &&& *final(self) == *old(self)
                },
            },
    {
        let ghost pre = *self;
        let id: u128 = session.id.0;
        let mut i: usize = 0;
        while i < self.sessions.len()
            invariant
                i <= self.sessions@.len(),
                forall|k: int| 0 <= k < i ==> (#[trigger] self.sessions@[k]).id.0 != id,
            decreases self.sessions@.len() - i,
        {
            if self.sessions[i].id.0 == id {
                return Err(Error::Conflict("learning session id already stored".to_owned()));
            }
            i = i + 1;
        }

        let mut pos: usize = 0;
        while pos < self.sessions.len() && self.sessions[pos].created_at > session.created_at
            invariant
                pos <= self.sessions@.len(),
                forall|k: int|
                    0 <= k < pos ==> (#[trigger] self.sessions@[k]).created_at
                        > session.created_at,
            decreases self.sessions@.len() - pos,
        {
            pos = pos + 1;
        }

        let stored = session.clone();
        self.sessions.insert(pos, stored);
        proof {
            pre.sessions@.insert_ensures(pos as int, stored);
            let post = *self;
            assert(post.sessions@[pos as int] == stored);
            assert(post.wf()) by {
                assert forall|a: int, b: int|
                    #![trigger post.sessions@[a], post.sessions@[b]]
                    0 <= a < b < post.sessions@.len() implies post.sessions@[a].id.0
                    != post.sessions@[b].id.0 by {
                    if a == pos as int {
                        assert(post.sessions@[b] == pre.sessions@[b - 1]);
                    } else if b == pos as int {
                        assert(post.sessions@[a] == pre.sessions@[a]);
                    } else {
                        let pa = if a < pos as int { a } else { a - 1 };
                        let pb = if b < pos as int { b } else { b - 1 };
                        assert(post.sessions@[a] == pre.sessions@[pa]);
                        assert(post.sessions@[b] == pre.sessions@[pb]);
                    }
                }
                assert forall|a: int, b: int|
                    #![trigger post.sessions@[a], post.sessions@[b]]
                    0 <= a <= b < post.sessions@.len() implies post.sessions@[a].created_at
                    >= post.sessions@[b].created_at by {
                    if a == pos as int {
                        if b > pos as int {
                            assert(pre.sessions@[pos as int].created_at <= session.created_at);
                            assert(pre.sessions@[pos as int].created_at
                                >= pre.sessions@[b - 1].created_at);
                        }
                    } else if b == pos as int {
                        if a < pos as int {
                            assert(post.sessions@[a].created_at > session.created_at);
                        }
                    } else {
                        let pa = if a < pos as int { a } else { a - 1 };
                        let pb = if b < pos as int { b } else { b - 1 };
                        assert(post.sessions@[a] == pre.sessions@[pa]);
                        assert(post.sessions@[b] == pre.sessions@[pb]);
                    }
                }
                assert forall|k: int|
                    0 <= k < post.sessions@.len() implies (#[trigger] post.sessions@[k])@.wf() by {
                    if k != pos as int {
                        let pk = if k < pos as int { k } else { k - 1 };
                        assert(post.sessions@[k] == pre.sessions@[pk]);
                    }
                }
            }
            post.lemma_lookup(id, pos as int);
            assert forall|j: u128| j != id implies post.has_id(j) == pre.has_id(j) by {
                if pre.has_id(j) {
                    let k = choose|k: int|
                        0 <= k < pre.sessions@.len() && #[trigger] pre.sessions@[k].id.0 == j;
                    let k2 = if k < pos as int { k } else { k + 1 };
                    assert(post.sessions@[k2].id.0 == j);
                }
                if post.has_id(j) {
                    let k = choose|k: int|
                        0 <= k < post.sessions@.len() && #[trigger] post.sessions@[k].id.0 == j;
                    if k < pos as int {
                        assert(pre.sessions@[k].id.0 == j);
                    } else {
                        assert(k != pos as int);
                        assert(pre.sessions@[k - 1].id.0 == j);
                    }
                }
            }
            assert forall|j: u128| j != id && pre.has_id(j) implies post.session_of(j)
                == pre.session_of(j) by {
                let k = choose|k: int|
                    0 <= k < pre.sessions@.len() && #[trigger] pre.sessions@[k].id.0 == j;
                let k2 = if k < pos as int { k } else { k + 1 };
                assert(post.sessions@[k2] == pre.sessions@[k]);
                pre.lemma_lookup(j, k);
                post.lemma_lookup(j, k2);
            }
        }
        Ok(session.clone())
    }

    /// Reads the session carrying `id`, or `None` when it is not stored.
    #[verifier::loop_isolation(false)]
    pub fn find_by_id(&self, id: &LearningSessionId) -> (r: Result<Option<LearningSession>, Error>)
        requires
            self.wf(),
        ensures
            match r {
                Ok(found) => match found {
                    Some(s) => self.has_id(id.0) && s@ == self.session_of(id.0) && s@.wf(),
                    None => !self.has_id(id.0),
                },
                Err(_) => false,
            },
    {
        let mut i: usize = 0;
        while i < self.sessions.len()
            invariant
                i <= self.sessions@.len(),
                forall|k: int| 0 <= k < i ==> (#[trigger] self.sessions@[k]).id.0 != id.0,
            decreases self.sessions@.len() - i,
        {
            if self.sessions[i].id.0 == id.0 {
                proof {
                    self.lemma_lookup(id.0, i as int);
                }
                return Ok(Some(self.sessions[i].clone()));
            }
            i = i + 1;
        }
        Ok(None)
    }

    /// Reads every session owned by the agent, newest first.
    #[verifier::loop_isolation(false)]
    pub fn find_by_agent_id(&self, agent_id: &AgentId) -> (r: Result<Vec<LearningSession>, Error>)
        requires
            self.wf(),
        ensures
            match r {
                Ok(v) => {
                    &&& v@.len() == selected(self.sessions@, session_agent_is(agent_id.0)).len()
                    &&& forall|n: int|
                        0 <= n < v@.len() ==> (#[trigger] v@[n])@ == selected(
                            self.sessions@,
                            session_agent_is(agent_id.0),
                        )[n]@
                    &&& forall|n: int, m: int|
                        #![trigger v@[n], v@[m]]
                        0 <= n <= m < v@.len() ==> v@[n].created_at >= v@[m].created_at
                },
                Err(_) => false,
            },
    {
        let ghost pred = session_agent_is(agent_id.0);
        let mut out: Vec<LearningSession> = Vec::new();
        let mut i: usize = 0;
        while i < self.sessions.len()
            invariant
                i <= self.sessions@.len(),
                out@.len() == selected(self.sessions@.subrange(0, i as int), pred).len(),
                forall|n: int|
                    0 <= n < out@.len() ==> (#[trigger] out@[n])@ == selected(
                        self.sessions@.subrange(0, i as int),
                        pred,
                    )[n]@,
                forall|n: int|
                    0 <= n < out@.len() ==> (#[trigger] out@[n]).created_at == selected(
                        self.sessions@.subrange(0, i as int),
                        pred,
                    )[n].created_at,
            decreases self.sessions@.len() - i,
        {
            proof {
                assert(self.sessions@.subrange(0, i + 1 as int) =~= self.sessions@.subrange(
                    0,
                    i as int,
                ).push(self.sessions@[i as int]));
                lemma_selected_push(self.sessions@.subrange(0, i as int), pred, self.sessions@[i as int]);
            }
            if self.sessions[i].agent_id.0 == agent_id.0 {
                out.push(self.sessions[i].clone());
            }
            i = i + 1;
        }
        proof {
            assert(self.sessions@.subrange(0, self.sessions@.len() as int) =~= self.sessions@);
            crate::agent_repository::lemma_selected_membership(self.sessions@, pred);
            crate::agent_repository::lemma_selected_pairwise(
                self.sessions@,
                pred,
                |x: LearningSession, y: LearningSession| x.created_at >= y.created_at,
            );
        }
        Ok(out)
    }

    /// Reads every session in this status, newest first.
    #[verifier::loop_isolation(false)]
    pub fn find_by_status(&self, status: &LearningSessionStatus) -> (r: Result<
        Vec<LearningSession>,
        Error,
    >)
        requires
            self.wf(),
        ensures
            match r {
                Ok(v) => {
                    &&& v@.len() == selected(self.sessions@, session_status_is(*status)).len()
                    &&& forall|n: int|
                        0 <= n < v@.len() ==> (#[trigger] v@[n])@ == selected(
                            self.sessions@,
                            session_status_is(*status),
                        )[n]@
                },
                Err(_) => false,
            },
    {
        let ghost pred = session_status_is(*status);
        let mut out: Vec<LearningSession> = Vec::new();
        let mut i: usize = 0;
        while i < self.sessions.len()
            invariant
                i <= self.sessions@.len(),
                out@.len() == selected(self.sessions@.subrange(0, i as int), pred).len(),
                forall|n: int|
                    0 <= n < out@.len() ==> (#[trigger] out@[n])@ == selected(
                        self.sessions@.subrange(0, i as int),
                        pred,
                    )[n]@,
            decreases self.sessions@.len() - i,
        {
            proof {
                assert(self.sessions@.subrange(0, i + 1 as int) =~= self.sessions@.subrange(
                    0,
                    i as int,
                ).push(self.sessions@[i as int]));
                lemma_selected_push(self.sessions@.subrange(0, i as int), pred, self.sessions@[i as int]);
            }
            if self.sessions[i].status == *status {
                out.push(self.sessions[i].clone());
            }
            i = i + 1;
        }
        proof {
            assert(self.sessions@.subrange(0, self.sessions@.len() as int) =~= self.sessions@);
        }
        Ok(out)
    }

    /// Reads every session of this type, newest first.
    #[verifier::loop_isolation(false)]
    pub fn find_by_type(&self, session_type: &LearningSessionType) -> (r: Result<
        Vec<LearningSession>,
        Error,
    >)
        requires
            self.wf(),
        ensures
            match r {
                Ok(v) => {
                    &&& v@.len() == selected(self.sessions@, session_type_is(*session_type)).len()
                    &&& forall|n: int|
                        0 <= n < v@.len() ==> (#[trigger] v@[n])@ == selected(
                            self.sessions@,
                            session_type_is(*session_type),
                        )[n]@
                },
                Err(_) => false,
            },
    {
        let ghost pred = session_type_is(*session_type);
        let mut out: Vec<LearningSession> = Vec::new();
        let mut i: usize = 0;
        while i < self.sessions.len()
            invariant
                i <= self.sessions@.len(),
                out@.len() == selected(self.sessions@.subrange(0, i as int), pred).len(),
                forall|n: int|
                    0 <= n < out@.len() ==> (#[trigger] out@[n])@ == selected(
                        self.sessions@.subrange(0, i as int),
                        pred,
                    )[n]@,
            decreases self.sessions@.len() - i,
        {
            proof {
                assert(self.sessions@.subrange(0, i + 1 as int) =~= self.sessions@.subrange(
                    0,
                    i as int,
                ).push(self.sessions@[i as int]));
                lemma_selected_push(self.sessions@.subrange(0, i as int), pred, self.sessions@[i as int]);
            }
            if self.sessions[i].session_type == *session_type {
                out.push(self.sessions[i].clone());
            }
            i = i + 1;
        }
        proof {
            assert(self.sessions@.subrange(0, self.sessions@.len() as int) =~= self.sessions@);
        }
        Ok(out)
    }

    /// Reads every session still live, newest first.
    #[verifier::loop_isolation(false)]
    pub fn find_active_sessions(&self) -> (r: Result<Vec<LearningSession>, Error>)
        requires
            self.wf(),
        ensures
            match r {
                Ok(v) => {
                    &&& v@.len() == selected(self.sessions@, session_is_active()).len()
                    &&& forall|n: int|
                        0 <= n < v@.len() ==> (#[trigger] v@[n])@ == selected(
                            self.sessions@,
                            session_is_active(),
                        )[n]@
                },
                Err(_) => false,
            },
    {
        let ghost pred = session_is_active();
        let mut out: Vec<LearningSession> = Vec::new();
        let mut i: usize = 0;
        while i < self.sessions.len()
            invariant
                i <= self.sessions@.len(),
                out@.len() == selected(self.sessions@.subrange(0, i as int), pred).len(),
                forall|n: int|
                    0 <= n < out@.len() ==> (#[trigger] out@[n])@ == selected(
                        self.sessions@.subrange(0, i as int),
                        pred,
                    )[n]@,
            decreases self.sessions@.len() - i,
        {
            proof {
                assert(self.sessions@.subrange(0, i + 1 as int) =~= self.sessions@.subrange(
                    0,
                    i as int,
                ).push(self.sessions@[i as int]));
                lemma_selected_push(self.sessions@.subrange(0, i as int), pred, self.sessions@[i as int]);
            }
            let live = match self.sessions[i].status {
                LearningSessionStatus::Preparing => true,
                LearningSessionStatus::Training => true,
                LearningSessionStatus::Evaluating => true,
                LearningSessionStatus::Completed => false,
                LearningSessionStatus::Failed => false,
            };
            if live {
                out.push(self.sessions[i].clone());
            }
            i = i + 1;
        }
        proof {
            assert(self.sessions@.subrange(0, self.sessions@.len() as int) =~= self.sessions@);
        }
        Ok(out)
    }

    /// Reads every session, newest first.
    #[verifier::loop_isolation(false)]
    pub fn find_all(&self) -> (r: Result<Vec<LearningSession>, Error>)
        requires
            self.wf(),
        ensures
            match r {
                Ok(v) => {
                    &&& v@.len() == self.sessions@.len()
                    &&& forall|n: int|
                        0 <= n < v@.len() ==> (#[trigger] v@[n])@ == self.sessions@[n]@
                },
                Err(_) => false,
            },
    {
        let mut out: Vec<LearningSession> = Vec::new();
        let mut i: usize = 0;
        while i < self.sessions.len()
            invariant
                i <= self.sessions@.len(),
                out@.len() == i,
                forall|n: int| 0 <= n < i ==> (#[trigger] out@[n])@ == self.sessions@[n]@,
            decreases self.sessions@.len() - i,
        {
            out.push(self.sessions[i].clone());
            i = i + 1;
        }
        Ok(out)
    }

    /// Overwrites the stored session carrying the same identifier with the
    /// supplied one. An unknown identifier is `NotFound` and leaves the
    /// store untouched. The creation timestamp must be unchanged so the
    /// table keeps its order. The supplied session is echoed back
    /// unchanged.
    #[verifier::loop_isolation(false)]
    pub fn update(&mut self, session: &LearningSession) -> (r: Result<LearningSession, Error>)
        requires
            old(self).wf(),
            session@.wf(),
            old(self).has_id(session.id.0) ==> old(self).session_of(session.id.0).created_at
                == session.created_at,
        ensures
            final(self).wf(),
            match r {
                Ok(stored) => {
                    &&& old(self).has_id(session.id.0)
                    &&& stored@ == session@
                    &&& final(self).has_id(session.id.0)
                    &&& final(self).session_of(session.id.0) == session@
                    &&& final(self).session_count() == old(self).session_count()
                    &&& forall|j: u128| final(self).has_id(j) == old(self).has_id(j)
                    &&& forall|j: u128|
                        j != session.id.0 && old(self).has_id(j) ==> final(self).session_of(j)
                            == old(self).session_of(j)
                },
                Err(e) => {
                    &&& e is NotFound
                    &&& !old(self).has_id(session.id.0)
                    &&& *final(self) == *old(self)
                },
            },
    {
        let ghost pre = *self;
        let id: u128 = session.id.0;
        let session_count: usize = self.sessions.len();
        let mut idx: usize = 0;
        while idx < session_count && self.sessions[idx].id.0 != id
            invariant
                idx <= session_count,
                forall|k: int| 0 <= k < idx ==> (#[trigger] self.sessions@[k]).id.0 != id,
            decreases session_count - idx,
        {
            idx = idx + 1;
        }
        if idx == session_count {
            return Err(Error::NotFound("no learning session with this id".to_owned()));
        }
        proof {
            self.lemma_lookup(id, idx as int);
        }
        let stored = session.clone();
        self.sessions.set(idx, stored);
        proof {
            let post = *self;
            assert(post.sessions@[idx as int] == stored);
            assert forall|k: int|
                0 <= k < post.sessions@.len() implies (#[trigger] post.sessions@[k]).id.0
                == pre.sessions@[k].id.0 && post.sessions@[k].created_at
                == pre.sessions@[k].created_at by {
                if k != idx {
                    assert(post.sessions@[k] == pre.sessions@[k]);
                }
            }
            assert(post.wf()) by {
                assert forall|a: int, b: int|
                    #![trigger post.sessions@[a], post.sessions@[b]]
                    0 <= a < b < post.sessions@.len() implies post.sessions@[a].id.0
                    != post.sessions@[b].id.0 by {
                    assert(post.sessions@[a].id.0 == pre.sessions@[a].id.0);
                    assert(post.sessions@[b].id.0 == pre.sessions@[b].id.0);
                }
                assert forall|a: int, b: int|
                    #![trigger post.sessions@[a], post.sessions@[b]]
                    0 <= a <= b < post.sessions@.len() implies post.sessions@[a].created_at
                    >= post.sessions@[b].created_at by {
                    assert(post.sessions@[a].created_at == pre.sessions@[a].created_at);
                    assert(post.sessions@[b].created_at == pre.sessions@[b].created_at);
                }
                assert forall|k: int|
                    0 <= k < post.sessions@.len() implies (#[trigger] post.sessions@[k])@.wf() by {
                    if k != idx {
                        assert(post.sessions@[k] == pre.sessions@[k]);
                    }
                }
            }
            post.lemma_lookup(id, idx as int);
            assert forall|j: u128| post.has_id(j) == pre.has_id(j) by {
                if pre.has_id(j) {
                    let k = choose|k: int|
                        0 <= k < pre.sessions@.len() && #[trigger] pre.sessions@[k].id.0 == j;
                    assert(post.sessions@[k].id.0 == j);
                }
                if post.has_id(j) {
                    let k = choose|k: int|
                        0 <= k < post.sessions@.len() && #[trigger] post.sessions@[k].id.0 == j;
                    assert(pre.sessions@[k].id.0 == j);
                }
            }
            assert forall|j: u128| j != id && pre.has_id(j) implies post.session_of(j)
                == pre.session_of(j) by {
                let k = choose|k: int|
                    0 <= k < pre.sessions@.len() && #[trigger] pre.sessions@[k].id.0 == j;
                assert(k != idx);
                pre.lemma_lookup(j, k);
                post.lemma_lookup(j, k);
            }
        }
        Ok(session.clone())
    }

    /// Removes the session carrying `id`. Removing an identifier that is
    /// not stored succeeds and changes nothing.
    #[verifier::loop_isolation(false)]
    pub fn delete(&mut self, id: &LearningSessionId) -> (r: Result<(), Error>)
        requires
            old(self).wf(),
        ensures
            final(self).wf(),
            r is Ok,
            !final(self).has_id(id.0),
            forall|j: u128| j != id.0 ==> final(self).has_id(j) == old(self).has_id(j),
            forall|j: u128|
                j != id.0 && old(self).has_id(j) ==> final(self).session_of(j) == old(
                    self,
                ).session_of(j),
            old(self).has_id(id.0) ==> final(self).session_count() == old(self).session_count()
                - 1,
            !old(self).has_id(id.0) ==> *final(self) == *old(self),
    {
        let ghost pre = *self;
        let session_count: usize = self.sessions.len();
        let mut idx: usize = 0;
        while idx < session_count && self.sessions[idx].id.0 != id.0
            invariant
                idx <= session_count,
                forall|k: int| 0 <= k < idx ==> (#[trigger] self.sessions@[k]).id.0 != id.0,
            decreases session_count - idx,
        {
            idx = idx + 1;
        }
        if idx == session_count {
            return Ok(());
        }
        proof {
            self.lemma_lookup(id.0, idx as int);
        }
        self.sessions.remove(idx);
        proof {
            let post = *self;
            assert forall|k: int|
                0 <= k < post.sessions@.len() implies #[trigger] post.sessions@[k] == (if k
                < idx {
                pre.sessions@[k]
            } else {
                pre.sessions@[k + 1]
            }) by {}
            assert(post.wf()) by {
                assert forall|a: int, b: int|
                    #![trigger post.sessions@[a], post.sessions@[b]]
                    0 <= a < b < post.sessions@.len() implies post.sessions@[a].id.0
                    != post.sessions@[b].id.0 by {
                    let pa = if a < idx { a } else { a + 1 };
                    let pb = if b < idx { b } else { b + 1 };
                    assert(post.sessions@[a] == pre.sessions@[pa]);
                    assert(post.sessions@[b] == pre.sessions@[pb]);
                }
                assert forall|a: int, b: int|
                    #![trigger post.sessions@[a], post.sessions@[b]]
                    0 <= a <= b < post.sessions@.len() implies post.sessions@[a].created_at
                    >= post.sessions@[b].created_at by {
                    let pa = if a < idx { a } else { a + 1 };
                    let pb = if b < idx { b } else { b + 1 };
                    assert(post.sessions@[a] == pre.sessions@[pa]);
                    assert(post.sessions@[b] == pre.sessions@[pb]);
                }
            }
            assert(!post.has_id(id.0)) by {
                if post.has_id(id.0) {
                    let k = choose|k: int|
                        0 <= k < post.sessions@.len() && #[trigger] post.sessions@[k].id.0 == id.0;
                    if k < idx {
                        assert(pre.sessions@[k].id.0 != pre.sessions@[idx as int].id.0);
                    } else {
                        assert(pre.sessions@[idx as int].id.0 != pre.sessions@[k + 1].id.0);
                    }
                }
            }
            assert forall|j: u128| j != id.0 implies post.has_id(j) == pre.has_id(j) by {
                if pre.has_id(j) {
                    let k = choose|k: int|
                        0 <= k < pre.sessions@.len() && #[trigger] pre.sessions@[k].id.0 == j;
                    assert(k != idx);
                    if k < idx {
                        assert(post.sessions@[k].id.0 == j);
                    } else {
                        assert(post.sessions@[k - 1].id.0 == j);
                    }
                }
                if post.has_id(j) {
                    let k = choose|k: int|
                        0 <= k < post.sessions@.len() && #[trigger] post.sessions@[k].id.0 == j;
                    if k < idx {
                        assert(pre.sessions@[k].id.0 == j);
                    } else {
                        assert(pre.sessions@[k + 1].id.0 == j);
                    }
                }
            }
            assert forall|j: u128| j != id.0 && pre.has_id(j) implies post.session_of(j)
                == pre.session_of(j) by {
                let k = choose|k: int|
                    0 <= k < pre.sessions@.len() && #[trigger] pre.sessions@[k].id.0 == j;
                assert(k != idx);
                let k2 = if k < idx { k } else { k - 1 };
                assert(post.sessions@[k2] == pre.sessions@[k]);
                pre.lemma_lookup(j, k);
                post.lemma_lookup(j, k2);
            }
        }
        Ok(())
    }

    /// Number of stored sessions.
    pub fn count(&self) -> (r: Result<usize, Error>)
        ensures
            r == Ok::<usize, Error>(self.session_count() as usize),
            self.session_count() <= usize::MAX,
    {
        Ok(self.sessions.len())
    }

    /// Number of stored sessions in this status.
    #[verifier::loop_isolation(false)]
    pub fn count_by_status(&self, status: &LearningSessionStatus) -> (r: Result<usize, Error>)
        requires
            self.wf(),
        ensures
            r == Ok::<usize, Error>(count_session_status(self.sessions@, *status) as usize),
    {
        let mut c: usize = 0;
        let mut i: usize = 0;
        while i < self.sessions.len()
            invariant
                i <= self.sessions@.len(),
                c == count_session_status(self.sessions@.subrange(0, i as int), *status),
                c <= i,
            decreases self.sessions@.len() - i,
        {
            proof {
                assert(self.sessions@.subrange(0, i + 1 as int) =~= self.sessions@.subrange(
                    0,
                    i as int,
                ).push(self.sessions@[i as int]));
                lemma_count_session_status_push(
                    self.sessions@.subrange(0, i as int),
                    self.sessions@[i as int],
                    *status,
                );
            }
            if self.sessions[i].status == *status {
                c = c + 1;
            }
            i = i + 1;
        }
        proof {
            assert(self.sessions@.subrange(0, self.sessions@.len() as int) =~= self.sessions@);
        }
        Ok(c)
    }
}

} // verus!
