//! Use-case orchestrator for the `LearningSession` aggregate: it checks
//! that the owning agent and the session exist before any mutation, keeps
//! terminal sessions terminal, and delegates persistence to the session
//! store. Metric scores are fixed-point micro-units throughout.

use vstd::prelude::*;

use crate::agent_repository::AgentRepository;
use crate::agent_repository::selected;
use crate::domain::AgentId;
use crate::domain::LearningMetrics;
use crate::domain::LearningMetricsView;
use crate::domain::LearningSession;
use crate::domain::LearningSessionId;
use crate::domain::LearningSessionStatus;
use crate::domain::LearningSessionType;
use crate::domain::LearningSessionView;
use crate::domain::MICROS_PER_UNIT;
use crate::domain::ModelSnapshot;
use crate::domain::StartLearningSessionRequest;
use crate::domain::TrainingData;
use crate::error::Error;
use crate::learning_repository::LearningSessionRepository;
use crate::learning_repository::count_session_status;
use crate::learning_repository::lemma_session_status_counts_partition;
use crate::learning_repository::session_agent_is;
use crate::learning_repository::session_is_active;
use crate::learning_repository::session_status_is;
use crate::learning_repository::session_type_is;

verus! {

/// A metrics view with every score absent.
pub open spec fn empty_metrics_view() -> LearningMetricsView {
    LearningMetricsView {
        accuracy: None,
        loss: None,
        precision: None,
        recall: None,
        f1_score: None,
        custom_metrics: Seq::empty(),
    }
}

/// The session a start request materializes into, given the assigned
/// identifier and creation instant: a new session starts `Preparing` with
/// no scores, no snapshot and no completion.
pub open spec fn materialized_session(
    request: StartLearningSessionRequest,
    id: u128,
    now: i64,
) -> LearningSessionView {
    LearningSessionView {
        id,
        agent_id: request.agent_id.0,
        session_type: request.session_type,
        status: LearningSessionStatus::Preparing,
        training_data: request.training_data@,
        model_snapshot: None,
        metrics: empty_metrics_view(),
        created_at: now,
        completed_at: None,
    }
}

/// Two predictions agree when they differ by less than a tenth of a unit.
pub open spec fn prediction_matches(p: u64, a: u64) -> bool {
    if p >= a {
        p - a < 100_000
    } else {
        a - p < 100_000
    }
}

/// How many aligned prediction pairs agree, over the shorter of the two
/// sequences.
pub open spec fn matching_predictions(p: Seq<u64>, a: Seq<u64>, upto: int) -> nat
    decreases upto,
{
    if upto <= 0 {
        0
    } else {
        matching_predictions(p, a, upto - 1) + if prediction_matches(p[upto - 1], a[upto - 1]) {
            1nat
        } else {
            0nat
        }
    }
}

/// The accuracy score the default metric policy computes: the agreeing
/// share of aligned pairs, as micro-units of the prediction count.
pub open spec fn spec_accuracy(p: Seq<u64>, a: Seq<u64>) -> int {
    let upto = if p.len() <= a.len() {
        p.len() as int
    } else {
        a.len() as int
    };
    matching_predictions(p, a, upto) * MICROS_PER_UNIT / (p.len() as int)
}

/// Counts of learning sessions by lifecycle status, along with the total.
#[derive(Clone, Copy, PartialEq, Eq, Structural, Debug)]
pub struct LearningSessionStatistics {
    pub total_sessions: usize,
    pub preparing_sessions: usize,
    pub training_sessions: usize,
    pub evaluating_sessions: usize,
    pub completed_sessions: usize,
    pub failed_sessions: usize,
}

/// Orchestrator for the learning session aggregate family.
pub struct LearningManagementUseCase {
    pub learning_repo: LearningSessionRepository,
}

impl LearningManagementUseCase {
    /// The orchestrator is as well formed as its store.
    pub open spec fn wf(self) -> bool {
        self.learning_repo.wf()
    }

    /// Builds the orchestrator around a store.
    pub fn new(learning_repo: LearningSessionRepository) -> (r: Self)
        ensures
            r.learning_repo == learning_repo,
    {
        LearningManagementUseCase { learning_repo }
    }

    /// Checks training data against the domain rules. The default domain
    /// policy accepts every training set.
    pub fn validate_training_data(&self, _training_data: &Vec<TrainingData>) -> (r: bool)
        ensures
            r,
    {
        true
    }

    /// Materializes and stores the session described by the request, under
    /// the given identifier and creation instant. A request naming an agent
    /// that is not stored is `NotFound`; a duplicate session identifier is
    /// a `Conflict`; either failure leaves the store untouched.
    pub fn start_learning_session_with(
        &mut self,
        agents: &AgentRepository,
        request: StartLearningSessionRequest,
        id: u128,
        now: i64,
    ) -> (r: Result<LearningSession, Error>)
        requires
            old(self).wf(),
            agents.wf(),
        ensures
            final(self).wf(),
            match r {
                Ok(s) => {
                    &&& agents.has_id(request.agent_id.0)
                    &&& !old(self).learning_repo.has_id(id)
                    &&& s@ == materialized_session(request, id, now)
                    &&& final(self).learning_repo.has_id(id)
                    &&& final(self).learning_repo.session_of(id) == s@
                    &&& final(self).learning_repo.session_count() == old(self).learning_repo.session_count() + 1
                    &&& forall|j: u128|
                        j != id ==> final(self).learning_repo.has_id(j) == old(self).learning_repo.has_id(j)
                    &&& forall|j: u128|
                        j != id && old(self).learning_repo.has_id(j) ==> final(self).learning_repo.session_of(j) == old(self).learning_repo.session_of(j)
                },
                Err(e) => {
                    &&& (e is NotFound <==> !agents.has_id(request.agent_id.0))
                    &&& (e is Conflict <==> agents.has_id(request.agent_id.0) && old(self).learning_repo.has_id(id))
                    &&& (e is NotFound || e is Conflict)
                    &&& *final(self) == *old(self)
                },
            },
            (r is Ok) <==> (agents.has_id(request.agent_id.0) && !old(self).learning_repo.has_id(
                id,
            )),
    {
        let owner = agents.find_by_id(&request.agent_id)?;
        if owner.is_none() {
            return Err(Error::NotFound("no agent with this id".to_owned()));
        }
        if !self.validate_training_data(&request.training_data) {
            return Err(Error::ValidationError("invalid training data".to_owned()));
        }
        let session = LearningSession {
            id: LearningSessionId(id),
            agent_id: request.agent_id,
            session_type: request.session_type,
            status: LearningSessionStatus::Preparing,
            training_data: request.training_data,
            model_snapshot: None,
            metrics: LearningMetrics::empty(),
            created_at: now,
            completed_at: None,
        };
        proof {
            assert(session@.metrics =~= empty_metrics_view());
            assert(session@ == materialized_session(request, id, now));
        }
        self.learning_repo.create(&session)
    }

    /// Starts a learning session for an existing agent: the domain policy
    /// assigns a fresh identifier and the current instant, and the session
    /// starts `Preparing`. A request naming an agent that is not stored is
    /// `NotFound`; since the identifier is drawn at random, success is owed
    /// only when the drawn identifier is also free.
    pub fn start_learning_session(
        &mut self,
        agents: &AgentRepository,
        request: StartLearningSessionRequest,
    ) -> (r: Result<LearningSession, Error>)
        requires
            old(self).wf(),
            agents.wf(),
        ensures
            final(self).wf(),
            match r {
                Ok(s) => {
                    &&& agents.has_id(request.agent_id.0)
                    &&& s@.status == LearningSessionStatus::Preparing
                    &&& s@.agent_id == request.agent_id.0
                    &&& s@.session_type == request.session_type
                    &&& s@.training_data == request.training_data@
                    &&& s@.model_snapshot is None
                    &&& s@.metrics == empty_metrics_view()
                    &&& s@.completed_at is None
                    &&& final(self).learning_repo.has_id(s@.id)
                    &&& final(self).learning_repo.session_of(s@.id) == s@
                    &&& final(self).learning_repo.session_count() == old(self).learning_repo.session_count() + 1
                },
                Err(e) => {
                    &&& (e is NotFound <==> !agents.has_id(request.agent_id.0))
                    &&& (e is NotFound || e is Conflict)
                    &&& *final(self) == *old(self)
                },
            },
            !agents.has_id(request.agent_id.0) ==> r is Err,
            agents.has_id(request.agent_id.0) && old(self).learning_repo.session_count() == 0
                ==> r is Ok,
            r is Err ==> (!agents.has_id(request.agent_id.0) || old(
                self,
            ).learning_repo.session_count() > 0),
    {
        let ghost pre = *self;
        let id = crate::runtime::fresh_id();
        let now = crate::runtime::now_millis();
        let r = self.start_learning_session_with(agents, request, id, now);
        proof {
            if pre.learning_repo.session_count() == 0 {
                assert(!pre.learning_repo.has_id(id));
            }
            if pre.learning_repo.has_id(id) {
                let k = choose|k: int|
                    0 <= k < pre.learning_repo.sessions@.len()
                        && #[trigger] pre.learning_repo.sessions@[k].id.0 == id;
                assert(pre.learning_repo.session_count() > 0);
            }
        }
        r
    }

    /// Records progress scores for a live session: the metrics are
    /// replaced, and a session still `Preparing` moves to `Training`. A
    /// session identifier that is not stored is `NotFound`; a terminal
    /// session is a `ValidationError`; either failure leaves the store
    /// untouched.
    pub fn update_learning_progress(
        &mut self,
        session_id: &LearningSessionId,
        metrics: LearningMetrics,
    ) -> (r: Result<LearningSession, Error>)
        requires
            old(self).wf(),
        ensures
            final(self).wf(),
            match r {
                Ok(s) => {
                    &&& old(self).learning_repo.has_id(session_id.0)
                    &&& old(self).learning_repo.session_of(session_id.0).is_active()
                    &&& s@.id == session_id.0
                    &&& s@.metrics == metrics@
                    &&& s@.status == (if old(self).learning_repo.session_of(session_id.0).status
                        is Preparing {
                        LearningSessionStatus::Training
                    } else {
                        old(self).learning_repo.session_of(session_id.0).status
                    })
                    &&& s@.training_data == old(self).learning_repo.session_of(
                        session_id.0,
                    ).training_data
                    &&& s@.model_snapshot == old(self).learning_repo.session_of(
                        session_id.0,
                    ).model_snapshot
                    &&& s@.agent_id == old(self).learning_repo.session_of(session_id.0).agent_id
                    &&& s@.session_type == old(self).learning_repo.session_of(
                        session_id.0,
                    ).session_type
                    &&& s@.created_at == old(self).learning_repo.session_of(
                        session_id.0,
                    ).created_at
                    &&& s@.completed_at is None
                    &&& final(self).learning_repo.has_id(session_id.0)
                    &&& final(self).learning_repo.session_of(session_id.0) == s@
                    &&& forall|j: u128|
                        final(self).learning_repo.has_id(j) == old(self).learning_repo.has_id(j)
                    &&& forall|j: u128|
                        j != session_id.0 && old(self).learning_repo.has_id(j) ==> final(self).learning_repo.session_of(j) == old(self).learning_repo.session_of(j)
                },
                Err(e) => {
                    &&& (e is NotFound <==> !old(self).learning_repo.has_id(session_id.0))
                    &&& (e is ValidationError <==> old(self).learning_repo.has_id(session_id.0)
                        && !old(self).learning_repo.session_of(session_id.0).is_active())
                    &&& (e is NotFound || e is ValidationError)
                    &&& *final(self) == *old(self)
                },
            },
    {
        let found = self.learning_repo.find_by_id(session_id)?;
        let mut session = match found {
            Some(s) => s,
            None => {
                return Err(Error::NotFound("no learning session with this id".to_owned()));
            },
        };
        let live = match session.status {
            LearningSessionStatus::Preparing => true,
            LearningSessionStatus::Training => true,
            LearningSessionStatus::Evaluating => true,
            LearningSessionStatus::Completed => false,
            LearningSessionStatus::Failed => false,
        };
        if !live {
            return Err(
                Error::ValidationError("a terminal learning session cannot progress".to_owned()),
            );
        }
        if matches!(session.status, LearningSessionStatus::Preparing) {
            session.status = LearningSessionStatus::Training;
        }
        session.metrics = metrics;
        self.learning_repo.update(&session)
    }

    /// Completes a live session with its final scores: the status becomes
    /// `Completed`, the metrics are replaced and the completion timestamp
    /// is set. A session identifier that is not stored is `NotFound`; a
    /// terminal session is a `ValidationError`; either failure leaves the
    /// store untouched.
    pub fn complete_learning_session(
        &mut self,
        session_id: &LearningSessionId,
        final_metrics: LearningMetrics,
    ) -> (r: Result<LearningSession, Error>)
        requires
            old(self).wf(),
        ensures
            final(self).wf(),
            match r {
                Ok(s) => {
                    &&& old(self).learning_repo.has_id(session_id.0)
                    &&& old(self).learning_repo.session_of(session_id.0).is_active()
                    &&& s@.id == session_id.0
                    &&& s@.status == LearningSessionStatus::Completed
                    &&& s@.metrics == final_metrics@
                    &&& s@.completed_at is Some
                    &&& s@.training_data == old(self).learning_repo.session_of(
                        session_id.0,
                    ).training_data
                    &&& s@.model_snapshot == old(self).learning_repo.session_of(
                        session_id.0,
                    ).model_snapshot
                    &&& s@.agent_id == old(self).learning_repo.session_of(session_id.0).agent_id
                    &&& s@.session_type == old(self).learning_repo.session_of(
                        session_id.0,
                    ).session_type
                    &&& s@.created_at == old(self).learning_repo.session_of(
                        session_id.0,
                    ).created_at
                    &&& final(self).learning_repo.has_id(session_id.0)
                    &&& final(self).learning_repo.session_of(session_id.0) == s@
                    &&& forall|j: u128|
                        final(self).learning_repo.has_id(j) == old(self).learning_repo.has_id(j)
                    &&& forall|j: u128|
                        j != session_id.0 && old(self).learning_repo.has_id(j) ==> final(self).learning_repo.session_of(j) == old(self).learning_repo.session_of(j)
                },
                Err(e) => {
                    &&& (e is NotFound <==> !old(self).learning_repo.has_id(session_id.0))
                    &&& (e is ValidationError <==> old(self).learning_repo.has_id(session_id.0)
                        && !old(self).learning_repo.session_of(session_id.0).is_active())
                    &&& (e is NotFound || e is ValidationError)
                    &&& *final(self) == *old(self)
                },
            },
    {
        let found = self.learning_repo.find_by_id(session_id)?;
        let mut session = match found {
            Some(s) => s,
            None => {
                return Err(Error::NotFound("no learning session with this id".to_owned()));
            },
        };
        let live = match session.status {
            LearningSessionStatus::Preparing => true,
            LearningSessionStatus::Training => true,
            LearningSessionStatus::Evaluating => true,
            LearningSessionStatus::Completed => false,
            LearningSessionStatus::Failed => false,
        };
        if !live {
            return Err(
                Error::ValidationError("a terminal learning session cannot complete".to_owned()),
            );
        }
        let now = crate::runtime::now_millis();
        session.status = LearningSessionStatus::Completed;
        session.metrics = final_metrics;
        session.completed_at = Some(now);
        self.learning_repo.update(&session)
    }

    /// Attaches a model snapshot to an existing session, leaving everything
    /// else as stored. A session identifier that is not stored is
    /// `NotFound` and the store is left untouched.
    pub fn save_model_snapshot(
        &mut self,
        session_id: &LearningSessionId,
        snapshot: ModelSnapshot,
    ) -> (r: Result<LearningSession, Error>)
        requires
            old(self).wf(),
        ensures
            final(self).wf(),
            match r {
                Ok(s) => {
                    &&& old(self).learning_repo.has_id(session_id.0)
                    &&& s@.id == session_id.0
                    &&& s@.model_snapshot == Some(snapshot@)
                    &&& s@.status == old(self).learning_repo.session_of(session_id.0).status
                    &&& s@.metrics == old(self).learning_repo.session_of(session_id.0).metrics
                    &&& s@.training_data == old(self).learning_repo.session_of(
                        session_id.0,
                    ).training_data
                    &&& s@.created_at == old(self).learning_repo.session_of(
                        session_id.0,
                    ).created_at
                    &&& s@.agent_id == old(self).learning_repo.session_of(session_id.0).agent_id
                    &&& s@.session_type == old(self).learning_repo.session_of(
                        session_id.0,
                    ).session_type
                    &&& s@.completed_at == old(self).learning_repo.session_of(
                        session_id.0,
                    ).completed_at
                    &&& final(self).learning_repo.has_id(session_id.0)
                    &&& final(self).learning_repo.session_of(session_id.0) == s@
                    &&& forall|j: u128|
                        final(self).learning_repo.has_id(j) == old(self).learning_repo.has_id(j)
                    &&& forall|j: u128|
                        j != session_id.0 && old(self).learning_repo.has_id(j) ==> final(self).learning_repo.session_of(j) == old(self).learning_repo.session_of(j)
                },
                Err(e) => {
                    &&& e is NotFound
                    &&& !old(self).learning_repo.has_id(session_id.0)
                    &&& *final(self) == *old(self)
                },
            },
            (r is Ok) <==> old(self).learning_repo.has_id(session_id.0),
    {
        let found = self.learning_repo.find_by_id(session_id)?;
        let mut session = match found {
            Some(s) => s,
            None => {
                return Err(Error::NotFound("no learning session with this id".to_owned()));
            },
        };
        session.model_snapshot = Some(snapshot);
        self.learning_repo.update(&session)
    }

    /// Deletes an existing session. A session identifier that is not
    /// stored is `NotFound` and the store is left untouched.
    pub fn delete_learning_session(&mut self, session_id: &LearningSessionId) -> (r: Result<
        (),
        Error,
    >)
        requires
            old(self).wf(),
        ensures
            final(self).wf(),
            match r {
                Ok(_) => {
                    &&& old(self).learning_repo.has_id(session_id.0)
                    &&& !final(self).learning_repo.has_id(session_id.0)
                    &&& final(self).learning_repo.session_count() == old(self).learning_repo.session_count() - 1
                    &&& forall|j: u128|
                        j != session_id.0 ==> final(self).learning_repo.has_id(j) == old(self).learning_repo.has_id(j)
                    &&& forall|j: u128|
                        j != session_id.0 && old(self).learning_repo.has_id(j) ==> final(self).learning_repo.session_of(j) == old(self).learning_repo.session_of(j)
                },
                Err(e) => {
                    &&& e is NotFound
                    &&& !old(self).learning_repo.has_id(session_id.0)
                    &&& *final(self) == *old(self)
                },
            },
            (r is Ok) <==> old(self).learning_repo.has_id(session_id.0),
    {
        let found = self.learning_repo.find_by_id(session_id)?;
        if found.is_none() {
            return Err(Error::NotFound("no learning session with this id".to_owned()));
        }
        self.learning_repo.delete(session_id)
    }

    /// Looks one session up by identifier.
    pub fn find_learning_session(&self, session_id: &LearningSessionId) -> (r: Result<
        Option<LearningSession>,
        Error,
    >)
        requires
            self.wf(),
        ensures
            match r {
                Ok(found) => match found {
                    Some(s) => self.learning_repo.has_id(session_id.0) && s@
                        == self.learning_repo.session_of(session_id.0),
                    None => !self.learning_repo.has_id(session_id.0),
                },
                Err(_) => false,
            },
    {
        self.learning_repo.find_by_id(session_id)
    }

    /// Reads every session owned by the agent, newest first.
    pub fn find_learning_sessions_by_agent(&self, agent_id: &AgentId) -> (r: Result<
        Vec<LearningSession>,
        Error,
    >)
        requires
            self.wf(),
        ensures
            match r {
                Ok(v) => {
                    &&& v@.len() == selected(
                        self.learning_repo.sessions@,
                        session_agent_is(agent_id.0),
                    ).len()
                    &&& forall|n: int|
                        0 <= n < v@.len() ==> (#[trigger] v@[n])@ == selected(
                            self.learning_repo.sessions@,
                            session_agent_is(agent_id.0),
                        )[n]@
                    &&& forall|n: int, m: int|
                        #![trigger v@[n], v@[m]]
                        0 <= n <= m < v@.len() ==> v@[n].created_at >= v@[m].created_at
                },
                Err(_) => false,
            },
    {
        self.learning_repo.find_by_agent_id(agent_id)
    }

    /// Reads every session in the given status, newest first.
    pub fn find_learning_sessions_by_status(&self, status: &LearningSessionStatus) -> (r: Result<
        Vec<LearningSession>,
        Error,
    >)
        requires
            self.wf(),
        ensures
            match r {
                Ok(v) => {
                    &&& v@.len() == selected(
                        self.learning_repo.sessions@,
                        session_status_is(*status),
                    ).len()
                    &&& forall|n: int|
                        0 <= n < v@.len() ==> (#[trigger] v@[n])@ == selected(
                            self.learning_repo.sessions@,
                            session_status_is(*status),
                        )[n]@
                },
                Err(_) => false,
            },
    {
        self.learning_repo.find_by_status(status)
    }

    /// Reads every session of the given type, newest first.
    pub fn find_learning_sessions_by_type(&self, session_type: &LearningSessionType) -> (r: Result<
        Vec<LearningSession>,
        Error,
    >)
        requires
            self.wf(),
        ensures
            match r {
                Ok(v) => {
                    &&& v@.len() == selected(
                        self.learning_repo.sessions@,
                        session_type_is(*session_type),
                    ).len()
                    &&& forall|n: int|
                        0 <= n < v@.len() ==> (#[trigger] v@[n])@ == selected(
                            self.learning_repo.sessions@,
                            session_type_is(*session_type),
                        )[n]@
                },
                Err(_) => false,
            },
    {
        self.learning_repo.find_by_type(session_type)
    }

    /// Reads every session still live, newest first.
    pub fn get_active_learning_sessions(&self) -> (r: Result<Vec<LearningSession>, Error>)
        requires
            self.wf(),
        ensures
            match r {
                Ok(v) => {
                    &&& v@.len() == selected(self.learning_repo.sessions@, session_is_active()).len()
                    &&& forall|n: int|
                        0 <= n < v@.len() ==> (#[trigger] v@[n])@ == selected(
                            self.learning_repo.sessions@,
                            session_is_active(),
                        )[n]@
                },
                Err(_) => false,
            },
    {
        self.learning_repo.find_active_sessions()
    }

    /// Reads every session, newest first.
    pub fn list_all_learning_sessions(&self) -> (r: Result<Vec<LearningSession>, Error>)
        requires
            self.wf(),
        ensures
            match r {
                Ok(v) => {
                    &&& v@.len() == self.learning_repo.session_count()
                    &&& forall|n: int|
                        0 <= n < v@.len() ==> (#[trigger] v@[n])@ == self.learning_repo.sessions@[n]@
                },
                Err(_) => false,
            },
    {
        self.learning_repo.find_all()
    }

    /// Number of stored sessions.
    pub fn get_learning_session_count(&self) -> (r: Result<usize, Error>)
        requires
            self.wf(),
        ensures
            r == Ok::<usize, Error>(self.learning_repo.session_count() as usize),
    {
        self.learning_repo.count()
    }

    /// Number of stored sessions in the given status.
    pub fn get_learning_session_count_by_status(&self, status: &LearningSessionStatus) -> (r:
        Result<usize, Error>)
        requires
            self.wf(),
        ensures
            r == Ok::<usize, Error>(
                count_session_status(self.learning_repo.sessions@, *status) as usize,
            ),
    {
        self.learning_repo.count_by_status(status)
    }

    /// Assembles the per-status counts of sessions. Each field equals the
    /// number of stored sessions in that status, and the five counts always
    /// sum to the total, because every session is in exactly one status.
    pub fn get_learning_session_statistics(&self) -> (r: Result<LearningSessionStatistics, Error>)
        requires
            self.wf(),
        ensures
            match r {
                Ok(s) => {
                    &&& s.total_sessions == self.learning_repo.session_count()
                    &&& s.preparing_sessions == count_session_status(
                        self.learning_repo.sessions@,
                        LearningSessionStatus::Preparing,
                    )
                    &&& s.training_sessions == count_session_status(
                        self.learning_repo.sessions@,
                        LearningSessionStatus::Training,
                    )
                    &&& s.evaluating_sessions == count_session_status(
                        self.learning_repo.sessions@,
                        LearningSessionStatus::Evaluating,
                    )
                    &&& s.completed_sessions == count_session_status(
                        self.learning_repo.sessions@,
                        LearningSessionStatus::Completed,
                    )
                    &&& s.failed_sessions == count_session_status(
                        self.learning_repo.sessions@,
                        LearningSessionStatus::Failed,
                    )
                    &&& s.total_sessions == s.preparing_sessions + s.training_sessions
                        + s.evaluating_sessions + s.completed_sessions + s.failed_sessions
                },
                Err(_) => false,
            },
    {
        let total_sessions = self.learning_repo.count()?;
        let preparing_sessions = self.learning_repo.count_by_status(
            &LearningSessionStatus::Preparing,
        )?;
        let training_sessions = self.learning_repo.count_by_status(
            &LearningSessionStatus::Training,
        )?;
        let evaluating_sessions = self.learning_repo.count_by_status(
            &LearningSessionStatus::Evaluating,
        )?;
        let completed_sessions = self.learning_repo.count_by_status(
            &LearningSessionStatus::Completed,
        )?;
        let failed_sessions = self.learning_repo.count_by_status(&LearningSessionStatus::Failed)?;
        proof {
            lemma_session_status_counts_partition(self.learning_repo.sessions@);
        }
        Ok(
            LearningSessionStatistics {
                total_sessions,
                preparing_sessions,
                training_sessions,
                evaluating_sessions,
                completed_sessions,
                failed_sessions,
            },
        )
    }

    /// Computes the default metric scores from aligned predictions and
    /// expected values, all in micro-units: the accuracy is the agreeing
    /// share of pairs, the loss its complement to one unit, and the other
    /// scores repeat the accuracy. Either sequence being empty yields
    /// absent scores.
    #[verifier::loop_isolation(false)]
    pub fn calculate_learning_metrics(&self, predictions: &Vec<u64>, actuals: &Vec<u64>) -> (r:
        Result<LearningMetrics, Error>)
        ensures
            match r {
                Ok(m) => {
                    &&& (predictions@.len() == 0 || actuals@.len() == 0) ==> m@
                        == empty_metrics_view()
                    &&& (predictions@.len() > 0 && actuals@.len() > 0) ==> {
                        let acc = spec_accuracy(predictions@, actuals@);
                        &&& m@.accuracy == Some(acc as u64)
                        &&& m@.loss == Some((MICROS_PER_UNIT - acc) as u64)
                        &&& m@.precision == Some(acc as u64)
                        &&& m@.recall == Some(acc as u64)
                        &&& m@.f1_score == Some(acc as u64)
                        &&& m@.custom_metrics == Seq::<(String, u64)>::empty()
                        &&& 0 <= acc <= MICROS_PER_UNIT
                    }
                },
                Err(_) => false,
            },
    {
        if predictions.len() == 0 || actuals.len() == 0 {
            let m = LearningMetrics::empty();
            proof {
                assert(m@ =~= empty_metrics_view());
            }
            return Ok(m);
        }
        let upto: usize = if predictions.len() <= actuals.len() {
            predictions.len()
        } else {
            actuals.len()
        };
        let mut matches_count: usize = 0;
        let mut i: usize = 0;
        while i < upto
            invariant
                i <= upto,
                matches_count == matching_predictions(predictions@, actuals@, i as int),
                matches_count <= i,
            decreases upto - i,
        {
            let p = predictions[i];
            let a = actuals[i];
            let agrees = if p >= a {
                p - a < 100_000
            } else {
                a - p < 100_000
            };
            if agrees {
                matches_count = matches_count + 1;
            }
            i = i + 1;
        }
        let accuracy_micro: u64 = ((matches_count as u128 * MICROS_PER_UNIT as u128
            / predictions.len() as u128) as u64);
        proof {
            let acc = spec_accuracy(predictions@, actuals@);
            assert(matches_count <= predictions@.len());
            assert(acc == matches_count * MICROS_PER_UNIT / (predictions@.len() as int));
            assert(matches_count * MICROS_PER_UNIT <= predictions@.len() * MICROS_PER_UNIT)
                by (nonlinear_arith)
                requires
                    matches_count <= predictions@.len(),
            ;
            assert(acc <= MICROS_PER_UNIT) by (nonlinear_arith)
                requires
                    acc == matches_count * MICROS_PER_UNIT / (predictions@.len() as int),
                    matches_count <= predictions@.len(),
                    predictions@.len() > 0,
            ;
            assert(acc >= 0) by (nonlinear_arith)
                requires
                    acc == matches_count * MICROS_PER_UNIT / (predictions@.len() as int),
                    predictions@.len() > 0,
            ;
            assert(accuracy_micro == acc);
        }
        let loss_micro: u64 = MICROS_PER_UNIT - accuracy_micro;
        let m = LearningMetrics {
            accuracy: Some(accuracy_micro),
            loss: Some(loss_micro),
            precision: Some(accuracy_micro),
            recall: Some(accuracy_micro),
            f1_score: Some(accuracy_micro),
            custom_metrics: Vec::new(),
        };
        proof {
            assert(m@.custom_metrics =~= Seq::<(String, u64)>::empty());
        }
        Ok(m)
    }

    /// Evaluates a stored model against test data. The predictions come
    /// from the random number source, standing in for real inference, so
    /// only ranges are promised of the resulting scores: with test data
    /// present every score lies between zero and one unit. A session
    /// identifier that is not stored is `NotFound`.
    #[verifier::loop_isolation(false)]
    pub fn evaluate_model_performance(
        &self,
        session_id: &LearningSessionId,
        test_data: &Vec<TrainingData>,
    ) -> (r: Result<LearningMetrics, Error>)
        requires
            self.wf(),
        ensures
            match r {
                Ok(m) => {
                    &&& self.learning_repo.has_id(session_id.0)
                    &&& m@.custom_metrics == Seq::<(String, u64)>::empty()
                    &&& test_data@.len() == 0 ==> m@ == empty_metrics_view()
                    &&& test_data@.len() > 0 ==> ((m@.accuracy matches Some(acc)
                        && acc <= MICROS_PER_UNIT) && (m@.loss matches Some(l) && l
                        <= MICROS_PER_UNIT))
                },
                Err(e) => e is NotFound && !self.learning_repo.has_id(session_id.0),
            },
            (r is Ok) <==> self.learning_repo.has_id(session_id.0),
    {
        let found = self.learning_repo.find_by_id(session_id)?;
        if found.is_none() {
            return Err(Error::NotFound("no learning session with this id".to_owned()));
        }
        if !self.validate_training_data(test_data) {
            return Err(Error::ValidationError("invalid test data".to_owned()));
        }
        let mut predictions: Vec<u64> = Vec::new();
        let mut actuals: Vec<u64> = Vec::new();
        let mut i: usize = 0;
        while i < test_data.len()
            invariant
                predictions@.len() == i,
                actuals@.len() == i,
                i <= test_data@.len(),
            decreases test_data@.len() - i,
        {
            let p: u32 = rand::random::<u32>();
            let a: u32 = rand::random::<u32>();
            predictions.push((p % 1_000_000) as u64);
            actuals.push((a % 1_000_000) as u64);
            i = i + 1;
        }
        self.calculate_learning_metrics(&predictions, &actuals)
    }

    /// Reads the most recent sessions of an agent: every session the agent
    /// owns, newest first, truncated to `limit`.
    pub fn get_learning_history(&self, agent_id: &AgentId, limit: usize) -> (r: Result<
        Vec<LearningSession>,
        Error,
    >)
        requires
            self.wf(),
        ensures
            match r {
                Ok(v) => {
                    let all = selected(self.learning_repo.sessions@, session_agent_is(agent_id.0));
                    &&& v@.len() == (if all.len() <= limit {
                        all.len()
                    } else {
                        limit as nat
                    })
                    &&& forall|n: int| 0 <= n < v@.len() ==> (#[trigger] v@[n])@ == all[n]@
                    &&& forall|n: int, m: int|
                        #![trigger v@[n], v@[m]]
                        0 <= n <= m < v@.len() ==> v@[n].created_at >= v@[m].created_at
                },
                Err(_) => false,
            },
    {
        let mut sessions = self.learning_repo.find_by_agent_id(agent_id)?;
        sessions.truncate(limit);
        Ok(sessions)
    }
}

} // verus!
