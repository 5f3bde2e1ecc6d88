//! Use-case orchestrator for the `Task` aggregate: it checks that the
//! owning agent and the task exist before any mutation, enforces the task
//! lifecycle machine, and delegates persistence to the task store.
//!
//! The lifecycle machine: Pending to Running; Running to Completed, Failed
//! or Cancelled; Pending directly to Cancelled; no transition leaves a
//! terminal status.

use vstd::prelude::*;

use crate::agent_repository::AgentRepository;
use crate::agent_repository::selected;
use crate::domain::AgentId;
use crate::domain::CreateTaskRequest;
use crate::domain::Task;
use crate::domain::TaskId;
use crate::domain::TaskPriority;
use crate::domain::TaskStatus;
use crate::domain::TaskType;
use crate::error::Error;
use crate::task_repository::TaskRepository;
use crate::task_repository::count_status;
use crate::task_repository::lemma_status_counts_partition;
use crate::task_repository::task_agent_is;
use crate::task_repository::task_priority_is;
use crate::task_repository::task_status_is;

verus! {

/// The task a creation request materializes into, given the assigned
/// identifier and creation instant: a new task starts `Pending` with no
/// start, completion, output or error.
pub open spec fn materialized_task(request: CreateTaskRequest, id: u128, now: i64) -> Task {
    Task {
        id: TaskId(id),
        agent_id: request.agent_id,
        name: request.name,
        description: request.description,
        task_type: request.task_type,
        status: TaskStatus::Pending,
        priority: request.priority,
        input_data: request.input_data,
        output_data: None,
        created_at: now,
        started_at: None,
        completed_at: None,
        error_message: None,
    }
}

/// Whether two tasks agree on everything a lifecycle transition never
/// touches: identity, owner, naming, type, priority, payload and creation
/// time.
pub open spec fn same_task_core(a: Task, b: Task) -> bool {
    &&& a.id == b.id
    &&& a.agent_id == b.agent_id
    &&& a.name == b.name
    &&& a.description == b.description
    &&& a.task_type == b.task_type
    &&& a.priority == b.priority
    &&& a.input_data == b.input_data
    &&& a.created_at == b.created_at
}

/// Counts of tasks by lifecycle status, along with the total.
#[derive(Clone, Copy, PartialEq, Eq, Structural, Debug)]
pub struct TaskStatistics {
    pub total_tasks: usize,
    pub pending_tasks: usize,
    pub running_tasks: usize,
    pub completed_tasks: usize,
    pub failed_tasks: usize,
    pub cancelled_tasks: usize,
}

/// Orchestrator for the task aggregate family.
pub struct TaskManagementUseCase {
    pub task_repo: TaskRepository,
}

impl TaskManagementUseCase {
    /// The orchestrator is as well formed as its store.
    pub open spec fn wf(self) -> bool {
        self.task_repo.wf()
    }

    /// Builds the orchestrator around a store.
    pub fn new(task_repo: TaskRepository) -> (r: Self)
        ensures
            r.task_repo == task_repo,
    {
        TaskManagementUseCase { task_repo }
    }

    /// Materializes and stores the task described by the request, under the
    /// given identifier and creation instant. A request naming an agent
    /// that is not stored is `NotFound`; a duplicate task identifier is a
    /// `Conflict`; either failure leaves the store untouched.
    pub fn create_task_with(
        &mut self,
        agents: &AgentRepository,
        request: CreateTaskRequest,
        id: u128,
        now: i64,
    ) -> (r: Result<Task, Error>)
        requires
            old(self).wf(),
            agents.wf(),
        ensures
            final(self).wf(),
            match r {
                Ok(t) => {
                    &&& agents.has_id(request.agent_id.0)
                    &&& !old(self).task_repo.has_id(id)
                    &&& t == materialized_task(request, id, now)
                    &&& final(self).task_repo.has_id(id)
                    &&& final(self).task_repo.task_of(id) == t
                    &&& final(self).task_repo.task_count() == old(self).task_repo.task_count() + 1
                    &&& forall|j: u128|
                        j != id ==> final(self).task_repo.has_id(j) == old(self).task_repo.has_id(
                            j,
                        )
                    &&& forall|j: u128|
                        j != id && old(self).task_repo.has_id(j) ==> final(self).task_repo.task_of(
                            j,
                        ) == old(self).task_repo.task_of(j)
                },
                Err(e) => {
                    &&& (e is NotFound <==> !agents.has_id(request.agent_id.0))
                    &&& (e is Conflict <==> agents.has_id(request.agent_id.0) && old(self).task_repo.has_id(id))
                    &&& (e is NotFound || e is Conflict)
                    &&& *final(self) == *old(self)
                },
            },
            (r is Ok) <==> (agents.has_id(request.agent_id.0) && !old(self).task_repo.has_id(id)),
    {
        let owner = agents.find_by_id(&request.agent_id)?;
        if owner.is_none() {
            return Err(Error::NotFound("no agent with this id".to_owned()));
        }
        let task = Task {
            id: TaskId(id),
            agent_id: request.agent_id,
            name: request.name,
            description: request.description,
            task_type: request.task_type,
            status: TaskStatus::Pending,
            priority: request.priority,
            input_data: request.input_data,
            output_data: None,
            created_at: now,
            started_at: None,
            completed_at: None,
            error_message: None,
        };
        self.task_repo.create(&task)
    }

    /// Creates a task for an existing agent: the domain policy assigns a
    /// fresh identifier and the current instant, and the new task starts
    /// `Pending`. A request naming an agent that is not stored is
    /// `NotFound`; since the identifier is drawn at random, success is owed
    /// only when the drawn identifier is also free.
    pub fn create_task(&mut self, agents: &AgentRepository, request: CreateTaskRequest) -> (r:
        Result<Task, Error>)
        requires
            old(self).wf(),
            agents.wf(),
        ensures
            final(self).wf(),
            match r {
                Ok(t) => {
                    &&& agents.has_id(request.agent_id.0)
                    &&& t.status == TaskStatus::Pending
                    &&& t.agent_id == request.agent_id
                    &&& t.name == request.name
                    &&& t.description == request.description
                    &&& t.task_type == request.task_type
                    &&& t.priority == request.priority
                    &&& t.input_data == request.input_data
                    &&& t.output_data is None
                    &&& t.started_at is None
                    &&& t.completed_at is None
                    &&& t.error_message is None
                    &&& final(self).task_repo.has_id(t.id.0)
                    &&& final(self).task_repo.task_of(t.id.0) == t
                    &&& final(self).task_repo.task_count() == old(self).task_repo.task_count() + 1
                    &&& forall|j: u128|
                        j != t.id.0 && old(self).task_repo.has_id(j) ==> final(self).task_repo.task_of(j) == old(self).task_repo.task_of(j)
                },
                Err(e) => {
                    &&& (e is NotFound <==> !agents.has_id(request.agent_id.0))
                    &&& (e is NotFound || e is Conflict)
                    &&& *final(self) == *old(self)
                },
            },
            !agents.has_id(request.agent_id.0) ==> r is Err,
            agents.has_id(request.agent_id.0) && old(self).task_repo.task_count() == 0 ==> r is Ok,
            r is Err ==> (!agents.has_id(request.agent_id.0) || old(self).task_repo.task_count()
                > 0),
    {
        let ghost pre = *self;
        let id = crate::runtime::fresh_id();
        let now = crate::runtime::now_millis();
        let r = self.create_task_with(agents, request, id, now);
        proof {
            if pre.task_repo.task_count() == 0 {
                assert(!pre.task_repo.has_id(id));
            }
            if pre.task_repo.has_id(id) {
                let k = choose|k: int|
                    0 <= k < pre.task_repo.tasks@.len()
                        && #[trigger] pre.task_repo.tasks@[k].id.0 == id;
                assert(pre.task_repo.task_count() > 0);
            }
        }
        r
    }

    /// Starts a pending task: its status becomes `Running` and the start
    /// timestamp is set. A task identifier that is not stored is `NotFound`
    /// and the store is left untouched; a task not in `Pending` is a
    /// `ValidationError`, likewise leaving the store untouched.
    pub fn start_task(&mut self, task_id: &TaskId) -> (r: Result<Task, Error>)
        requires
            old(self).wf(),
        ensures
            final(self).wf(),
            !old(self).task_repo.has_id(task_id.0) ==> (r matches Err(e) && e is NotFound && *final(self) == *old(self)),
            match r {
                Ok(t) => {
                    &&& old(self).task_repo.has_id(task_id.0)
                    &&& old(self).task_repo.task_of(task_id.0).status == TaskStatus::Pending
                    &&& same_task_core(t, old(self).task_repo.task_of(task_id.0))
                    &&& t.status == TaskStatus::Running
                    &&& t.started_at is Some
                    &&& t.completed_at is None
                    &&& t.output_data is None
                    &&& t.error_message is None
                    &&& final(self).task_repo.has_id(task_id.0)
                    &&& final(self).task_repo.task_of(task_id.0) == t
                    &&& final(self).task_repo.task_count() == old(self).task_repo.task_count()
                    &&& forall|j: u128|
                        final(self).task_repo.has_id(j) == old(self).task_repo.has_id(j)
                    &&& forall|j: u128|
                        j != task_id.0 && old(self).task_repo.has_id(j) ==> final(self).task_repo.task_of(j) == old(self).task_repo.task_of(j)
                },
                Err(e) => {
                    &&& (e is NotFound <==> !old(self).task_repo.has_id(task_id.0))
                    &&& (e is ValidationError <==> old(self).task_repo.has_id(task_id.0) && !(old(self).task_repo.task_of(task_id.0).status is Pending))
                    &&& (e is NotFound || e is ValidationError)
                    &&& *final(self) == *old(self)
                },
            },
    {
        let found = self.task_repo.find_by_id(task_id)?;
        let mut task = match found {
            Some(t) => t,
            None => {
                return Err(Error::NotFound("no task with this id".to_owned()));
            },
        };
        if !matches!(task.status, TaskStatus::Pending) {
            return Err(Error::ValidationError("only a pending task can start".to_owned()));
        }
        let now = crate::runtime::now_millis();
        task.status = TaskStatus::Running;
        task.started_at = Some(now);
        self.task_repo.update(&task)
    }

    /// Completes a running task with its output payload: the status becomes
    /// `Completed`, the completion timestamp is set and the output is
    /// recorded. A task identifier that is not stored is `NotFound`; a task
    /// not in `Running` is a `ValidationError`; either failure leaves the
    /// store untouched.
    pub fn complete_task(&mut self, task_id: &TaskId, output: String) -> (r: Result<Task, Error>)
        requires
            old(self).wf(),
        ensures
            final(self).wf(),
            !old(self).task_repo.has_id(task_id.0) ==> (r matches Err(e) && e is NotFound && *final(self) == *old(self)),
            match r {
                Ok(t) => {
                    &&& old(self).task_repo.has_id(task_id.0)
                    &&& old(self).task_repo.task_of(task_id.0).status == TaskStatus::Running
                    &&& same_task_core(t, old(self).task_repo.task_of(task_id.0))
                    &&& t.status == TaskStatus::Completed
                    &&& t.started_at == old(self).task_repo.task_of(task_id.0).started_at
                    &&& t.completed_at is Some
                    &&& t.output_data == Some(output)
                    &&& t.error_message is None
                    &&& final(self).task_repo.has_id(task_id.0)
                    &&& final(self).task_repo.task_of(task_id.0) == t
                    &&& final(self).task_repo.task_count() == old(self).task_repo.task_count()
                    &&& forall|j: u128|
                        final(self).task_repo.has_id(j) == old(self).task_repo.has_id(j)
                    &&& forall|j: u128|
                        j != task_id.0 && old(self).task_repo.has_id(j) ==> final(self).task_repo.task_of(j) == old(self).task_repo.task_of(j)
                },
                Err(e) => {
                    &&& (e is NotFound <==> !old(self).task_repo.has_id(task_id.0))
                    &&& (e is ValidationError <==> old(self).task_repo.has_id(task_id.0) && !(old(self).task_repo.task_of(task_id.0).status is Running))
                    &&& (e is NotFound || e is ValidationError)
                    &&& *final(self) == *old(self)
                },
            },
    {
        let found = self.task_repo.find_by_id(task_id)?;
        let mut task = match found {
            Some(t) => t,
            None => {
                return Err(Error::NotFound("no task with this id".to_owned()));
            },
        };
        if !matches!(task.status, TaskStatus::Running) {
            return Err(Error::ValidationError("only a running task can complete".to_owned()));
        }
        let now = crate::runtime::now_millis();
        task.status = TaskStatus::Completed;
        task.completed_at = Some(now);
        task.output_data = Some(output);
        self.task_repo.update(&task)
    }

    /// Marks a running task failed with an error message: the status
    /// becomes `Failed`, the completion timestamp is set and the message is
    /// recorded. A task identifier that is not stored is `NotFound`; a task
    /// not in `Running` is a `ValidationError`; either failure leaves the
    /// store untouched.
    pub fn fail_task(&mut self, task_id: &TaskId, error_message: String) -> (r: Result<Task, Error>)
        requires
            old(self).wf(),
        ensures
            final(self).wf(),
            !old(self).task_repo.has_id(task_id.0) ==> (r matches Err(e) && e is NotFound && *final(self) == *old(self)),
            match r {
                Ok(t) => {
                    &&& old(self).task_repo.has_id(task_id.0)
                    &&& old(self).task_repo.task_of(task_id.0).status == TaskStatus::Running
                    &&& same_task_core(t, old(self).task_repo.task_of(task_id.0))
                    &&& t.status == TaskStatus::Failed
                    &&& t.started_at == old(self).task_repo.task_of(task_id.0).started_at
                    &&& t.completed_at is Some
                    &&& t.output_data is None
                    &&& t.error_message == Some(error_message)
                    &&& final(self).task_repo.has_id(task_id.0)
                    &&& final(self).task_repo.task_of(task_id.0) == t
                    &&& final(self).task_repo.task_count() == old(self).task_repo.task_count()
                    &&& forall|j: u128|
                        final(self).task_repo.has_id(j) == old(self).task_repo.has_id(j)
                    &&& forall|j: u128|
                        j != task_id.0 && old(self).task_repo.has_id(j) ==> final(self).task_repo.task_of(j) == old(self).task_repo.task_of(j)
                },
                Err(e) => {
                    &&& (e is NotFound <==> !old(self).task_repo.has_id(task_id.0))
                    &&& (e is ValidationError <==> old(self).task_repo.has_id(task_id.0) && !(old(self).task_repo.task_of(task_id.0).status is Running))
                    &&& (e is NotFound || e is ValidationError)
                    &&& *final(self) == *old(self)
                },
            },
    {
        let found = self.task_repo.find_by_id(task_id)?;
        let mut task = match found {
            Some(t) => t,
            None => {
                return Err(Error::NotFound("no task with this id".to_owned()));
            },
        };
        if !matches!(task.status, TaskStatus::Running) {
            return Err(Error::ValidationError("only a running task can fail".to_owned()));
        }
        let now = crate::runtime::now_millis();
        task.status = TaskStatus::Failed;
        task.completed_at = Some(now);
        task.error_message = Some(error_message);
        self.task_repo.update(&task)
    }

    /// Cancels a pending or running task: the status becomes `Cancelled`
    /// and the completion timestamp is set. A task identifier that is not
    /// stored is `NotFound`; a task already terminal is a
    /// `ValidationError`; either failure leaves the store untouched.
    pub fn cancel_task(&mut self, task_id: &TaskId) -> (r: Result<Task, Error>)
        requires
            old(self).wf(),
        ensures
            final(self).wf(),
            !old(self).task_repo.has_id(task_id.0) ==> (r matches Err(e) && e is NotFound && *final(self) == *old(self)),
            match r {
                Ok(t) => {
                    &&& old(self).task_repo.has_id(task_id.0)
                    &&& (old(self).task_repo.task_of(task_id.0).status is Pending || old(self).task_repo.task_of(task_id.0).status is Running)
                    &&& same_task_core(t, old(self).task_repo.task_of(task_id.0))
                    &&& t.status == TaskStatus::Cancelled
                    &&& t.started_at == old(self).task_repo.task_of(task_id.0).started_at
                    &&& t.completed_at is Some
                    &&& t.output_data is None
                    &&& t.error_message is None
                    &&& final(self).task_repo.has_id(task_id.0)
                    &&& final(self).task_repo.task_of(task_id.0) == t
                    &&& final(self).task_repo.task_count() == old(self).task_repo.task_count()
                    &&& forall|j: u128|
                        final(self).task_repo.has_id(j) == old(self).task_repo.has_id(j)
                    &&& forall|j: u128|
                        j != task_id.0 && old(self).task_repo.has_id(j) ==> final(self).task_repo.task_of(j) == old(self).task_repo.task_of(j)
                },
                Err(e) => {
                    &&& (e is NotFound <==> !old(self).task_repo.has_id(task_id.0))
                    &&& (e is ValidationError <==> old(self).task_repo.has_id(task_id.0) && !(old(self).task_repo.task_of(task_id.0).status is Pending) && !(old(self).task_repo.task_of(task_id.0).status is Running))
                    &&& (e is NotFound || e is ValidationError)
                    &&& *final(self) == *old(self)
                },
            },
    {
        let found = self.task_repo.find_by_id(task_id)?;
        let mut task = match found {
            Some(t) => t,
            None => {
                return Err(Error::NotFound("no task with this id".to_owned()));
            },
        };
        let cancellable = matches!(task.status, TaskStatus::Pending) || matches!(
            task.status,
            TaskStatus::Running,
        );
        if !cancellable {
            return Err(
                Error::ValidationError("only a pending or running task can be cancelled".to_owned()),
            );
        }
        let now = crate::runtime::now_millis();
        task.status = TaskStatus::Cancelled;
        task.completed_at = Some(now);
        self.task_repo.update(&task)
    }

    /// Changes the scheduling priority of an existing task, in any status,
    /// leaving everything else as stored. A task identifier that is not
    /// stored is `NotFound` and the store is left untouched.
    pub fn prioritize_task(&mut self, task_id: &TaskId, priority: TaskPriority) -> (r: Result<
        Task,
        Error,
    >)
        requires
            old(self).wf(),
        ensures
            final(self).wf(),
            match r {
                Ok(t) => {
                    &&& old(self).task_repo.has_id(task_id.0)
                    &&& t.priority == priority
                    &&& t.id == old(self).task_repo.task_of(task_id.0).id
                    &&& t.agent_id == old(self).task_repo.task_of(task_id.0).agent_id
                    &&& t.name == old(self).task_repo.task_of(task_id.0).name
                    &&& t.description == old(self).task_repo.task_of(task_id.0).description
                    &&& t.task_type == old(self).task_repo.task_of(task_id.0).task_type
                    &&& t.status == old(self).task_repo.task_of(task_id.0).status
                    &&& t.input_data == old(self).task_repo.task_of(task_id.0).input_data
                    &&& t.output_data == old(self).task_repo.task_of(task_id.0).output_data
                    &&& t.created_at == old(self).task_repo.task_of(task_id.0).created_at
                    &&& t.started_at == old(self).task_repo.task_of(task_id.0).started_at
                    &&& t.completed_at == old(self).task_repo.task_of(task_id.0).completed_at
                    &&& t.error_message == old(self).task_repo.task_of(task_id.0).error_message
                    &&& final(self).task_repo.has_id(task_id.0)
                    &&& final(self).task_repo.task_of(task_id.0) == t
                    &&& forall|j: u128|
                        final(self).task_repo.has_id(j) == old(self).task_repo.has_id(j)
                    &&& forall|j: u128|
                        j != task_id.0 && old(self).task_repo.has_id(j) ==> final(self).task_repo.task_of(j) == old(self).task_repo.task_of(j)
                },
                Err(e) => {
                    &&& e is NotFound
                    &&& !old(self).task_repo.has_id(task_id.0)
                    &&& *final(self) == *old(self)
                },
            },
            (r is Ok) <==> old(self).task_repo.has_id(task_id.0),
    {
        let found = self.task_repo.find_by_id(task_id)?;
        let mut task = match found {
            Some(t) => t,
            None => {
                return Err(Error::NotFound("no task with this id".to_owned()));
            },
        };
        task.priority = priority;
        self.task_repo.update(&task)
    }

    /// Deletes an existing task. A task identifier that is not stored is
    /// `NotFound` and the store is left untouched.
    pub fn delete_task(&mut self, task_id: &TaskId) -> (r: Result<(), Error>)
        requires
            old(self).wf(),
        ensures
            final(self).wf(),
            match r {
                Ok(_) => {
                    &&& old(self).task_repo.has_id(task_id.0)
                    &&& !final(self).task_repo.has_id(task_id.0)
                    &&& final(self).task_repo.task_count() == old(self).task_repo.task_count() - 1
                    &&& forall|j: u128|
                        j != task_id.0 ==> final(self).task_repo.has_id(j) == old(self).task_repo.has_id(j)
                    &&& forall|j: u128|
                        j != task_id.0 && old(self).task_repo.has_id(j) ==> final(self).task_repo.task_of(j) == old(self).task_repo.task_of(j)
                },
                Err(e) => {
                    &&& e is NotFound
                    &&& !old(self).task_repo.has_id(task_id.0)
                    &&& *final(self) == *old(self)
                },
            },
            (r is Ok) <==> old(self).task_repo.has_id(task_id.0),
    {
        let found = self.task_repo.find_by_id(task_id)?;
        if found.is_none() {
            return Err(Error::NotFound("no task with this id".to_owned()));
        }
        self.task_repo.delete(task_id)
    }

    /// Looks one task up by identifier.
    pub fn find_task(&self, task_id: &TaskId) -> (r: Result<Option<Task>, Error>)
        requires
            self.wf(),
        ensures
            match r {
                Ok(found) => match found {
                    Some(t) => self.task_repo.has_id(task_id.0) && t == self.task_repo.task_of(
                        task_id.0,
                    ),
                    None => !self.task_repo.has_id(task_id.0),
                },
                Err(_) => false,
            },
    {
        self.task_repo.find_by_id(task_id)
    }

    /// Reads every task owned by the agent.
    pub fn find_tasks_by_agent(&self, agent_id: &AgentId) -> (r: Result<Vec<Task>, Error>)
        requires
            self.wf(),
        ensures
            match r {
                Ok(v) => v@ == selected(self.task_repo.tasks@, task_agent_is(agent_id.0)),
                Err(_) => false,
            },
    {
        self.task_repo.find_by_agent_id(agent_id)
    }

    /// Reads every task in the given status.
    pub fn find_tasks_by_status(&self, status: &TaskStatus) -> (r: Result<Vec<Task>, Error>)
        requires
            self.wf(),
        ensures
            match r {
                Ok(v) => v@ == selected(self.task_repo.tasks@, task_status_is(*status)),
                Err(_) => false,
            },
    {
        self.task_repo.find_by_status(status)
    }

    /// Reads every task with the given priority.
    pub fn find_tasks_by_priority(&self, priority: &TaskPriority) -> (r: Result<Vec<Task>, Error>)
        requires
            self.wf(),
        ensures
            match r {
                Ok(v) => v@ == selected(self.task_repo.tasks@, task_priority_is(*priority)),
                Err(_) => false,
            },
    {
        self.task_repo.find_by_priority(priority)
    }

    /// Reads every task still waiting to start.
    pub fn get_pending_tasks(&self) -> (r: Result<Vec<Task>, Error>)
        requires
            self.wf(),
        ensures
            match r {
                Ok(v) => v@ == selected(
                    self.task_repo.tasks@,
                    task_status_is(TaskStatus::Pending),
                ),
                Err(_) => false,
            },
    {
        self.task_repo.find_pending_tasks()
    }

    /// Reads every task currently running.
    pub fn get_running_tasks(&self) -> (r: Result<Vec<Task>, Error>)
        requires
            self.wf(),
        ensures
            match r {
                Ok(v) => v@ == selected(
                    self.task_repo.tasks@,
                    task_status_is(TaskStatus::Running),
                ),
                Err(_) => false,
            },
    {
        self.task_repo.find_running_tasks()
    }

    /// Reads every task.
    pub fn list_all_tasks(&self) -> (r: Result<Vec<Task>, Error>)
        requires
            self.wf(),
        ensures
            match r {
                Ok(v) => v@ == self.task_repo.tasks@,
                Err(_) => false,
            },
    {
        self.task_repo.find_all()
    }

    /// Number of stored tasks.
    pub fn get_task_count(&self) -> (r: Result<usize, Error>)
        requires
            self.wf(),
        ensures
            r == Ok::<usize, Error>(self.task_repo.task_count() as usize),
    {
        self.task_repo.count()
    }

    /// Number of stored tasks in the given status.
    pub fn get_task_count_by_status(&self, status: &TaskStatus) -> (r: Result<usize, Error>)
        requires
            self.wf(),
        ensures
            r == Ok::<usize, Error>(count_status(self.task_repo.tasks@, *status) as usize),
    {
        self.task_repo.count_by_status(status)
    }

    /// Assembles the per-status counts of tasks. Each field equals the
    /// number of stored tasks in that status, and the five counts always
    /// sum to the total, because every task is in exactly one status.
    pub fn get_task_statistics(&self) -> (r: Result<TaskStatistics, Error>)
        requires
            self.wf(),
        ensures
            match r {
                Ok(s) => {
                    &&& s.total_tasks == self.task_repo.task_count()
                    &&& s.pending_tasks == count_status(
                        self.task_repo.tasks@,
                        TaskStatus::Pending,
                    )
                    &&& s.running_tasks == count_status(
                        self.task_repo.tasks@,
                        TaskStatus::Running,
                    )
                    &&& s.completed_tasks == count_status(
                        self.task_repo.tasks@,
                        TaskStatus::Completed,
                    )
                    &&& s.failed_tasks == count_status(self.task_repo.tasks@, TaskStatus::Failed)
                    &&& s.cancelled_tasks == count_status(
                        self.task_repo.tasks@,
                        TaskStatus::Cancelled,
                    )
                    &&& s.total_tasks == s.pending_tasks + s.running_tasks + s.completed_tasks
                        + s.failed_tasks + s.cancelled_tasks
                },
                Err(_) => false,
            },
    {
        let total_tasks = self.task_repo.count()?;
        let pending_tasks = self.task_repo.count_by_status(&TaskStatus::Pending)?;
        let running_tasks = self.task_repo.count_by_status(&TaskStatus::Running)?;
        let completed_tasks = self.task_repo.count_by_status(&TaskStatus::Completed)?;
        let failed_tasks = self.task_repo.count_by_status(&TaskStatus::Failed)?;
        let cancelled_tasks = self.task_repo.count_by_status(&TaskStatus::Cancelled)?;
        proof {
            lemma_status_counts_partition(self.task_repo.tasks@);
        }
        Ok(
            TaskStatistics {
                total_tasks,
                pending_tasks,
                running_tasks,
                completed_tasks,
                failed_tasks,
                cancelled_tasks,
            },
        )
    }

    /// Plans a redistribution of work across agents. The workload policy is
    /// an external collaborator's decision; the default policy plans no
    /// moves.
    pub fn balance_workload(&self) -> (r: Result<Vec<(AgentId, usize)>, Error>)
        ensures
            match r {
                Ok(v) => v@.len() == 0,
                Err(_) => false,
            },
    {
        Ok(Vec::new())
    }

    /// Reports agents believed failed. Failure detection is an external
    /// collaborator's decision; the default policy reports none.
    pub fn detect_agent_failures(&self) -> (r: Result<Vec<AgentId>, Error>)
        ensures
            match r {
                Ok(v) => v@.len() == 0,
                Err(_) => false,
            },
    {
        Ok(Vec::new())
    }

    /// Redistributes the tasks of a failed agent. Redistribution is an
    /// external collaborator's decision; the default policy moves nothing.
    pub fn redistribute_tasks(&self, _failed_agent_id: &AgentId) -> (r: Result<(), Error>)
        ensures
            r is Ok,
    {
        Ok(())
    }

    /// Plans which agents should take which task types. Allocation is an
    /// external collaborator's decision; the default policy plans nothing.
    pub fn optimize_agent_allocation(&self) -> (r: Result<Vec<(TaskType, Vec<AgentId>)>, Error>)
        ensures
            match r {
                Ok(v) => v@.len() == 0,
                Err(_) => false,
            },
    {
        Ok(Vec::new())
    }
}

} // verus!
