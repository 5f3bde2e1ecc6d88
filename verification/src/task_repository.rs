//! Persistence engine for `Task`. Tasks have no dependent collections, so
//! the store is a single table of task rows with unique identifiers, and
//! all contracts speak of whole task values.

use vstd::prelude::*;

use crate::agent_repository::selected;
use crate::agent_repository::lemma_selected_push;
use crate::domain::AgentId;
use crate::domain::Task;
use crate::domain::TaskId;
use crate::domain::TaskPriority;
use crate::domain::TaskStatus;
use crate::error::Error;

verus! {

/// Tasks owned by the agent `id`.
pub open spec fn task_agent_is(id: u128) -> spec_fn(Task) -> bool {
    |t: Task| t.agent_id.0 == id
}

/// Tasks in status `status`.
pub open spec fn task_status_is(status: TaskStatus) -> spec_fn(Task) -> bool {
    |t: Task| t.status == status
}

/// Tasks with priority `priority`.
pub open spec fn task_priority_is(priority: TaskPriority) -> spec_fn(Task) -> bool {
    |t: Task| t.priority == priority
}

/// How many of the tasks are in status `status`.
pub open spec fn count_status(rows: Seq<Task>, status: TaskStatus) -> nat
    decreases rows.len(),
{
    if rows.len() == 0 {
        0
    } else {
        count_status(rows.drop_last(), status) + if rows.last().status == status {
            1nat
        } else {
            0nat
        }
    }
}

/// How `count_status` grows when one task is appended.
pub proof fn lemma_count_status_push(rows: Seq<Task>, t: Task, status: TaskStatus)
    ensures
        count_status(rows.push(t), status) == count_status(rows, status) + if t.status == status {
            1nat
        } else {
            0nat
        },
{
    assert(rows.push(t).drop_last() =~= rows);
}

/// The five status counts partition the task table: their sum is the total
/// count, because every task is in exactly one status.
pub proof fn lemma_status_counts_partition(rows: Seq<Task>)
    ensures
        count_status(rows, TaskStatus::Pending) + count_status(rows, TaskStatus::Running)
            + count_status(rows, TaskStatus::Completed) + count_status(rows, TaskStatus::Failed)
            + count_status(rows, TaskStatus::Cancelled) == rows.len(),
    decreases rows.len(),
{
    if rows.len() > 0 {
        lemma_status_counts_partition(rows.drop_last());
    }
}

/// In-memory task store: one table of task rows, addressed by identifier.
pub struct TaskRepository {
    pub tasks: Vec<Task>,
}

impl TaskRepository {
    /// Whether a task with this identifier is stored.
    pub open spec fn has_id(self, id: u128) -> bool {
        exists|k: int| 0 <= k < self.tasks@.len() && #[trigger] self.tasks@[k].id.0 == id
    }

    /// Index of the task carrying `id`; meaningful when `has_id`.
    pub open spec fn index_of(self, id: u128) -> int {
        choose|k: int| 0 <= k < self.tasks@.len() && #[trigger] self.tasks@[k].id.0 == id
    }

    /// The stored task carrying `id`; meaningful when `has_id`.
    pub open spec fn task_of(self, id: u128) -> Task {
        self.tasks@[self.index_of(id)]
    }

    /// Number of stored tasks.
    pub open spec fn task_count(self) -> nat {
        self.tasks@.len()
    }

    /// Store invariant: identifiers unique, every task well formed.
    pub open spec fn wf(self) -> bool {
        &&& forall|i: int, j: int|
            #![trigger self.tasks@[i], self.tasks@[j]]
            0 <= i < j < self.tasks@.len() ==> self.tasks@[i].id.0 != self.tasks@[j].id.0
        &&& forall|k: int| 0 <= k < self.tasks@.len() ==> (#[trigger] self.tasks@[k]).wf()
    }

    /// A task found at an index is the task of its identifier.
    pub proof fn lemma_lookup(self, id: u128, k: int)
        requires
            self.wf(),
            0 <= k < self.tasks@.len(),
            self.tasks@[k].id.0 == id,
        ensures
            self.has_id(id),
            self.index_of(id) == k,
            self.task_of(id) == self.tasks@[k],
    {
        assert(self.has_id(id));
        let c = self.index_of(id);
        if c < k {
            assert(self.tasks@[c].id.0 != self.tasks@[k].id.0);
        } else if c > k {
            assert(self.tasks@[k].id.0 != self.tasks@[c].id.0);
        }
    }

    /// An empty store.
    pub fn new() -> (r: Self)
        ensures
            r.wf(),
            r.task_count() == 0,
            forall|id: u128| !r.has_id(id),
    {
        TaskRepository { tasks: Vec::new() }
    }

    /// Stores a new task. A duplicate identifier is a `Conflict` and leaves
    /// the store untouched. The supplied task is echoed back unchanged.
    #[verifier::loop_isolation(false)]
    pub fn create(&mut self, task: &Task) -> (r: Result<Task, Error>)
        requires
            old(self).wf(),
            task.wf(),
        ensures
            final(self).wf(),
            match r {
                Ok(stored) => {
                    &&& !old(self).has_id(task.id.0)
                    &&& stored == *task
                    &&& final(self).has_id(task.id.0)
                    &&& final(self).task_of(task.id.0) == *task
                    &&& final(self).task_count() == old(self).task_count() + 1
                    &&& forall|j: u128|
                        j != task.id.0 ==> final(self).has_id(j) == old(self).has_id(j)
                    &&& forall|j: u128|
                        j != task.id.0 && old(self).has_id(j) ==> final(self).task_of(j) == old(
                            self,
                        ).task_of(j)
                },
                Err(e) => {
                    &&& e is Conflict
                    &&& old(self).has_id(task.id.0)
                    &&& *final(self) == *old(self)
                },
            },
    {
        let ghost pre = *self;
        let mut i: usize = 0;
        while i < self.tasks.len()
            invariant
                i <= self.tasks@.len(),
                forall|k: int| 0 <= k < i ==> (#[trigger] self.tasks@[k]).id.0 != task.id.0,
            decreases self.tasks@.len() - i,
        {
            if self.tasks[i].id.0 == task.id.0 {
                return Err(Error::Conflict("task id already stored".to_owned()));
            }
            i = i + 1;
        }
        self.tasks.push(task.clone());
        proof {
            let post = *self;
            assert(post.tasks@[pre.tasks@.len() as int] == *task);
            assert(post.wf()) by {
                assert forall|a: int, b: int|
                    #![trigger post.tasks@[a], post.tasks@[b]]
                    0 <= a < b < post.tasks@.len() implies post.tasks@[a].id.0
                    != post.tasks@[b].id.0 by {
                    if b < pre.tasks@.len() {
                        assert(post.tasks@[a] == pre.tasks@[a]);
                        assert(post.tasks@[b] == pre.tasks@[b]);
                    } else {
                        assert(post.tasks@[a] == pre.tasks@[a]);
                    }
                }
            }
            post.lemma_lookup(task.id.0, pre.tasks@.len() as int);
            assert forall|j: u128| j != task.id.0 implies post.has_id(j) == pre.has_id(j) by {
                if pre.has_id(j) {
                    let k = choose|k: int|
                        0 <= k < pre.tasks@.len() && #[trigger] pre.tasks@[k].id.0 == j;
                    assert(post.tasks@[k].id.0 == j);
                }
                if post.has_id(j) {
                    let k = choose|k: int|
                        0 <= k < post.tasks@.len() && #[trigger] post.tasks@[k].id.0 == j;
                    assert(k != pre.tasks@.len() as int);
                    assert(pre.tasks@[k].id.0 == j);
                }
            }
            assert forall|j: u128| j != task.id.0 && pre.has_id(j) implies post.task_of(j)
                == pre.task_of(j) by {
                let k = choose|k: int|
                    0 <= k < pre.tasks@.len() && #[trigger] pre.tasks@[k].id.0 == j;
                pre.lemma_lookup(j, k);
                post.lemma_lookup(j, k);
            }
        }
        Ok(task.clone())
    }

    /// Reads the task carrying `id`, or `None` when it is not stored.
    #[verifier::loop_isolation(false)]
    pub fn find_by_id(&self, id: &TaskId) -> (r: Result<Option<Task>, Error>)
        requires
            self.wf(),
        ensures
            match r {
                Ok(found) => match found {
                    Some(t) => self.has_id(id.0) && t == self.task_of(id.0) && t.wf(),
                    None => !self.has_id(id.0),
                },
                Err(_) => false,
            },
    {
        let mut i: usize = 0;
        while i < self.tasks.len()
            invariant
                i <= self.tasks@.len(),
                forall|k: int| 0 <= k < i ==> (#[trigger] self.tasks@[k]).id.0 != id.0,
            decreases self.tasks@.len() - i,
        {
            if self.tasks[i].id.0 == id.0 {
                proof {
                    self.lemma_lookup(id.0, i as int);
                }
                return Ok(Some(self.tasks[i].clone()));
            }
            i = i + 1;
        }
        Ok(None)
    }

    /// Reads every task owned by the agent, in storage order.
    #[verifier::loop_isolation(false)]
    pub fn find_by_agent_id(&self, agent_id: &AgentId) -> (r: Result<Vec<Task>, Error>)
        requires
            self.wf(),
        ensures
            match r {
                Ok(v) => v@ == selected(self.tasks@, task_agent_is(agent_id.0)),
                Err(_) => false,
            },
    {
        let ghost pred = task_agent_is(agent_id.0);
        let mut out: Vec<Task> = Vec::new();
        let mut i: usize = 0;
        while i < self.tasks.len()
            invariant
                i <= self.tasks@.len(),
                out@ == selected(self.tasks@.subrange(0, i as int), pred),
            decreases self.tasks@.len() - i,
        {
            proof {
                assert(self.tasks@.subrange(0, i + 1 as int) =~= self.tasks@.subrange(
                    0,
                    i as int,
                ).push(self.tasks@[i as int]));
                lemma_selected_push(self.tasks@.subrange(0, i as int), pred, self.tasks@[i as int]);
            }
            if self.tasks[i].agent_id.0 == agent_id.0 {
                out.push(self.tasks[i].clone());
            }
            i = i + 1;
        }
        proof {
            assert(self.tasks@.subrange(0, self.tasks@.len() as int) =~= self.tasks@);
        }
        Ok(out)
    }

    /// Reads every task in this status, in storage order.
    #[verifier::loop_isolation(false)]
    pub fn find_by_status(&self, status: &TaskStatus) -> (r: Result<Vec<Task>, Error>)
        requires
            self.wf(),
        ensures
            match r {
                Ok(v) => v@ == selected(self.tasks@, task_status_is(*status)),
                Err(_) => false,
            },
    {
        let ghost pred = task_status_is(*status);
        let mut out: Vec<Task> = Vec::new();
        let mut i: usize = 0;
        while i < self.tasks.len()
            invariant
                i <= self.tasks@.len(),
                out@ == selected(self.tasks@.subrange(0, i as int), pred),
            decreases self.tasks@.len() - i,
        {
            proof {
                assert(self.tasks@.subrange(0, i + 1 as int) =~= self.tasks@.subrange(
                    0,
                    i as int,
                ).push(self.tasks@[i as int]));
                lemma_selected_push(self.tasks@.subrange(0, i as int), pred, self.tasks@[i as int]);
            }
            if self.tasks[i].status == *status {
                out.push(self.tasks[i].clone());
            }
            i = i + 1;
        }
        proof {
            assert(self.tasks@.subrange(0, self.tasks@.len() as int) =~= self.tasks@);
        }
        Ok(out)
    }

    /// Reads every task with this priority, in storage order.
    #[verifier::loop_isolation(false)]
    pub fn find_by_priority(&self, priority: &TaskPriority) -> (r: Result<Vec<Task>, Error>)
        requires
            self.wf(),
        ensures
            match r {
                Ok(v) => v@ == selected(self.tasks@, task_priority_is(*priority)),
                Err(_) => false,
            },
    {
        let ghost pred = task_priority_is(*priority);
        let mut out: Vec<Task> = Vec::new();
        let mut i: usize = 0;
        while i < self.tasks.len()
            invariant
                i <= self.tasks@.len(),
                out@ == selected(self.tasks@.subrange(0, i as int), pred),
            decreases self.tasks@.len() - i,
        {
            proof {
                assert(self.tasks@.subrange(0, i + 1 as int) =~= self.tasks@.subrange(
                    0,
                    i as int,
                ).push(self.tasks@[i as int]));
                lemma_selected_push(self.tasks@.subrange(0, i as int), pred, self.tasks@[i as int]);
            }
            if self.tasks[i].priority == *priority {
                out.push(self.tasks[i].clone());
            }
            i = i + 1;
        }
        proof {
            assert(self.tasks@.subrange(0, self.tasks@.len() as int) =~= self.tasks@);
        }
        Ok(out)
    }

    /// Reads every task still waiting to start.
    pub fn find_pending_tasks(&self) -> (r: Result<Vec<Task>, Error>)
        requires
            self.wf(),
        ensures
            match r {
                Ok(v) => v@ == selected(self.tasks@, task_status_is(TaskStatus::Pending)),
                Err(_) => false,
            },
    {
        self.find_by_status(&TaskStatus::Pending)
    }

    /// Reads every task currently running.
    pub fn find_running_tasks(&self) -> (r: Result<Vec<Task>, Error>)
        requires
            self.wf(),
        ensures
            match r {
                Ok(v) => v@ == selected(self.tasks@, task_status_is(TaskStatus::Running)),
                Err(_) => false,
            },
    {
        self.find_by_status(&TaskStatus::Running)
    }

    /// Reads every task, in storage order.
    #[verifier::loop_isolation(false)]
    pub fn find_all(&self) -> (r: Result<Vec<Task>, Error>)
        requires
            self.wf(),
        ensures
            match r {
                Ok(v) => v@ == self.tasks@,
                Err(_) => false,
            },
    {
        let mut out: Vec<Task> = Vec::new();
        let mut i: usize = 0;
        while i < self.tasks.len()
            invariant
                i <= self.tasks@.len(),
                out@ == self.tasks@.subrange(0, i as int),
            decreases self.tasks@.len() - i,
        {
            out.push(self.tasks[i].clone());
            proof {
                assert(out@ =~= self.tasks@.subrange(0, i + 1 as int));
            }
            i = i + 1;
        }
        proof {
            assert(out@ =~= self.tasks@);
        }
        Ok(out)
    }

    /// Overwrites the stored task carrying the same identifier with the
    /// supplied one. An unknown identifier is `NotFound` and leaves the
    /// store untouched. The supplied task is echoed back unchanged.
    #[verifier::loop_isolation(false)]
    pub fn update(&mut self, task: &Task) -> (r: Result<Task, Error>)
        requires
            old(self).wf(),
            task.wf(),
        ensures
            final(self).wf(),
            match r {
                Ok(stored) => {
                    &&& old(self).has_id(task.id.0)
                    &&& stored == *task
                    &&& final(self).has_id(task.id.0)
                    &&& final(self).task_of(task.id.0) == *task
                    &&& final(self).task_count() == old(self).task_count()
                    &&& forall|j: u128| final(self).has_id(j) == old(self).has_id(j)
                    &&& forall|j: u128|
                        j != task.id.0 && old(self).has_id(j) ==> final(self).task_of(j) == old(
                            self,
                        ).task_of(j)
                },
                Err(e) => {
                    &&& e is NotFound
                    &&& !old(self).has_id(task.id.0)
                    &&& *final(self) == *old(self)
                },
            },
    {
        let ghost pre = *self;
        let task_count: usize = self.tasks.len();
        let mut idx: usize = 0;
        while idx < task_count && self.tasks[idx].id.0 != task.id.0
            invariant
                idx <= task_count,
                forall|k: int| 0 <= k < idx ==> (#[trigger] self.tasks@[k]).id.0 != task.id.0,
            decreases task_count - idx,
        {
            idx = idx + 1;
        }
        if idx == task_count {
            return Err(Error::NotFound("no task with this id".to_owned()));
        }
        proof {
            self.lemma_lookup(task.id.0, idx as int);
        }
        self.tasks.set(idx, task.clone());
        proof {
            let post = *self;
            assert forall|k: int|
                0 <= k < post.tasks@.len() implies (#[trigger] post.tasks@[k]).id.0
                == pre.tasks@[k].id.0 by {}
            assert(post.wf()) by {
                assert forall|a: int, b: int|
                    #![trigger post.tasks@[a], post.tasks@[b]]
                    0 <= a < b < post.tasks@.len() implies post.tasks@[a].id.0
                    != post.tasks@[b].id.0 by {
                    assert(post.tasks@[a].id.0 == pre.tasks@[a].id.0);
                    assert(post.tasks@[b].id.0 == pre.tasks@[b].id.0);
                }
                assert forall|k: int|
                    0 <= k < post.tasks@.len() implies (#[trigger] post.tasks@[k]).wf() by {
                    if k != idx {
                        assert(post.tasks@[k] == pre.tasks@[k]);
                    }
                }
            }
            post.lemma_lookup(task.id.0, idx as int);
            assert forall|j: u128| post.has_id(j) == pre.has_id(j) by {
                if pre.has_id(j) {
                    let k = choose|k: int|
                        0 <= k < pre.tasks@.len() && #[trigger] pre.tasks@[k].id.0 == j;
                    assert(post.tasks@[k].id.0 == j);
                }
                if post.has_id(j) {
                    let k = choose|k: int|
                        0 <= k < post.tasks@.len() && #[trigger] post.tasks@[k].id.0 == j;
                    assert(pre.tasks@[k].id.0 == j);
                }
            }
            assert forall|j: u128| j != task.id.0 && pre.has_id(j) implies post.task_of(j)
                == pre.task_of(j) by {
                let k = choose|k: int|
                    0 <= k < pre.tasks@.len() && #[trigger] pre.tasks@[k].id.0 == j;
                assert(k != idx);
                pre.lemma_lookup(j, k);
                post.lemma_lookup(j, k);
            }
        }
        Ok(task.clone())
    }

    /// Removes the task carrying `id`. Removing an identifier that is not
    /// stored succeeds and changes nothing.
    #[verifier::loop_isolation(false)]
    pub fn delete(&mut self, id: &TaskId) -> (r: Result<(), Error>)
        requires
            old(self).wf(),
        ensures
            final(self).wf(),
            r is Ok,
            !final(self).has_id(id.0),
            forall|j: u128| j != id.0 ==> final(self).has_id(j) == old(self).has_id(j),
            forall|j: u128|
                j != id.0 && old(self).has_id(j) ==> final(self).task_of(j) == old(self).task_of(j),
            old(self).has_id(id.0) ==> final(self).task_count() == old(self).task_count() - 1,
            !old(self).has_id(id.0) ==> *final(self) == *old(self),
    {
        let ghost pre = *self;
        let task_count: usize = self.tasks.len();
        let mut idx: usize = 0;
        while idx < task_count && self.tasks[idx].id.0 != id.0
            invariant
                idx <= task_count,
                forall|k: int| 0 <= k < idx ==> (#[trigger] self.tasks@[k]).id.0 != id.0,
            decreases task_count - idx,
        {
            idx = idx + 1;
        }
        if idx == task_count {
            return Ok(());
        }
        proof {
            self.lemma_lookup(id.0, idx as int);
        }
        self.tasks.remove(idx);
        proof {
            let post = *self;
            assert forall|k: int|
                0 <= k < post.tasks@.len() implies #[trigger] post.tasks@[k] == (if k < idx {
                pre.tasks@[k]
            } else {
                pre.tasks@[k + 1]
            }) by {}
            assert(post.wf()) by {
                assert forall|a: int, b: int|
                    #![trigger post.tasks@[a], post.tasks@[b]]
                    0 <= a < b < post.tasks@.len() implies post.tasks@[a].id.0
                    != post.tasks@[b].id.0 by {
                    let pa = if a < idx { a } else { a + 1 };
                    let pb = if b < idx { b } else { b + 1 };
                    assert(post.tasks@[a] == pre.tasks@[pa]);
                    assert(post.tasks@[b] == pre.tasks@[pb]);
                }
            }
            assert(!post.has_id(id.0)) by {
                if post.has_id(id.0) {
                    let k = choose|k: int|
                        0 <= k < post.tasks@.len() && #[trigger] post.tasks@[k].id.0 == id.0;
                    if k < idx {
                        assert(pre.tasks@[k].id.0 != pre.tasks@[idx as int].id.0);
                    } else {
                        assert(pre.tasks@[idx as int].id.0 != pre.tasks@[k + 1].id.0);
                    }
                }
            }
            assert forall|j: u128| j != id.0 implies post.has_id(j) == pre.has_id(j) by {
                if pre.has_id(j) {
                    let k = choose|k: int|
                        0 <= k < pre.tasks@.len() && #[trigger] pre.tasks@[k].id.0 == j;
                    assert(k != idx);
                    if k < idx {
                        assert(post.tasks@[k].id.0 == j);
                    } else {
                        assert(post.tasks@[k - 1].id.0 == j);
                    }
                }
                if post.has_id(j) {
                    let k = choose|k: int|
                        0 <= k < post.tasks@.len() && #[trigger] post.tasks@[k].id.0 == j;
                    if k < idx {
                        assert(pre.tasks@[k].id.0 == j);
                    } else {
                        assert(pre.tasks@[k + 1].id.0 == j);
                    }
                }
            }
            assert forall|j: u128| j != id.0 && pre.has_id(j) implies post.task_of(j)
                == pre.task_of(j) by {
                let k = choose|k: int|
                    0 <= k < pre.tasks@.len() && #[trigger] pre.tasks@[k].id.0 == j;
                assert(k != idx);
                let k2 = if k < idx { k } else { k - 1 };
                assert(post.tasks@[k2] == pre.tasks@[k]);
                pre.lemma_lookup(j, k);
                post.lemma_lookup(j, k2);
            }
        }
        Ok(())
    }

    /// Number of stored tasks.
    pub fn count(&self) -> (r: Result<usize, Error>)
        ensures
            r == Ok::<usize, Error>(self.task_count() as usize),
            self.task_count() <= usize::MAX,
    {
        Ok(self.tasks.len())
    }

    /// Number of stored tasks in this status.
    #[verifier::loop_isolation(false)]
    pub fn count_by_status(&self, status: &TaskStatus) -> (r: Result<usize, Error>)
        requires
            self.wf(),
        ensures
            r == Ok::<usize, Error>(count_status(self.tasks@, *status) as usize),
    {
        let mut c: usize = 0;
        let mut i: usize = 0;
        while i < self.tasks.len()
            invariant
                i <= self.tasks@.len(),
                c == count_status(self.tasks@.subrange(0, i as int), *status),
                c <= i,
            decreases self.tasks@.len() - i,
        {
            proof {
                assert(self.tasks@.subrange(0, i + 1 as int) =~= self.tasks@.subrange(
                    0,
                    i as int,
                ).push(self.tasks@[i as int]));
                lemma_count_status_push(self.tasks@.subrange(0, i as int), self.tasks@[i as int], *status);
            }
            if self.tasks[i].status == *status {
                c = c + 1;
            }
            i = i + 1;
        }
        proof {
            assert(self.tasks@.subrange(0, self.tasks@.len() as int) =~= self.tasks@);
        }
        Ok(c)
    }
}

} // verus!
