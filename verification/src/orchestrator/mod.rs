//! Supervision of submitted tasks: a registry of their status and a limit on
//! how many run at once.

pub mod board;
pub mod registry;

use crate::ident::{fresh_id, is_random_uuid};
use crate::time::{current_time, more_than, Timestamp};
use crate::upload::UploadManager;
use crate::workflow::WorkflowEngine;
use board::{
    expired, lemma_operations_keep_wf, lemma_running_within_capacity, Board, RETENTION_SECONDS,
};
use dashmap::DashMap;
use registry::{
    entries, registry_get, registry_insert, registry_new, registry_remove, registry_snapshot,
    registry_update,
};
use vstd::prelude::*;

verus! {

#[derive(Clone, Copy, Debug, PartialEq, Eq, Structural)]
pub enum TaskType {
    Upload,
    Workflow,
    System,
}

/// Where a task stands. A task is created `Pending`, becomes `Running` when
/// it is admitted, and ends `Completed`, `Failed` or `Cancelled`.
#[derive(Clone, Copy, Debug, PartialEq, Eq, Structural)]
pub enum TaskStatus {
    Pending,
    Running,
    Completed,
    Failed,
    Cancelled,
}

impl TaskStatus {
    /// `Completed`, `Failed` and `Cancelled` are final.
    pub open spec fn is_terminal_spec(&self) -> bool {
        self is Completed || self is Failed || self is Cancelled
    }

    #[verifier::when_used_as_spec(is_terminal_spec)]
    pub fn is_terminal(&self) -> (r: bool)
        ensures
            r == self.is_terminal_spec(),
    {
        match self {
            TaskStatus::Pending | TaskStatus::Running => false,
            _ => true,
        }
    }

    /// How far along its life a task in this status is.
    pub open spec fn rank(self) -> nat {
        match self {
            TaskStatus::Pending => 0,
            TaskStatus::Running => 1,
            _ => 2,
        }
    }
}

/// What the registry knows of one task.
#[derive(Clone, Debug, PartialEq, Eq)]
pub struct TaskInfo {
    pub id: u128,
    pub task_type: TaskType,
    pub status: TaskStatus,
    pub created_at: Timestamp,
    pub started_at: Option<Timestamp>,
    pub completed_at: Option<Timestamp>,
    pub error_message: Option<String>,
}

impl TaskInfo {
    /// A copy of the task.
    pub fn snapshot(&self) -> (copy: TaskInfo)
        ensures
            copy == *self,
    {
        TaskInfo {
            id: self.id,
            task_type: self.task_type,
            status: self.status,
            created_at: self.created_at,
            started_at: self.started_at,
            completed_at: self.completed_at,
            error_message: match &self.error_message {
                Some(message) => Some(message.clone()),
                None => None,
            },
        }
    }

    /// Whether the task has ended, and more than the retention time before
    /// `now`.
    pub fn is_expired(&self, now: Timestamp) -> (r: bool)
        ensures
            r == expired(*self, now),
    {
        if !self.status.is_terminal() {
            return false;
        }
        match self.completed_at {
            Some(at) => more_than(now, at, RETENTION_SECONDS),
            None => false,
        }
    }
}

/// Taking out the element at `i` of a list without repetitions takes that
/// element, and no other, out of the set of its elements.
proof fn lemma_remove_from_set(list: Seq<u128>, i: int)
    requires
        list.no_duplicates(),
        0 <= i < list.len(),
    ensures
        list.remove(i).no_duplicates(),
        list.remove(i).to_set() == list.to_set().remove(list[i]),
{
    let rest = list.remove(i);
    assert forall|a: int, b: int| 0 <= a < b < rest.len() implies rest[a] != rest[b] by {
        let a0 = if a < i { a } else { a + 1 };
        let b0 = if b < i { b } else { b + 1 };
        assert(rest[a] == list[a0] && rest[b] == list[b0]);
    }
    assert forall|x: u128| rest.to_set().contains(x) <==> list.to_set().remove(list[i]).contains(
        x,
    ) by {
        if rest.contains(x) {
            let a = choose|a: int| 0 <= a < rest.len() && rest[a] == x;
            let a0 = if a < i { a } else { a + 1 };
            assert(list[a0] == x);
        }
        if list.contains(x) && x != list[i] {
            let a0 = choose|a0: int| 0 <= a0 < list.len() && list[a0] == x;
            let a = if a0 < i { a0 } else { a0 - 1 };
            assert(rest[a] == x);
        }
    }
    assert(rest.to_set() =~= list.to_set().remove(list[i]));
}

/// Where `id` stands in `list`.
fn position_of(list: &Vec<u128>, id: u128) -> (found: Option<usize>)
    ensures
        match found {
            Some(i) => i < list@.len() && list@[i as int] == id,
            None => !list@.contains(id),
        },
{
    let mut i: usize = 0;
    while i < list.len()
        invariant
            i <= list@.len(),
            forall|j: int| 0 <= j < i ==> list@[j] != id,
        decreases list@.len() - i,
    {
        if list[i] == id {
            return Some(i);
        }
        i = i + 1;
    }
    None
}

/// Tracks every submitted task and admits tasks to run, no more at once
/// than the workflow engine's settings allow.
#[derive(Debug)]
pub struct AutomationOrchestrator {
    upload_manager: UploadManager,
    workflow_engine: WorkflowEngine,
    active_tasks: DashMap<u128, TaskInfo>,
    permits: Vec<u128>,
}

impl View for AutomationOrchestrator {
    type V = Board;

    closed spec fn view(&self) -> Board {
        Board {
            tasks: entries(self.active_tasks),
            permits: self.permits@.to_set(),
            capacity: self.workflow_engine.config.max_concurrent_workflows as nat,
        }
    }
}

impl AutomationOrchestrator {
    /// The board is well formed, and no task is listed twice among the
    /// holders of permits.
    pub closed spec fn wf(&self) -> bool {
        &&& self@.wf()
        &&& self.permits@.no_duplicates()
    }

    /// The engine that runs the workflows.
    pub closed spec fn engine(&self) -> WorkflowEngine {
        self.workflow_engine
    }

    /// The manager that processes the uploads.
    pub closed spec fn uploads(&self) -> UploadManager {
        self.upload_manager
    }

    /// What a well-formed orchestrator is: its board is well formed, and it
    /// has as many permits as its engine's settings allow workflows at
    /// once. So no more of its tasks are running than that.
    pub proof fn lemma_wf(&self)
        requires
            self.wf(),
        ensures
            self@.wf(),
            self@.capacity == self.engine().config.max_concurrent_workflows,
            self@.running().finite(),
            self@.running().len() <= self.engine().config.max_concurrent_workflows,
    {
        lemma_running_within_capacity(self@);
    }

    /// An orchestrator that tracks no task yet. It has as many permits as
    /// the engine's settings allow workflows at once.
    pub fn new(upload_manager: UploadManager, workflow_engine: WorkflowEngine) -> (orchestrator:
        Self)
        ensures
            orchestrator.wf(),
            orchestrator.engine() == workflow_engine,
            orchestrator.uploads() == upload_manager,
            orchestrator@ == (Board {
                tasks: Map::empty(),
                permits: Set::empty(),
                capacity: workflow_engine.config.max_concurrent_workflows as nat,
            }),
    {
        let orchestrator = Self {
            upload_manager,
            workflow_engine,
            active_tasks: registry_new(),
            permits: Vec::new(),
        };
        assert(orchestrator.permits@.to_set() =~= Set::<u128>::empty());
        orchestrator
    }

    pub fn workflow_engine(&self) -> (engine: &WorkflowEngine)
        ensures
            *engine == self.engine(),
    {
        &self.workflow_engine
    }

    pub fn upload_manager(&self) -> (manager: &UploadManager)
        ensures
            *manager == self.uploads(),
    {
        &self.upload_manager
    }

    /// Enters a task under `id`, pending, and says whether it did: an
    /// identifier that is in use keeps the task it stands for.
    pub fn submit_at(&mut self, id: u128, task_type: TaskType, now: Timestamp) -> (entered: bool)
        requires
            old(self).wf(),
        ensures
            final(self).wf(),
            final(self).engine() == old(self).engine(),
            final(self).uploads() == old(self).uploads(),
            entered == !old(self)@.tasks.contains_key(id),
            final(self)@ == old(self)@.submitted(id, task_type, now),
    {
        proof {
            lemma_operations_keep_wf(self@, id, task_type, Ok(()), now);
        }
        if registry_get(&self.active_tasks, id).is_some() {
            return false;
        }
        let task = TaskInfo {
            id,
            task_type,
            status: TaskStatus::Pending,
            created_at: now,
            started_at: None,
            completed_at: None,
            error_message: None,
        };
        registry_insert(&mut self.active_tasks, id, task);
        true
    }

    /// Draws a random identifier and enters a task under it, pending as of
    /// the present time, and returns the identifier. Nothing is entered, and
    /// `None` comes back, only if the identifier drawn is in use: so a task
    /// is entered whenever the registry tracks none.
    pub fn submit(&mut self, task_type: TaskType) -> (entered: Option<u128>)
        requires
            old(self).wf(),
        ensures
            final(self).wf(),
            final(self).engine() == old(self).engine(),
            final(self).uploads() == old(self).uploads(),
            exists|id: u128, now: Timestamp|
                is_random_uuid(id) && final(self)@ == #[trigger] old(self)@.submitted(
                    id,
                    task_type,
                    now,
                ) && entered == (if old(self)@.tasks.contains_key(id) {
                    None::<u128>
                } else {
                    Some(id)
                }),
    {
        let id = fresh_id();
        let now = current_time();
        let entered = if self.submit_at(id, task_type, now) {
            Some(id)
        } else {
            None
        };
        assert(self@ == old(self)@.submitted(id, task_type, now));
        entered
    }

    /// Asks that task `id` may run. Where a permit is left, or the task
    /// holds one, the task holds one afterwards, and its entry, if it is
    /// pending, says that it runs since `now`. Returns whether the task
    /// holds a permit afterwards; where it does not, the caller asks again
    /// once another task has finished.
    pub fn try_start_at(&mut self, id: u128, now: Timestamp) -> (admitted: bool)
        requires
            old(self).wf(),
        ensures
            final(self).wf(),
            final(self).engine() == old(self).engine(),
            final(self).uploads() == old(self).uploads(),
            admitted == old(self)@.admits(id),
            final(self)@ == old(self)@.admitted(id, now),
    {
        proof {
            lemma_operations_keep_wf(self@, id, TaskType::System, Ok(()), now);
            self.permits@.unique_seq_to_set();
        }
        if position_of(&self.permits, id).is_none() {
            if self.permits.len() >= self.workflow_engine.config.max_concurrent_workflows {
                return false;
            }
            proof {
                self.permits@.lemma_push_to_set_commute(id);
            }
            self.permits.push(id);
        } else {
            assert(self.permits@.to_set().insert(id) =~= self.permits@.to_set());
        }
        match registry_get(&self.active_tasks, id) {
            Some(task) => {
                if let TaskStatus::Pending = task.status {
                    let running = TaskInfo {
                        status: TaskStatus::Running,
                        started_at: Some(now),
                        ..task
                    };
                    registry_update(&mut self.active_tasks, id, running);
                }
            },
            None => {},
        }
        true
    }

    /// Asks that task `id` may run, as of the present time; see
    /// `try_start_at`.
    pub fn try_start(&mut self, id: u128) -> (admitted: bool)
        requires
            old(self).wf(),
        ensures
            final(self).wf(),
            final(self).engine() == old(self).engine(),
            final(self).uploads() == old(self).uploads(),
            admitted == old(self)@.admits(id),
            exists|now: Timestamp| final(self)@ == old(self)@.admitted(id, now),
    {
        let now = current_time();
        self.try_start_at(id, now)
    }

    /// Records that the work of task `id` has returned, with the message of
    /// its error if it failed, and frees the task's permit.
    pub fn finish_at(&mut self, id: u128, outcome: Result<(), String>, now: Timestamp)
        requires
            old(self).wf(),
        ensures
            final(self).wf(),
            final(self).engine() == old(self).engine(),
            final(self).uploads() == old(self).uploads(),
            final(self)@ == old(self)@.finished(id, outcome, now),
    {
        proof {
            lemma_operations_keep_wf(self@, id, TaskType::System, outcome, now);
        }
        match registry_get(&self.active_tasks, id) {
            Some(task) => {
                let done = match outcome {
                    Ok(_) => TaskInfo {
                        status: TaskStatus::Completed,
                        completed_at: Some(now),
                        ..task
                    },
                    Err(message) => TaskInfo {
                        status: TaskStatus::Failed,
                        error_message: Some(message),
                        completed_at: Some(now),
                        ..task
                    },
                };
                registry_update(&mut self.active_tasks, id, done);
            },
            None => {},
        }
        match position_of(&self.permits, id) {
            Some(i) => {
                proof {
                    lemma_remove_from_set(self.permits@, i as int);
                }
                self.permits.remove(i);
            },
            None => {
                assert(self.permits@.to_set() =~= self.permits@.to_set().remove(id));
            },
        }
    }

    /// Records that the work of task `id` has returned just now; see
    /// `finish_at`.
    pub fn finish(&mut self, id: u128, outcome: Result<(), String>)
        requires
            old(self).wf(),
        ensures
            final(self).wf(),
            final(self).engine() == old(self).engine(),
            final(self).uploads() == old(self).uploads(),
            exists|now: Timestamp| final(self)@ == old(self)@.finished(id, outcome, now),
    {
        let now = current_time();
        self.finish_at(id, outcome, now)
    }

    /// What the registry knows of task `id`.
    pub fn get_task_status(&self, task_id: u128) -> (info: Option<TaskInfo>)
        ensures
            info == (if self@.tasks.contains_key(task_id) {
                Some(self@.tasks[task_id])
            } else {
                None
            }),
    {
        registry_get(&self.active_tasks, task_id)
    }

    /// A copy of every tracked task, each once, in no particular order.
    pub fn list_active_tasks(&self) -> (list: Vec<TaskInfo>)
        requires
            self.wf(),
        ensures
            forall|i: int|
                0 <= i < list@.len() ==> self@.tasks.contains_pair(
                    (#[trigger] list@[i]).id,
                    list@[i],
                ),
            forall|i: int, j: int|
                0 <= i < j < list@.len() ==> (#[trigger] list@[i]).id != (#[trigger] list@[j]).id,
            forall|id: u128| #[trigger]
                self@.tasks.contains_key(id) ==> exists|i: int|
                    0 <= i < list@.len() && (#[trigger] list@[i]) == self@.tasks[id],
            list@.len() == self@.tasks.dom().len(),
    {
        let pairs = registry_snapshot(&self.active_tasks);
        let mut list: Vec<TaskInfo> = Vec::new();
        let mut k: usize = 0;
        while k < pairs.len()
            invariant
                k <= pairs@.len(),
                list@.len() == k,
                forall|i: int| 0 <= i < k ==> (#[trigger] list@[i]) == pairs@[i].1,
            decreases pairs@.len() - k,
        {
            let (_, task) = &pairs[k];
            list.push(task.snapshot());
            k = k + 1;
        }
        proof {
            let tasks = self@.tasks;
            assert forall|i: int| 0 <= i < list@.len() implies tasks.contains_pair(
                (#[trigger] list@[i]).id,
                list@[i],
            ) by {
                assert(tasks.contains_pair(pairs@[i].0, pairs@[i].1));
            }
            assert forall|i: int, j: int| 0 <= i < j < list@.len() implies (#[trigger] list@[i]).id
                != (#[trigger] list@[j]).id by {
                assert(tasks.contains_pair(pairs@[i].0, pairs@[i].1));
                assert(tasks.contains_pair(pairs@[j].0, pairs@[j].1));
            }
            assert forall|id: u128| #[trigger] tasks.contains_key(id) implies exists|i: int|
                0 <= i < list@.len() && (#[trigger] list@[i]) == tasks[id] by {
                let i = choose|i: int| 0 <= i < pairs@.len() && (#[trigger] pairs@[i]).0 == id;
                assert(tasks.contains_pair(pairs@[i].0, pairs@[i].1));
                assert(list@[i] == tasks[id]);
            }
            let ids = Seq::new(list@.len(), |i: int| list@[i].id);
            assert(ids.no_duplicates());
            ids.unique_seq_to_set();
            assert(ids.to_set() =~= tasks.dom()) by {
                assert forall|id: u128| tasks.dom().contains(id) implies ids.to_set().contains(
                    id,
                ) by {
                    let i = choose|i: int|
                        0 <= i < list@.len() && (#[trigger] list@[i]) == tasks[id];
                    assert(ids[i] == id);
                }
                assert forall|id: u128| ids.to_set().contains(id) implies tasks.dom().contains(
                    id,
                ) by {
                    let i = choose|i: int| 0 <= i < ids.len() && ids[i] == id;
                    assert(tasks.contains_pair(list@[i].id, list@[i]));
                }
            }
        }
        list
    }

    /// Marks task `id` as cancelled at `now`, if the registry tracks it, and
    /// says whether it does. The work of the task is not interrupted.
    pub fn cancel_task_at(&mut self, task_id: u128, now: Timestamp) -> (found: bool)
        requires
            old(self).wf(),
        ensures
            final(self).wf(),
            final(self).engine() == old(self).engine(),
            final(self).uploads() == old(self).uploads(),
            found == old(self)@.tasks.contains_key(task_id),
            final(self)@ == old(self)@.cancelled(task_id, now),
    {
        proof {
            lemma_operations_keep_wf(self@, task_id, TaskType::System, Ok(()), now);
        }
        match registry_get(&self.active_tasks, task_id) {
            Some(task) => {
                let cancelled = TaskInfo {
                    status: TaskStatus::Cancelled,
                    completed_at: Some(now),
                    ..task
                };
                registry_update(&mut self.active_tasks, task_id, cancelled);
                true
            },
            None => false,
        }
    }

    /// Marks task `id` as cancelled as of the present time; see
    /// `cancel_task_at`.
    pub fn cancel_task(&mut self, task_id: u128) -> (found: bool)
        requires
            old(self).wf(),
        ensures
            final(self).wf(),
            final(self).engine() == old(self).engine(),
            final(self).uploads() == old(self).uploads(),
            found == old(self)@.tasks.contains_key(task_id),
            exists|now: Timestamp| final(self)@ == old(self)@.cancelled(task_id, now),
    {
        let now = current_time();
        self.cancel_task_at(task_id, now)
    }

    /// Removes from the registry every task that had ended more than the
    /// retention time before `now`, and returns how many those were.
    pub fn cleanup_completed_tasks_at(&mut self, now: Timestamp) -> (removed: usize)
        requires
            old(self).wf(),
        ensures
            final(self).wf(),
            final(self).engine() == old(self).engine(),
            final(self).uploads() == old(self).uploads(),
            final(self)@ == old(self)@.swept(now),
            removed == old(self)@.expired_ids(now).len(),
    {
        let ghost board = self@;
        proof {
            lemma_operations_keep_wf(board, 0, TaskType::System, Ok(()), now);
        }
        let pairs = registry_snapshot(&self.active_tasks);
        let mut to_remove: Vec<u128> = Vec::new();
        let mut k: usize = 0;
        while k < pairs.len()
            invariant
                k <= pairs@.len(),
                board == self@,
                *self == *old(self),
                forall|i: int|
                    0 <= i < pairs@.len() ==> board.tasks.contains_pair(
                        (#[trigger] pairs@[i]).0,
                        pairs@[i].1,
                    ),
                forall|i: int, j: int|
                    0 <= i < j < pairs@.len() ==> (#[trigger] pairs@[i]).0 != (
                    #[trigger] pairs@[j]).0,
                to_remove@.no_duplicates(),
                forall|id: u128|
                    to_remove@.contains(id) <==> exists|i: int|
                        0 <= i < k && (#[trigger] pairs@[i]).0 == id && expired(pairs@[i].1, now),
            decreases pairs@.len() - k,
        {
            let ghost before = to_remove@;
            if pairs[k].1.is_expired(now) {
                to_remove.push(pairs[k].0);
                proof {
                    let added = pairs@[k as int].0;
                    assert(!before.contains(added));
                    assert forall|id: u128| to_remove@.contains(id) <==> exists|i: int|
                        0 <= i < k + 1 && (#[trigger] pairs@[i]).0 == id && expired(
                            pairs@[i].1,
                            now,
                        ) by {
                        if to_remove@.contains(id) {
                            let p = choose|p: int| 0 <= p < to_remove@.len() && to_remove@[p] == id;
                            if p < before.len() {
                                assert(before[p] == id);
                                assert(before.contains(id));
                            } else {
                                assert(pairs@[k as int].0 == id);
                            }
                        }
                        if exists|i: int|
                            0 <= i < k + 1 && (#[trigger] pairs@[i]).0 == id && expired(
                                pairs@[i].1,
                                now,
                            ) {
                            let i = choose|i: int|
                                0 <= i < k + 1 && (#[trigger] pairs@[i]).0 == id && expired(
                                    pairs@[i].1,
                                    now,
                                );
                            if i < k {
                                assert(before.contains(id));
                                let p = choose|p: int| 0 <= p < before.len() && before[p] == id;
                                assert(to_remove@[p] == id);
                            } else {
                                assert(to_remove@[before.len() as int] == id);
                            }
                        }
                    }
                }
            }
            k = k + 1;
        }
        proof {
            assert(to_remove@.to_set() =~= board.expired_ids(now)) by {
                assert forall|id: u128| to_remove@.to_set().contains(id) implies board.expired_ids(
                    now,
                ).contains(id) by {
                    let i = choose|i: int|
                        0 <= i < pairs@.len() && (#[trigger] pairs@[i]).0 == id && expired(
                            pairs@[i].1,
                            now,
                        );
                    assert(board.tasks.contains_pair(pairs@[i].0, pairs@[i].1));
                }
                assert forall|id: u128| board.expired_ids(now).contains(
                    id,
                ) implies to_remove@.to_set().contains(id) by {
                    let i = choose|i: int| 0 <= i < pairs@.len() && (#[trigger] pairs@[i]).0 == id;
                    assert(board.tasks.contains_pair(pairs@[i].0, pairs@[i].1));
                }
            }
            to_remove@.unique_seq_to_set();
        }
        let mut j: usize = 0;
        while j < to_remove.len()
            invariant
                j <= to_remove@.len(),
                self.permits == old(self).permits,
                self.workflow_engine == old(self).workflow_engine,
                self.upload_manager == old(self).upload_manager,
                entries(self.active_tasks) == board.tasks.remove_keys(
                    to_remove@.take(j as int).to_set(),
                ),
            decreases to_remove@.len() - j,
        {
            registry_remove(&mut self.active_tasks, to_remove[j]);
            proof {
                let shorter = to_remove@.take(j as int);
                let longer = to_remove@.take(j + 1);
                assert(longer == shorter.push(to_remove@[j as int]));
                shorter.lemma_push_to_set_commute(to_remove@[j as int]);
                assert(board.tasks.remove_keys(shorter.to_set()).remove(to_remove@[j as int])
                    =~= board.tasks.remove_keys(longer.to_set()));
            }
            j = j + 1;
        }
        assert(to_remove@.take(to_remove@.len() as int) == to_remove@);
        to_remove.len()
    }

    /// Removes every task that had ended more than the retention time before
    /// the present, and returns how many those were.
    pub fn cleanup_completed_tasks(&mut self) -> (removed: usize)
        requires
            old(self).wf(),
        ensures
            final(self).wf(),
            final(self).engine() == old(self).engine(),
            final(self).uploads() == old(self).uploads(),
            exists|now: Timestamp|
                final(self)@ == old(self)@.swept(now) && removed == old(self)@.expired_ids(
                    now,
                ).len(),
    {
        let now = current_time();
        self.cleanup_completed_tasks_at(now)
    }
}

} // verus!
